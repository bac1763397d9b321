use mvdparser::event::{Event, FlagEvent, FragEvent};

fn s(v: &str) -> String {
    v.to_string()
}

fn expected_event(kind: &str) -> Event {
    match kind {
        "foo_death" => Event::Death { player: s("FOO") },
        "foo_suicide_wpn" => Event::SuicideByWeapon { player: s("FOO") },
        "foo_suicide" => Event::Suicide { player: s("FOO") },
        "foo_tk" => Event::Teamkill { killer: s("FOO") },
        "foo_tk_by_unknown" => Event::TeamkillByUnknown { victim: s("FOO") },
        "foo_frag_bar" => Event::Frag { killer: s("FOO"), victim: s("BAR") },
        "bar_frag_foo" => Event::Frag { killer: s("BAR"), victim: s("FOO") },
        "flag:Capture" => Event::FlagAlert { player: s("FOO"), event: FlagEvent::Capture },
        "flag:ReturnFlagAssist" => Event::FlagAlert { player: s("FOO"), event: FlagEvent::ReturnFlagAssist },
        "flag:ReturnFlag" => Event::FlagAlert { player: s("FOO"), event: FlagEvent::ReturnFlag },
        "flag:Defend" => Event::FlagAlert { player: s("FOO"), event: FlagEvent::Defend },
        "flag:DefendCarrier" => Event::FlagAlert { player: s("FOO"), event: FlagEvent::DefendCarrier },
        "flag:DefendCarrierVsAggressive" => Event::FlagAlert {
            player: s("FOO"),
            event: FlagEvent::DefendCarrierVsAggressive,
        },
        _ => panic!("unknown case kind {}", kind),
    }
}

fn expected_frag_event(kind: &str) -> FragEvent {
    match kind {
        "foo_death" => FragEvent::Death { player: s("FOO") },
        "foo_suicide_wpn" => FragEvent::SuicideByWeapon { player: s("FOO") },
        "foo_suicide" => FragEvent::Suicide { player: s("FOO") },
        "foo_tk" => FragEvent::Teamkill { killer: s("FOO") },
        "foo_tk_by_unknown" => FragEvent::TeamkillByUnknown { victim: s("FOO") },
        "foo_frag_bar" => FragEvent::Frag { killer: s("FOO"), victim: s("BAR") },
        "bar_frag_foo" => FragEvent::Frag { killer: s("BAR"), victim: s("FOO") },
        _ => panic!("unknown case kind {}", kind),
    }
}

const FRAGEVENT_CASES: [(&str, &str); 72] = [
    ("FOO sleeps with the fishes", "foo_death"),
    ("FOO sucks it down", "foo_death"),
    ("FOO gulped a load of slime", "foo_death"),
    ("FOO can't exist on slime alone", "foo_death"),
    ("FOO burst into flames", "foo_death"),
    ("FOO turned into hot slag", "foo_death"),
    ("FOO visits the Volcano God", "foo_death"),
    ("FOO cratered", "foo_death"),
    ("FOO fell to his death", "foo_death"),
    ("FOO fell to her death", "foo_death"),
    ("FOO blew up", "foo_death"),
    ("FOO was spiked", "foo_death"),
    ("FOO was zapped", "foo_death"),
    ("FOO ate a lavaball", "foo_death"),
    ("FOO died", "foo_death"),
    ("FOO tried to leave", "foo_death"),
    ("FOO was squished", "foo_death"),
    ("FOO tries to put the pin back in", "foo_suicide_wpn"),
    ("FOO becomes bored with life", "foo_suicide_wpn"),
    ("FOO discovers blast radius", "foo_suicide_wpn"),
    ("FOO electrocutes himself", "foo_suicide_wpn"),
    ("FOO electrocutes herself", "foo_suicide_wpn"),
    ("FOO railcutes himself", "foo_suicide_wpn"),
    ("FOO railcutes herself", "foo_suicide_wpn"),
    ("FOO discharges into the slime", "foo_suicide_wpn"),
    ("FOO discharges into the lava", "foo_suicide_wpn"),
    ("FOO discharges into the water", "foo_suicide_wpn"),
    ("FOO heats up the water", "foo_suicide_wpn"),
    ("FOO squished a teammate", "foo_tk"),
    ("FOO mows down a teammate", "foo_tk"),
    ("FOO checks his glasses", "foo_tk"),
    ("FOO checks her glasses", "foo_tk"),
    ("FOO gets a frag for the other team", "foo_tk"),
    ("FOO loses another friend", "foo_tk"),
    ("FOO was telefragged by his teammate", "foo_tk_by_unknown"),
    ("FOO was telefragged by her teammate", "foo_tk_by_unknown"),
    ("FOO was crushed by his teammate", "foo_tk_by_unknown"),
    ("FOO was crushed by her teammate", "foo_tk_by_unknown"),
    ("FOO was jumped by his teammate", "foo_tk_by_unknown"),
    ("FOO was jumped by her teammate", "foo_tk_by_unknown"),
    ("FOO stomps BAR", "foo_frag_bar"),
    ("FOO squishes BAR", "foo_frag_bar"),
    ("FOO rips BAR a new one", "foo_frag_bar"),
    ("FOO was ax-murdered by BAR", "bar_frag_foo"),
    ("FOO softens BAR's fall", "bar_frag_foo"),
    ("FOO tried to catch BAR", "bar_frag_foo"),
    ("FOO was crushed by BAR", "bar_frag_foo"),
    ("FOO was jumped by BAR", "bar_frag_foo"),
    ("FOO chewed on BAR's boomstick", "bar_frag_foo"),
    ("FOO was body pierced by BAR", "bar_frag_foo"),
    ("FOO was nailed by BAR", "bar_frag_foo"),
    ("FOO was railed by BAR", "bar_frag_foo"),
    ("FOO was telefragged by BAR", "bar_frag_foo"),
    ("FOO accepts BAR's discharge", "bar_frag_foo"),
    ("FOO drains BAR's batteries", "bar_frag_foo"),
    ("FOO was lead poisoned by BAR", "bar_frag_foo"),
    ("FOO accepts BAR's shaft", "bar_frag_foo"),
    ("FOO ate 2 loads of BAR's buckshot", "bar_frag_foo"),
    ("FOO was perforated by BAR", "bar_frag_foo"),
    ("FOO was punctured by BAR", "bar_frag_foo"),
    ("FOO was ventilated by BAR", "bar_frag_foo"),
    ("FOO ate 8 loads of BAR's buckshot", "bar_frag_foo"),
    ("FOO gets a natural disaster from BAR", "bar_frag_foo"),
    ("FOO rides BAR's rocket", "bar_frag_foo"),
    ("FOO was gibbed by BAR's rocket", "bar_frag_foo"),
    ("FOO was straw-cuttered by BAR", "bar_frag_foo"),
    ("FOO eats BAR's pineapple", "bar_frag_foo"),
    ("FOO was gibbed by BAR's grenade", "bar_frag_foo"),
    ("FOO was brutalized by BAR's quad rocket", "bar_frag_foo"),
    ("FOO was smeared by BAR's quad rocket", "bar_frag_foo"),
    ("FOO was hooked by BAR", "bar_frag_foo"),
    ("FOO suicides", "foo_suicide"),
];

const FRAGFILE_CASES: [(&str, &str); 93] = [
    ("FOO sleeps with the fishes", "foo_death"),
    ("FOO sucks it down", "foo_death"),
    ("FOO gulped a load of slime", "foo_death"),
    ("FOO can't exist on slime alone", "foo_death"),
    ("FOO burst into flames", "foo_death"),
    ("FOO turned into hot slag", "foo_death"),
    ("FOO visits the Volcano God", "foo_death"),
    ("FOO cratered", "foo_death"),
    ("FOO fell to his death", "foo_death"),
    ("FOO fell to her death", "foo_death"),
    ("FOO blew up", "foo_death"),
    ("FOO was spiked", "foo_death"),
    ("FOO was zapped", "foo_death"),
    ("FOO ate a lavaball", "foo_death"),
    ("FOO died", "foo_death"),
    ("FOO tried to leave", "foo_death"),
    ("FOO was squished", "foo_death"),
    ("FOO tries to put the pin back in", "foo_suicide_wpn"),
    ("FOO becomes bored with life", "foo_suicide_wpn"),
    ("FOO discovers blast radius", "foo_suicide_wpn"),
    ("FOO electrocutes himself", "foo_suicide_wpn"),
    ("FOO electrocutes herself", "foo_suicide_wpn"),
    ("FOO railcutes himself", "foo_suicide_wpn"),
    ("FOO railcutes herself", "foo_suicide_wpn"),
    ("FOO discharges into the slime", "foo_suicide_wpn"),
    ("FOO discharges into the lava", "foo_suicide_wpn"),
    ("FOO discharges into the water", "foo_suicide_wpn"),
    ("FOO heats up the water", "foo_suicide_wpn"),
    ("FOO squished a teammate", "foo_tk"),
    ("FOO mows down a teammate", "foo_tk"),
    ("FOO checks his glasses", "foo_tk"),
    ("FOO checks her glasses", "foo_tk"),
    ("FOO gets a frag for the other team", "foo_tk"),
    ("FOO loses another friend", "foo_tk"),
    ("FOO was telefragged by his teammate", "foo_tk_by_unknown"),
    ("FOO was telefragged by her teammate", "foo_tk_by_unknown"),
    ("FOO was crushed by his teammate", "foo_tk_by_unknown"),
    ("FOO was crushed by her teammate", "foo_tk_by_unknown"),
    ("FOO was jumped by his teammate", "foo_tk_by_unknown"),
    ("FOO was jumped by her teammate", "foo_tk_by_unknown"),
    ("FOO stomps BAR", "foo_frag_bar"),
    ("FOO squishes BAR", "foo_frag_bar"),
    ("FOO rips BAR a new one", "foo_frag_bar"),
    ("FOO was ax-murdered by BAR", "bar_frag_foo"),
    ("FOO softens BAR's fall", "bar_frag_foo"),
    ("FOO tried to catch BAR", "bar_frag_foo"),
    ("FOO was crushed by BAR", "bar_frag_foo"),
    ("FOO was jumped by BAR", "bar_frag_foo"),
    ("FOO chewed on BAR's boomstick", "bar_frag_foo"),
    ("FOO was body pierced by BAR", "bar_frag_foo"),
    ("FOO was nailed by BAR", "bar_frag_foo"),
    ("FOO was railed by BAR", "bar_frag_foo"),
    ("FOO was telefragged by BAR", "bar_frag_foo"),
    ("FOO accepts BAR's discharge", "bar_frag_foo"),
    ("FOO drains BAR's batteries", "bar_frag_foo"),
    ("FOO was lead poisoned by BAR", "bar_frag_foo"),
    ("FOO accepts BAR's shaft", "bar_frag_foo"),
    ("FOO ate 2 loads of BAR's buckshot", "bar_frag_foo"),
    ("FOO was perforated by BAR", "bar_frag_foo"),
    ("FOO was punctured by BAR", "bar_frag_foo"),
    ("FOO was ventilated by BAR", "bar_frag_foo"),
    ("FOO ate 8 loads of BAR's buckshot", "bar_frag_foo"),
    ("FOO gets a natural disaster from BAR", "bar_frag_foo"),
    ("FOO rides BAR's rocket", "bar_frag_foo"),
    ("FOO was gibbed by BAR's rocket", "bar_frag_foo"),
    ("FOO was straw-cuttered by BAR", "bar_frag_foo"),
    ("FOO eats BAR's pineapple", "bar_frag_foo"),
    ("FOO was gibbed by BAR's grenade", "bar_frag_foo"),
    ("FOO was brutalized by BAR's quad rocket", "bar_frag_foo"),
    ("FOO was smeared by BAR's quad rocket", "bar_frag_foo"),
    ("FOO was hooked by BAR", "bar_frag_foo"),
    ("FOO suicides", "foo_suicide"),
    ("FOO captured the RED flag!", "flag:Capture"),
    ("FOO captured the ÒÅÄ flag!", "flag:Capture"),
    ("FOO captured the BLUE flag!", "flag:Capture"),
    ("FOO captured the ÂÌÕÅ flag!", "flag:Capture"),
    ("FOO gets an assist for returning his flag!", "flag:ReturnFlagAssist"),
    ("FOO gets an assist for fragging the flag carrier!", "flag:ReturnFlagAssist"),
    ("FOO returned the RED flag!", "flag:ReturnFlag"),
    ("FOO returned the ÒÅÄ flag!", "flag:ReturnFlag"),
    ("FOO returned the BLUE flag!", "flag:ReturnFlag"),
    ("FOO returned the ÂÌÕÅ flag!", "flag:ReturnFlag"),
    ("FOO defends the RED flag", "flag:Defend"),
    ("FOO defends the ÒÅÄ flag", "flag:Defend"),
    ("FOO defends the BLUE flag", "flag:Defend"),
    ("FOO defends RED's flag carrier", "flag:DefendCarrier"),
    ("FOO defends ÒÅÄ's flag carrier", "flag:DefendCarrier"),
    ("FOO defends BLUE's flag carrier", "flag:DefendCarrier"),
    ("FOO defends ÂÌÕÅ's flag carrier", "flag:DefendCarrier"),
    ("FOO defends RED's flag carrier against an aggressive enemy", "flag:DefendCarrierVsAggressive"),
    ("FOO defends ÒÅÄ's flag carrier against an aggressive enemy", "flag:DefendCarrierVsAggressive"),
    ("FOO defends BLUE's flag carrier against an aggressive enemy", "flag:DefendCarrierVsAggressive"),
    ("FOO defends ÂÌÕÅ's flag carrier against an aggressive enemy", "flag:DefendCarrierVsAggressive"),
];

const FLAGEVENT_CASES: [(&str, &str); 93] = [
    ("FOO sleeps with the fishes", "foo_death"),
    ("FOO sucks it down", "foo_death"),
    ("FOO gulped a load of slime", "foo_death"),
    ("FOO can't exist on slime alone", "foo_death"),
    ("FOO burst into flames", "foo_death"),
    ("FOO turned into hot slag", "foo_death"),
    ("FOO visits the Volcano God", "foo_death"),
    ("FOO cratered", "foo_death"),
    ("FOO fell to his death", "foo_death"),
    ("FOO fell to her death", "foo_death"),
    ("FOO blew up", "foo_death"),
    ("FOO was spiked", "foo_death"),
    ("FOO was zapped", "foo_death"),
    ("FOO ate a lavaball", "foo_death"),
    ("FOO died", "foo_death"),
    ("FOO tried to leave", "foo_death"),
    ("FOO was squished", "foo_death"),
    ("FOO tries to put the pin back in", "foo_suicide_wpn"),
    ("FOO becomes bored with life", "foo_suicide_wpn"),
    ("FOO discovers blast radius", "foo_suicide_wpn"),
    ("FOO electrocutes himself", "foo_suicide_wpn"),
    ("FOO electrocutes herself", "foo_suicide_wpn"),
    ("FOO railcutes himself", "foo_suicide_wpn"),
    ("FOO railcutes herself", "foo_suicide_wpn"),
    ("FOO discharges into the slime", "foo_suicide_wpn"),
    ("FOO discharges into the lava", "foo_suicide_wpn"),
    ("FOO discharges into the water", "foo_suicide_wpn"),
    ("FOO heats up the water", "foo_suicide_wpn"),
    ("FOO squished a teammate", "foo_tk"),
    ("FOO mows down a teammate", "foo_tk"),
    ("FOO checks his glasses", "foo_tk"),
    ("FOO checks her glasses", "foo_tk"),
    ("FOO gets a frag for the other team", "foo_tk"),
    ("FOO loses another friend", "foo_tk"),
    ("FOO was telefragged by his teammate", "foo_tk_by_unknown"),
    ("FOO was telefragged by her teammate", "foo_tk_by_unknown"),
    ("FOO was crushed by his teammate", "foo_tk_by_unknown"),
    ("FOO was crushed by her teammate", "foo_tk_by_unknown"),
    ("FOO was jumped by his teammate", "foo_tk_by_unknown"),
    ("FOO was jumped by her teammate", "foo_tk_by_unknown"),
    ("FOO stomps BAR", "foo_frag_bar"),
    ("FOO squishes BAR", "foo_frag_bar"),
    ("FOO rips BAR a new one", "foo_frag_bar"),
    ("FOO was ax-murdered by BAR", "bar_frag_foo"),
    ("FOO softens BAR's fall", "bar_frag_foo"),
    ("FOO tried to catch BAR", "bar_frag_foo"),
    ("FOO was crushed by BAR", "bar_frag_foo"),
    ("FOO was jumped by BAR", "bar_frag_foo"),
    ("FOO chewed on BAR's boomstick", "bar_frag_foo"),
    ("FOO was body pierced by BAR", "bar_frag_foo"),
    ("FOO was nailed by BAR", "bar_frag_foo"),
    ("FOO was railed by BAR", "bar_frag_foo"),
    ("FOO was telefragged by BAR", "bar_frag_foo"),
    ("FOO accepts BAR's discharge", "bar_frag_foo"),
    ("FOO drains BAR's batteries", "bar_frag_foo"),
    ("FOO was lead poisoned by BAR", "bar_frag_foo"),
    ("FOO accepts BAR's shaft", "bar_frag_foo"),
    ("FOO ate 2 loads of BAR's buckshot", "bar_frag_foo"),
    ("FOO was perforated by BAR", "bar_frag_foo"),
    ("FOO was punctured by BAR", "bar_frag_foo"),
    ("FOO was ventilated by BAR", "bar_frag_foo"),
    ("FOO ate 8 loads of BAR's buckshot", "bar_frag_foo"),
    ("FOO gets a natural disaster from BAR", "bar_frag_foo"),
    ("FOO rides BAR's rocket", "bar_frag_foo"),
    ("FOO was gibbed by BAR's rocket", "bar_frag_foo"),
    ("FOO was straw-cuttered by BAR", "bar_frag_foo"),
    ("FOO eats BAR's pineapple", "bar_frag_foo"),
    ("FOO was gibbed by BAR's grenade", "bar_frag_foo"),
    ("FOO was brutalized by BAR's quad rocket", "bar_frag_foo"),
    ("FOO was smeared by BAR's quad rocket", "bar_frag_foo"),
    ("FOO was hooked by BAR", "bar_frag_foo"),
    ("FOO suicides", "foo_suicide"),
    ("FOO captured the RED flag!", "flag:Capture"),
    ("FOO ãáðôõòåä the ÒÅÄ flag!", "flag:Capture"),
    ("FOO captured the BLUE flag!", "flag:Capture"),
    ("FOO ãáðôõòåä the ÂÌÕÅ flag!", "flag:Capture"),
    ("FOO gets an assist for returning his flag!", "flag:ReturnFlagAssist"),
    ("FOO gets an assist for fragging the flag carrier!", "flag:ReturnFlagAssist"),
    ("FOO returned the RED flag!", "flag:ReturnFlag"),
    ("FOO returned the ÒÅÄ flag!", "flag:ReturnFlag"),
    ("FOO returned the BLUE flag!", "flag:ReturnFlag"),
    ("FOO returned the ÂÌÕÅ flag!", "flag:ReturnFlag"),
    ("FOO defends the RED flag", "flag:Defend"),
    ("FOO defends the ÒÅÄ flag", "flag:Defend"),
    ("FOO defends the BLUE flag", "flag:Defend"),
    ("FOO defends RED's flag carrier", "flag:DefendCarrier"),
    ("FOO defends ÒÅÄ's flag carrier", "flag:DefendCarrier"),
    ("FOO defends BLUE's flag carrier", "flag:DefendCarrier"),
    ("FOO defends ÂÌÕÅ's flag carrier", "flag:DefendCarrier"),
    ("FOO defends RED's flag carrier against an aggressive enemy", "flag:DefendCarrierVsAggressive"),
    ("FOO defends ÒÅÄ's flag carrier against an aggressive enemy", "flag:DefendCarrierVsAggressive"),
    ("FOO defends BLUE's flag carrier against an aggressive enemy", "flag:DefendCarrierVsAggressive"),
    ("FOO defends ÂÌÕÅ's flag carrier against an aggressive enemy", "flag:DefendCarrierVsAggressive"),
];

#[test]
fn fragevent_test_frag_event() {
    for (input, kind) in FRAGEVENT_CASES {
        assert_eq!(FragEvent::try_from(input).unwrap(), expected_frag_event(kind), "{}", input);
    }
}

#[test]
fn fragfile_test_frag_event() {
    for (input, kind) in FRAGFILE_CASES {
        assert_eq!(Event::try_from(input).unwrap(), expected_event(kind), "{}", input);
    }
}

#[test]
fn flagevent_test_frag_event() {
    for (input, kind) in FLAGEVENT_CASES {
        assert_eq!(Event::try_from(input).unwrap(), expected_event(kind), "{}", input);
    }
}

#[test]
fn classify_precedence_known_and_unknown_killer() {
    assert_eq!(
        Event::try_from("FOO stomps BAR").unwrap(),
        Event::Frag { killer: s("FOO"), victim: s("BAR") }
    );
    assert_eq!(
        Event::try_from("FOO was crushed by BAR").unwrap(),
        Event::Frag { killer: s("BAR"), victim: s("FOO") }
    );
    assert_eq!(
        Event::try_from("FOO was crushed by his teammate").unwrap(),
        Event::TeamkillByUnknown { victim: s("FOO") }
    );
}

#[test]
fn classify_got_flag_in_both_charsets() {
    assert_eq!(
        Event::try_from("FOO got the RED flag!").unwrap(),
        Event::FlagAlert { player: s("FOO"), event: FlagEvent::GotFlag }
    );
    assert_eq!(
        Event::try_from("FOO \u{e7}\u{ef}\u{f4} the \u{d2}\u{c5}\u{c4} flag!").unwrap(),
        Event::FlagAlert { player: s("FOO"), event: FlagEvent::GotFlag }
    );
}

#[test]
fn classify_unrelated_text_is_unknown() {
    let err = Event::try_from("hello there").unwrap_err();
    assert_eq!(err.to_string(), "Unable to parse message");
    assert!(FragEvent::try_from("FOO captured the RED flag!").is_err());
}

#[test]
fn classify_strips_the_template_once() {
    assert_eq!(
        Event::try_from("FOO died died").unwrap(),
        Event::Death { player: s("FOO died") }
    );
}

#[test]
fn classify_wildcard_template_captures_between_prefix_and_suffix() {
    assert_eq!(
        Event::try_from("A B rides C D's rocket").unwrap(),
        Event::Frag { killer: s("C D"), victim: s("A B") }
    );
}
