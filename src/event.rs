use vstd::prelude::*;

use vstd::std_specs::iter::IteratorSpec;

use crate::error::Error;

verus! {

/// Kinds of flag event in a capture-the-flag match.
#[derive(Clone, Copy, Debug, PartialEq, Eq, Structural)]
pub enum FlagEvent {
    Capture,
    Defend,
    DefendCarrier,
    DefendCarrierVsAggressive,
    ReturnFlag,
    ReturnFlagAssist,
    GotFlag,
}

/// A scoring event read from one console message.
#[derive(Clone, Debug, PartialEq, Eq)]
pub enum Event {
    Death { player: String },
    Suicide { player: String },
    SuicideByWeapon { player: String },
    Frag { killer: String, victim: String },
    Teamkill { killer: String },
    TeamkillByUnknown { victim: String },
    FlagAlert { player: String, event: FlagEvent },
}

/// An event with its names as character sequences.
pub enum EventView {
    Death(Seq<char>),
    Suicide(Seq<char>),
    SuicideByWeapon(Seq<char>),
    Frag(Seq<char>, Seq<char>),
    Teamkill(Seq<char>),
    TeamkillByUnknown(Seq<char>),
    FlagAlert(Seq<char>, FlagEvent),
}

impl View for Event {
    type V = EventView;

    open spec fn view(&self) -> EventView {
        match self {
            Event::Death { player } => EventView::Death(player@),
            Event::Suicide { player } => EventView::Suicide(player@),
            Event::SuicideByWeapon { player } => EventView::SuicideByWeapon(player@),
            Event::Frag { killer, victim } => EventView::Frag(killer@, victim@),
            Event::Teamkill { killer } => EventView::Teamkill(killer@),
            Event::TeamkillByUnknown { victim } => EventView::TeamkillByUnknown(victim@),
            Event::FlagAlert { player, event } => EventView::FlagAlert(player@, *event),
        }
    }
}

/// Deaths by the world: the text before is the player.
pub open spec fn spec_death() -> Seq<&'static str> {
    seq![
        " sleeps with the fishes",
        " sucks it down",
        " gulped a load of slime",
        " can't exist on slime alone",
        " burst into flames",
        " turned into hot slag",
        " visits the Volcano God",
        " cratered",
        " fell to his death",
        " fell to her death",
        " blew up",
        " was spiked",
        " was zapped",
        " ate a lavaball",
        " died",
        " tried to leave",
        " was squished",
    ]
}

/// Deaths by the world: the text before is the player.
pub fn death() -> (r: Vec<&'static str>)
    ensures
        r@ == spec_death(),
{
    let mut r: Vec<&'static str> = Vec::new();
    r.push(" sleeps with the fishes");
    r.push(" sucks it down");
    r.push(" gulped a load of slime");
    r.push(" can't exist on slime alone");
    r.push(" burst into flames");
    r.push(" turned into hot slag");
    r.push(" visits the Volcano God");
    r.push(" cratered");
    r.push(" fell to his death");
    r.push(" fell to her death");
    r.push(" blew up");
    r.push(" was spiked");
    r.push(" was zapped");
    r.push(" ate a lavaball");
    r.push(" died");
    r.push(" tried to leave");
    r.push(" was squished");
    assert(r@ =~= spec_death());
    r
}

/// Deaths by one's own weapon.
pub open spec fn spec_suicide_by_weapon() -> Seq<&'static str> {
    seq![
        " tries to put the pin back in",
        " becomes bored with life",
        " discovers blast radius",
        " electrocutes himself",
        " electrocutes herself",
        " railcutes himself",
        " railcutes herself",
        " discharges into the slime",
        " discharges into the lava",
        " discharges into the water",
        " heats up the water",
    ]
}

/// Deaths by one's own weapon.
pub fn suicide_by_weapon() -> (r: Vec<&'static str>)
    ensures
        r@ == spec_suicide_by_weapon(),
{
    let mut r: Vec<&'static str> = Vec::new();
    r.push(" tries to put the pin back in");
    r.push(" becomes bored with life");
    r.push(" discovers blast radius");
    r.push(" electrocutes himself");
    r.push(" electrocutes herself");
    r.push(" railcutes himself");
    r.push(" railcutes herself");
    r.push(" discharges into the slime");
    r.push(" discharges into the lava");
    r.push(" discharges into the water");
    r.push(" heats up the water");
    assert(r@ =~= spec_suicide_by_weapon());
    r
}

/// A plain suicide.
pub open spec fn spec_suicide() -> Seq<&'static str> {
    seq![
        " suicides",
    ]
}

/// A plain suicide.
pub fn suicide() -> (r: Vec<&'static str>)
    ensures
        r@ == spec_suicide(),
{
    let mut r: Vec<&'static str> = Vec::new();
    r.push(" suicides");
    assert(r@ =~= spec_suicide());
    r
}

/// Teamkills that name the killer.
pub open spec fn spec_teamkill() -> Seq<&'static str> {
    seq![
        " squished a teammate",
        " mows down a teammate",
        " checks his glasses",
        " checks her glasses",
        " gets a frag for the other team",
        " loses another friend",
    ]
}

/// Teamkills that name the killer.
pub fn teamkill() -> (r: Vec<&'static str>)
    ensures
        r@ == spec_teamkill(),
{
    let mut r: Vec<&'static str> = Vec::new();
    r.push(" squished a teammate");
    r.push(" mows down a teammate");
    r.push(" checks his glasses");
    r.push(" checks her glasses");
    r.push(" gets a frag for the other team");
    r.push(" loses another friend");
    assert(r@ =~= spec_teamkill());
    r
}

/// Teamkills that name only the victim.
pub open spec fn spec_teamkill_by_unknown() -> Seq<&'static str> {
    seq![
        " was telefragged by his teammate",
        " was telefragged by her teammate",
        " was crushed by his teammate",
        " was crushed by her teammate",
        " was jumped by his teammate",
        " was jumped by her teammate",
    ]
}

/// Teamkills that name only the victim.
pub fn teamkill_by_unknown() -> (r: Vec<&'static str>)
    ensures
        r@ == spec_teamkill_by_unknown(),
{
    let mut r: Vec<&'static str> = Vec::new();
    r.push(" was telefragged by his teammate");
    r.push(" was telefragged by her teammate");
    r.push(" was crushed by his teammate");
    r.push(" was crushed by her teammate");
    r.push(" was jumped by his teammate");
    r.push(" was jumped by her teammate");
    assert(r@ =~= spec_teamkill_by_unknown());
    r
}

/// Flag captures, in plain and high-charset spellings.
pub open spec fn spec_capture() -> Seq<&'static str> {
    seq![
        " captured the RED flag!",
        " captured the \u{d2}\u{c5}\u{c4} flag!",
        " \u{e3}\u{e1}\u{f0}\u{f4}\u{f5}\u{f2}\u{e5}\u{e4} the \u{d2}\u{c5}\u{c4} flag!",
        " captured the BLUE flag!",
        " captured the \u{c2}\u{cc}\u{d5}\u{c5} flag!",
        " \u{e3}\u{e1}\u{f0}\u{f4}\u{f5}\u{f2}\u{e5}\u{e4} the \u{c2}\u{cc}\u{d5}\u{c5} flag!",
    ]
}

/// Flag captures, in plain and high-charset spellings.
pub fn capture() -> (r: Vec<&'static str>)
    ensures
        r@ == spec_capture(),
{
    let mut r: Vec<&'static str> = Vec::new();
    r.push(" captured the RED flag!");
    r.push(" captured the \u{d2}\u{c5}\u{c4} flag!");
    r.push(" \u{e3}\u{e1}\u{f0}\u{f4}\u{f5}\u{f2}\u{e5}\u{e4} the \u{d2}\u{c5}\u{c4} flag!");
    r.push(" captured the BLUE flag!");
    r.push(" captured the \u{c2}\u{cc}\u{d5}\u{c5} flag!");
    r.push(" \u{e3}\u{e1}\u{f0}\u{f4}\u{f5}\u{f2}\u{e5}\u{e4} the \u{c2}\u{cc}\u{d5}\u{c5} flag!");
    assert(r@ =~= spec_capture());
    r
}

/// Assists in returning a flag.
pub open spec fn spec_return_assist() -> Seq<&'static str> {
    seq![
        " gets an assist for returning his flag!",
        " gets an assist for fragging the flag carrier!",
    ]
}

/// Assists in returning a flag.
pub fn return_assist() -> (r: Vec<&'static str>)
    ensures
        r@ == spec_return_assist(),
{
    let mut r: Vec<&'static str> = Vec::new();
    r.push(" gets an assist for returning his flag!");
    r.push(" gets an assist for fragging the flag carrier!");
    assert(r@ =~= spec_return_assist());
    r
}

/// Flag returns, in plain and high-charset spellings.
pub open spec fn spec_return_flag() -> Seq<&'static str> {
    seq![
        " returned the RED flag!",
        " returned the \u{d2}\u{c5}\u{c4} flag!",
        " \u{f2}\u{e5}\u{f4}\u{f5}\u{f2}\u{ee}\u{e5}\u{e4} the \u{d2}\u{c5}\u{c4} flag!",
        " returned the BLUE flag!",
        " returned the \u{c2}\u{cc}\u{d5}\u{c5} flag!",
        " \u{f2}\u{e5}\u{f4}\u{f5}\u{f2}\u{ee}\u{e5}\u{e4} the \u{c2}\u{cc}\u{d5}\u{c5} flag!",
    ]
}

/// Flag returns, in plain and high-charset spellings.
pub fn return_flag() -> (r: Vec<&'static str>)
    ensures
        r@ == spec_return_flag(),
{
    let mut r: Vec<&'static str> = Vec::new();
    r.push(" returned the RED flag!");
    r.push(" returned the \u{d2}\u{c5}\u{c4} flag!");
    r.push(" \u{f2}\u{e5}\u{f4}\u{f5}\u{f2}\u{ee}\u{e5}\u{e4} the \u{d2}\u{c5}\u{c4} flag!");
    r.push(" returned the BLUE flag!");
    r.push(" returned the \u{c2}\u{cc}\u{d5}\u{c5} flag!");
    r.push(" \u{f2}\u{e5}\u{f4}\u{f5}\u{f2}\u{ee}\u{e5}\u{e4} the \u{c2}\u{cc}\u{d5}\u{c5} flag!");
    assert(r@ =~= spec_return_flag());
    r
}

/// Flag defences.
pub open spec fn spec_defend_flag() -> Seq<&'static str> {
    seq![
        " defends the RED flag",
        " defends the \u{d2}\u{c5}\u{c4} flag",
        " defends the BLUE flag",
        " defends the \u{c2}\u{cc}\u{d5}\u{c5} flag",
    ]
}

/// Flag defences.
pub fn defend_flag() -> (r: Vec<&'static str>)
    ensures
        r@ == spec_defend_flag(),
{
    let mut r: Vec<&'static str> = Vec::new();
    r.push(" defends the RED flag");
    r.push(" defends the \u{d2}\u{c5}\u{c4} flag");
    r.push(" defends the BLUE flag");
    r.push(" defends the \u{c2}\u{cc}\u{d5}\u{c5} flag");
    assert(r@ =~= spec_defend_flag());
    r
}

/// Defences of the flag carrier.
pub open spec fn spec_defend_carrier() -> Seq<&'static str> {
    seq![
        " defends RED's flag carrier",
        " defends \u{d2}\u{c5}\u{c4}'s flag carrier",
        " defends BLUE's flag carrier",
        " defends \u{c2}\u{cc}\u{d5}\u{c5}'s flag carrier",
    ]
}

/// Defences of the flag carrier.
pub fn defend_carrier() -> (r: Vec<&'static str>)
    ensures
        r@ == spec_defend_carrier(),
{
    let mut r: Vec<&'static str> = Vec::new();
    r.push(" defends RED's flag carrier");
    r.push(" defends \u{d2}\u{c5}\u{c4}'s flag carrier");
    r.push(" defends BLUE's flag carrier");
    r.push(" defends \u{c2}\u{cc}\u{d5}\u{c5}'s flag carrier");
    assert(r@ =~= spec_defend_carrier());
    r
}

/// Defences of the flag carrier against an aggressive enemy.
pub open spec fn spec_defend_carrier_vs_aggressive() -> Seq<&'static str> {
    seq![
        " defends RED's flag carrier against an aggressive enemy",
        " defends \u{d2}\u{c5}\u{c4}'s flag carrier against an aggressive enemy",
        " defends BLUE's flag carrier against an aggressive enemy",
        " defends \u{c2}\u{cc}\u{d5}\u{c5}'s flag carrier against an aggressive enemy",
    ]
}

/// Defences of the flag carrier against an aggressive enemy.
pub fn defend_carrier_vs_aggressive() -> (r: Vec<&'static str>)
    ensures
        r@ == spec_defend_carrier_vs_aggressive(),
{
    let mut r: Vec<&'static str> = Vec::new();
    r.push(" defends RED's flag carrier against an aggressive enemy");
    r.push(" defends \u{d2}\u{c5}\u{c4}'s flag carrier against an aggressive enemy");
    r.push(" defends BLUE's flag carrier against an aggressive enemy");
    r.push(" defends \u{c2}\u{cc}\u{d5}\u{c5}'s flag carrier against an aggressive enemy");
    assert(r@ =~= spec_defend_carrier_vs_aggressive());
    r
}

/// Flag pickups, in plain and high-charset spellings.
pub open spec fn spec_got_flag() -> Seq<&'static str> {
    seq![
        " got the RED flag!",
        " \u{e7}\u{ef}\u{f4} the \u{d2}\u{c5}\u{c4} flag!",
        " got the BLUE flag!",
        " \u{e7}\u{ef}\u{f4} the \u{c2}\u{cc}\u{d5}\u{c5} flag!",
    ]
}

/// Flag pickups, in plain and high-charset spellings.
pub fn got_flag() -> (r: Vec<&'static str>)
    ensures
        r@ == spec_got_flag(),
{
    let mut r: Vec<&'static str> = Vec::new();
    r.push(" got the RED flag!");
    r.push(" \u{e7}\u{ef}\u{f4} the \u{d2}\u{c5}\u{c4} flag!");
    r.push(" got the BLUE flag!");
    r.push(" \u{e7}\u{ef}\u{f4} the \u{c2}\u{cc}\u{d5}\u{c5} flag!");
    assert(r@ =~= spec_got_flag());
    r
}

/// Frags that name the killer first: a prefix, and where the name of the victim is followed by more text, the suffix that closes it.
pub open spec fn spec_x_frag_y() -> Seq<(&'static str, Option<&'static str>)> {
    seq![
        (" stomps ", None),
        (" squishes ", None),
        (" rips ", Some(" a new one")),
    ]
}

/// Frags that name the killer first: a prefix, and where the name of the victim is followed by more text, the suffix that closes it.
pub fn x_frag_y() -> (r: Vec<(&'static str, Option<&'static str>)>)
    ensures
        r@ == spec_x_frag_y(),
{
    let mut r: Vec<(&'static str, Option<&'static str>)> = Vec::new();
    r.push((" stomps ", None));
    r.push((" squishes ", None));
    r.push((" rips ", Some(" a new one")));
    assert(r@ =~= spec_x_frag_y());
    r
}

/// Frags that name the victim first, in the same form.
pub open spec fn spec_y_frag_x() -> Seq<(&'static str, Option<&'static str>)> {
    seq![
        (" was ax-murdered by ", None),
        (" softens ", Some("'s fall")),
        (" tried to catch ", None),
        (" was crushed by ", None),
        (" was jumped by ", None),
        (" chewed on ", Some("'s boomstick")),
        (" was body pierced by ", None),
        (" was nailed by ", None),
        (" was railed by ", None),
        (" was telefragged by ", None),
        (" accepts ", Some("'s discharge")),
        (" drains ", Some("'s batteries")),
        (" was lead poisoned by ", None),
        (" accepts ", Some("'s shaft")),
        (" ate 2 loads of ", Some("'s buckshot")),
        (" was perforated by ", None),
        (" was punctured by ", None),
        (" was ventilated by ", None),
        (" ate 8 loads of ", Some("'s buckshot")),
        (" gets a natural disaster from ", None),
        (" rides ", Some("'s rocket")),
        (" was gibbed by ", Some("'s rocket")),
        (" was straw-cuttered by ", None),
        (" eats ", Some("'s pineapple")),
        (" was gibbed by ", Some("'s grenade")),
        (" was brutalized by ", Some("'s quad rocket")),
        (" was smeared by ", Some("'s quad rocket")),
        (" was hooked by ", None),
    ]
}

/// Frags that name the victim first, in the same form.
pub fn y_frag_x() -> (r: Vec<(&'static str, Option<&'static str>)>)
    ensures
        r@ == spec_y_frag_x(),
{
    let mut r: Vec<(&'static str, Option<&'static str>)> = Vec::new();
    r.push((" was ax-murdered by ", None));
    r.push((" softens ", Some("'s fall")));
    r.push((" tried to catch ", None));
    r.push((" was crushed by ", None));
    r.push((" was jumped by ", None));
    r.push((" chewed on ", Some("'s boomstick")));
    r.push((" was body pierced by ", None));
    r.push((" was nailed by ", None));
    r.push((" was railed by ", None));
    r.push((" was telefragged by ", None));
    r.push((" accepts ", Some("'s discharge")));
    r.push((" drains ", Some("'s batteries")));
    r.push((" was lead poisoned by ", None));
    r.push((" accepts ", Some("'s shaft")));
    r.push((" ate 2 loads of ", Some("'s buckshot")));
    r.push((" was perforated by ", None));
    r.push((" was punctured by ", None));
    r.push((" was ventilated by ", None));
    r.push((" ate 8 loads of ", Some("'s buckshot")));
    r.push((" gets a natural disaster from ", None));
    r.push((" rides ", Some("'s rocket")));
    r.push((" was gibbed by ", Some("'s rocket")));
    r.push((" was straw-cuttered by ", None));
    r.push((" eats ", Some("'s pineapple")));
    r.push((" was gibbed by ", Some("'s grenade")));
    r.push((" was brutalized by ", Some("'s quad rocket")));
    r.push((" was smeared by ", Some("'s quad rocket")));
    r.push((" was hooked by ", None));
    assert(r@ =~= spec_y_frag_x());
    r
}

/// `s` ends with `p`.
pub open spec fn ends_with(s: Seq<char>, p: Seq<char>) -> bool {
    p.len() <= s.len() && s.subrange(s.len() - p.len(), s.len() as int) == p
}

/// Index of the first pattern, from the `k`-th on, that `s` ends with.
pub open spec fn first_suffix(s: Seq<char>, pats: Seq<&'static str>, k: int) -> Option<int>
    decreases pats.len() - k,
{
    if 0 <= k < pats.len() {
        if ends_with(s, pats[k]@) {
            Some(k)
        } else {
            first_suffix(s, pats, k + 1)
        }
    } else {
        None
    }
}

/// The text before the first pattern of `pats` that `s` ends with.
pub open spec fn suffix_name(s: Seq<char>, pats: Seq<&'static str>) -> Option<Seq<char>> {
    match first_suffix(s, pats, 0) {
        Some(k) => Some(s.subrange(0, s.len() - pats[k]@.len())),
        None => None,
    }
}

/// First position, from `k` on, where `p` occurs in `s`.
pub open spec fn find_from(s: Seq<char>, p: Seq<char>, k: int) -> Option<int>
    decreases s.len() + 1 - k,
{
    if 0 <= k && k + p.len() <= s.len() {
        if s.subrange(k, k + p.len()) == p {
            Some(k)
        } else {
            find_from(s, p, k + 1)
        }
    } else {
        None
    }
}

/// A position `find_from` gives lies where the pattern occurs.
pub proof fn lemma_find_from_bounds(s: Seq<char>, p: Seq<char>, k: int)
    ensures
        find_from(s, p, k) matches Some(i) ==> k <= i && i + p.len() <= s.len() && s.subrange(
            i,
            i + p.len(),
        ) == p,
    decreases s.len() + 1 - k,
{
    if 0 <= k && k + p.len() <= s.len() && s.subrange(k, k + p.len()) != p {
        lemma_find_from_bounds(s, p, k + 1);
    }
}

/// The view of an optional pattern.
pub open spec fn opt_view(p: Option<&'static str>) -> Option<Seq<char>> {
    match p {
        Some(t) => Some(t@),
        None => None,
    }
}

/// Splits `s` round the first `prefix`: the text before it, and the text after
/// it up to the first `suffix` that follows (or to the end where there is no
/// suffix).
pub open spec fn infix_split(s: Seq<char>, prefix: Seq<char>, suffix: Option<Seq<char>>) -> Option<
    (Seq<char>, Seq<char>),
> {
    match find_from(s, prefix, 0) {
        Some(i) => {
            let x = s.subrange(0, i);
            let rest = s.subrange(i + prefix.len(), s.len() as int);
            match suffix {
                None => Some((x, rest)),
                Some(sf) => match find_from(rest, sf, 0) {
                    Some(j) => Some((x, rest.subrange(0, j))),
                    None => None,
                },
            }
        },
        None => None,
    }
}

/// The split by the first template, from the `k`-th on, that matches `s`.
pub open spec fn first_infix(s: Seq<char>, pats: Seq<(&'static str, Option<&'static str>)>, k: int) -> Option<
    (Seq<char>, Seq<char>),
>
    decreases pats.len() - k,
{
    if 0 <= k < pats.len() {
        match infix_split(s, pats[k].0@, opt_view(pats[k].1)) {
            Some(xy) => Some(xy),
            None => first_infix(s, pats, k + 1),
        }
    } else {
        None
    }
}

/// The event a message describes: the first category, in a fixed order, with
/// a template that matches.
pub open spec fn spec_classify(s: Seq<char>) -> Option<EventView> {
    if suffix_name(s, spec_death()) is Some {
        Some(EventView::Death(suffix_name(s, spec_death())->0))
    } else if suffix_name(s, spec_suicide_by_weapon()) is Some {
        Some(EventView::SuicideByWeapon(suffix_name(s, spec_suicide_by_weapon())->0))
    } else if suffix_name(s, spec_suicide()) is Some {
        Some(EventView::Suicide(suffix_name(s, spec_suicide())->0))
    } else if suffix_name(s, spec_teamkill()) is Some {
        Some(EventView::Teamkill(suffix_name(s, spec_teamkill())->0))
    } else if suffix_name(s, spec_teamkill_by_unknown()) is Some {
        Some(EventView::TeamkillByUnknown(suffix_name(s, spec_teamkill_by_unknown())->0))
    } else if first_infix(s, spec_x_frag_y(), 0) is Some {
        let xy = first_infix(s, spec_x_frag_y(), 0)->0;
        Some(EventView::Frag(xy.0, xy.1))
    } else if first_infix(s, spec_y_frag_x(), 0) is Some {
        let xy = first_infix(s, spec_y_frag_x(), 0)->0;
        Some(EventView::Frag(xy.1, xy.0))
    } else if suffix_name(s, spec_capture()) is Some {
        Some(EventView::FlagAlert(suffix_name(s, spec_capture())->0, FlagEvent::Capture))
    } else if suffix_name(s, spec_return_assist()) is Some {
        Some(EventView::FlagAlert(suffix_name(s, spec_return_assist())->0, FlagEvent::ReturnFlagAssist))
    } else if suffix_name(s, spec_return_flag()) is Some {
        Some(EventView::FlagAlert(suffix_name(s, spec_return_flag())->0, FlagEvent::ReturnFlag))
    } else if suffix_name(s, spec_defend_flag()) is Some {
        Some(EventView::FlagAlert(suffix_name(s, spec_defend_flag())->0, FlagEvent::Defend))
    } else if suffix_name(s, spec_defend_carrier()) is Some {
        Some(EventView::FlagAlert(suffix_name(s, spec_defend_carrier())->0, FlagEvent::DefendCarrier))
    } else if suffix_name(s, spec_defend_carrier_vs_aggressive()) is Some {
        Some(
            EventView::FlagAlert(
                suffix_name(s, spec_defend_carrier_vs_aggressive())->0,
                FlagEvent::DefendCarrierVsAggressive,
            ),
        )
    } else if suffix_name(s, spec_got_flag()) is Some {
        Some(EventView::FlagAlert(suffix_name(s, spec_got_flag())->0, FlagEvent::GotFlag))
    } else {
        None
    }
}

/// The characters of a string, in order.
pub(crate) fn chars_of(s: &str) -> (r: Vec<char>)
    ensures
        r@ == s@,
{
    broadcast use vstd::string::group_string_axioms;

    let mut it = s.chars();
    let mut r: Vec<char> = Vec::new();
    loop
        invariant
            r@ + it.remaining() == s@,
            it.decrease() is Some,
        decreases it.decrease()->0,
    {
        match it.next() {
            Some(c) => {
                r.push(c);
            },
            None => {
                assert(r@ + it.remaining() =~= r@);
                return r;
            },
        }
    }
}

/// Relies on collecting characters into a `String` (`FromIterator<char>`):
/// the string of those characters.
#[verifier::external_body]
pub(crate) fn string_of(c: &[char]) -> (r: String)
    ensures
        r@ == c@,
{
    c.iter().collect()
}

/// Whether `p` occurs in `s` at position `k`.
fn matches_at(s: &[char], p: &[char], k: usize) -> (r: bool)
    requires
        k + p@.len() <= s@.len(),
    ensures
        r == (s@.subrange(k as int, k + p@.len()) == p@),
{
    let slen = s.len();
    let plen = p.len();
    let mut j: usize = 0;
    while j < plen
        invariant
            slen == s@.len(),
            plen == p@.len(),
            k + plen <= s@.len(),
            j <= plen,
            forall|m: int| 0 <= m < j ==> s@[k + m] == p@[m],
        decreases plen - j,
    {
        if s[k + j] != p[j] {
            assert(s@.subrange(k as int, k + p@.len())[j as int] != p@[j as int]);
            return false;
        }
        j = j + 1;
    }
    assert(s@.subrange(k as int, k + p@.len()) =~= p@);
    true
}

/// Whether `s` ends with `p`.
fn ends_with_chars(s: &[char], p: &[char]) -> (r: bool)
    ensures
        r == ends_with(s@, p@),
{
    let slen = s.len();
    let plen = p.len();
    if plen > slen {
        return false;
    }
    matches_at(s, p, slen - plen)
}

/// First position, from `k` on, where `p` occurs in `s`.
fn find_chars(s: &[char], p: &[char], k: usize) -> (r: Option<usize>)
    ensures
        match r {
            Some(i) => find_from(s@, p@, k as int) == Some(i as int),
            None => find_from(s@, p@, k as int) is None,
        },
{
    let slen = s.len();
    let plen = p.len();
    let mut i = k;
    while i <= slen && slen - i >= plen
        invariant
            slen == s@.len(),
            plen == p@.len(),
            k <= i,
            find_from(s@, p@, k as int) == find_from(s@, p@, i as int),
        decreases slen + 1 - i,
    {
        if matches_at(s, p, i) {
            return Some(i);
        }
        if i == slen {
            assert(find_from(s@, p@, i + 1) is None);
            assert(find_from(s@, p@, i as int) == find_from(s@, p@, i + 1));
            return None;
        }
        i = i + 1;
    }
    None
}

/// The text before the first pattern of `pats` that `s` ends with.
pub(crate) fn suffix_name_of(s: &[char], pats: &Vec<&'static str>) -> (r: Option<String>)
    ensures
        match suffix_name(s@, pats@) {
            Some(n) => r matches Some(t) && t@ == n,
            None => r is None,
        },
{
    let n = pats.len();
    let mut k: usize = 0;
    while k < n
        invariant
            n == pats@.len(),
            k <= n,
            first_suffix(s@, pats@, 0) == first_suffix(s@, pats@, k as int),
        decreases n - k,
    {
        let p = chars_of(pats[k]);
        if ends_with_chars(s, p.as_slice()) {
            let end = s.len() - p.len();
            return Some(string_of(&s[0..end]));
        }
        k = k + 1;
    }
    None
}

/// The split of `s` by the first template of `pats` that matches it.
fn infix_of(s: &[char], pats: &Vec<(&'static str, Option<&'static str>)>) -> (r: Option<(String, String)>)
    ensures
        match first_infix(s@, pats@, 0) {
            Some(xy) => r matches Some(t) && t.0@ == xy.0 && t.1@ == xy.1,
            None => r is None,
        },
{
    let n = pats.len();
    let mut k: usize = 0;
    while k < n
        invariant
            n == pats@.len(),
            k <= n,
            first_infix(s@, pats@, 0) == first_infix(s@, pats@, k as int),
        decreases n - k,
    {
        let (prefix, suffix) = pats[k];
        let pre = chars_of(prefix);
        if let Some(i) = find_chars(s, pre.as_slice(), 0) {
            proof {
                lemma_find_from_bounds(s@, pre@, 0);
            }
            let slen = s.len();
            let from = i + pre.len();
            let rest = &s[from..slen];
            match suffix {
                None => {
                    return Some((string_of(&s[0..i]), string_of(rest)));
                },
                Some(sf) => {
                    let suf = chars_of(sf);
                    if let Some(j) = find_chars(rest, suf.as_slice(), 0) {
                        proof {
                            lemma_find_from_bounds(rest@, suf@, 0);
                        }
                        return Some((string_of(&s[0..i]), string_of(&rest[0..j])));
                    }
                },
            }
        }
        k = k + 1;
    }
    None
}

impl Event {
    /// Classifies a console message: the first category, in a fixed order,
    /// with a template that matches; `UnknownMessage` where none does.
    pub fn try_from(value: &str) -> (r: Result<Event, Error>)
        ensures
            match spec_classify(value@) {
                Some(e) => r matches Ok(ev) && ev@ == e,
                None => r == Err::<Event, Error>(Error::UnknownMessage),
            },
    {
        let chars = chars_of(value);
        let s = chars.as_slice();
        if let Some(player) = suffix_name_of(s, &death()) {
            return Ok(Event::Death { player });
        }
        if let Some(player) = suffix_name_of(s, &suicide_by_weapon()) {
            return Ok(Event::SuicideByWeapon { player });
        }
        if let Some(player) = suffix_name_of(s, &suicide()) {
            return Ok(Event::Suicide { player });
        }
        if let Some(killer) = suffix_name_of(s, &teamkill()) {
            return Ok(Event::Teamkill { killer });
        }
        if let Some(victim) = suffix_name_of(s, &teamkill_by_unknown()) {
            return Ok(Event::TeamkillByUnknown { victim });
        }
        if let Some((killer, victim)) = infix_of(s, &x_frag_y()) {
            return Ok(Event::Frag { killer, victim });
        }
        if let Some((victim, killer)) = infix_of(s, &y_frag_x()) {
            return Ok(Event::Frag { killer, victim });
        }
        if let Some(player) = suffix_name_of(s, &capture()) {
            return Ok(Event::FlagAlert { player, event: FlagEvent::Capture });
        }
        if let Some(player) = suffix_name_of(s, &return_assist()) {
            return Ok(Event::FlagAlert { player, event: FlagEvent::ReturnFlagAssist });
        }
        if let Some(player) = suffix_name_of(s, &return_flag()) {
            return Ok(Event::FlagAlert { player, event: FlagEvent::ReturnFlag });
        }
        if let Some(player) = suffix_name_of(s, &defend_flag()) {
            return Ok(Event::FlagAlert { player, event: FlagEvent::Defend });
        }
        if let Some(player) = suffix_name_of(s, &defend_carrier()) {
            return Ok(Event::FlagAlert { player, event: FlagEvent::DefendCarrier });
        }
        if let Some(player) = suffix_name_of(s, &defend_carrier_vs_aggressive()) {
            return Ok(Event::FlagAlert { player, event: FlagEvent::DefendCarrierVsAggressive });
        }
        if let Some(player) = suffix_name_of(s, &got_flag()) {
            return Ok(Event::FlagAlert { player, event: FlagEvent::GotFlag });
        }
        Err(Error::UnknownMessage)
    }
}

/// A scoring event that is not a flag event.
#[derive(Clone, Debug, PartialEq, Eq)]
pub enum FragEvent {
    Death { player: String },
    Suicide { player: String },
    SuicideByWeapon { player: String },
    Frag { killer: String, victim: String },
    Teamkill { killer: String },
    TeamkillByUnknown { victim: String },
}

impl View for FragEvent {
    type V = EventView;

    open spec fn view(&self) -> EventView {
        match self {
            FragEvent::Death { player } => EventView::Death(player@),
            FragEvent::Suicide { player } => EventView::Suicide(player@),
            FragEvent::SuicideByWeapon { player } => EventView::SuicideByWeapon(player@),
            FragEvent::Frag { killer, victim } => EventView::Frag(killer@, victim@),
            FragEvent::Teamkill { killer } => EventView::Teamkill(killer@),
            FragEvent::TeamkillByUnknown { victim } => EventView::TeamkillByUnknown(victim@),
        }
    }
}

impl FragEvent {
    /// Classifies a console message as a frag event; `UnknownMessage` where it
    /// is unclassifiable or a flag event.
    pub fn try_from(value: &str) -> (r: Result<FragEvent, Error>)
        ensures
            match spec_classify(value@) {
                Some(EventView::FlagAlert(_, _)) => r == Err::<FragEvent, Error>(Error::UnknownMessage),
                Some(e) => r matches Ok(f) && f@ == e,
                None => r == Err::<FragEvent, Error>(Error::UnknownMessage),
            },
    {
        match Event::try_from(value)? {
            Event::Death { player } => Ok(FragEvent::Death { player }),
            Event::Suicide { player } => Ok(FragEvent::Suicide { player }),
            Event::SuicideByWeapon { player } => Ok(FragEvent::SuicideByWeapon { player }),
            Event::Frag { killer, victim } => Ok(FragEvent::Frag { killer, victim }),
            Event::Teamkill { killer } => Ok(FragEvent::Teamkill { killer }),
            Event::TeamkillByUnknown { victim } => Ok(FragEvent::TeamkillByUnknown { victim }),
            Event::FlagAlert { .. } => Err(Error::UnknownMessage),
        }
    }
}

/// An unknown-killer teamkill suffix wins over every frag template: where no
/// death, suicide or known-killer teamkill suffix ends a message and an
/// unknown-killer one does, the message is that teamkill, whatever frag
/// template (`was crushed by`, `was telefragged by`, ...) also occurs in it.
pub proof fn lemma_unknown_teamkill_precedes_frags(s: Seq<char>)
    requires
        suffix_name(s, spec_death()) is None,
        suffix_name(s, spec_suicide_by_weapon()) is None,
        suffix_name(s, spec_suicide()) is None,
        suffix_name(s, spec_teamkill()) is None,
        suffix_name(s, spec_teamkill_by_unknown()) is Some,
    ensures
        spec_classify(s) == Some(
            EventView::TeamkillByUnknown(suffix_name(s, spec_teamkill_by_unknown())->0),
        ),
{
}

} // verus!
