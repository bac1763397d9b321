use mvdparser::client::{
    clients, has_bot_players, has_human_players, player_clients, player_names, spectator_clients,
    spectator_names, team_names,
};
use mvdparser::clientinfo::clientinfo_strings;
use mvdparser::ctf::CtfPoints;
use mvdparser::flags::{flag_events_per_player_name, PlayerFlagEvents};
use mvdparser::frags::{find_team_killer, frag_tally, frags, frags_from_parsing, teamkill_slots_from};
use mvdparser::serverinfo::{filename, is_ctf, serverinfo_string};

fn frame(body: &[u8]) -> Vec<u8> {
    let mut f = vec![0u8, 1];
    f.extend_from_slice(&(body.len() as u32).to_le_bytes());
    f.extend_from_slice(body);
    f
}

fn print(id: u8, text: &str) -> Vec<u8> {
    let mut p = vec![8u8, id];
    p.extend_from_slice(text.as_bytes());
    p.push(0);
    p
}

/// A frame whose body starts with a stuffed command and holds the client info strings.
fn roster_frame() -> Vec<u8> {
    let mut body: Vec<u8> = vec![9];
    body.extend_from_slice(b"\tcmd spawn\x00");
    body.extend_from_slice(b"\\team\\red\\topcolor\\4\\bottomcolor\\4\\name\\Alpha\x00");
    body.extend_from_slice(b"\\team\\red\\*bot\\1\\name\\Beta\x00");
    body.extend_from_slice(b"\\team\\blue\\name\\Gamma\x00");
    body.extend_from_slice(b"\\*spectator\\1\\team\\lqwc\\name\\[ServeMe]\x00");
    frame(&body)
}

fn match_stream() -> Vec<u8> {
    let mut data = roster_frame();
    data.extend(frame(&print(1, "Alpha stomps Gamma\n")));
    data.extend(frame(&print(1, "Beta was crushed by his teammate\n")));
    data.extend(frame(&[14, 0, 1, 0]));
    data.extend(frame(&print(1, "Gamma suicides\n")));
    data.extend(frame(&print(2, "Gamma died\n")));
    data
}

fn score(t: &[(String, i32)], name: &str) -> Option<i32> {
    t.iter().find(|(n, _)| n == name).map(|(_, s)| *s)
}

#[test]
fn roster_from_info_strings() {
    let data = match_stream();
    let strings = clientinfo_strings(&data).unwrap();
    assert_eq!(strings.len(), 4);
    assert_eq!(strings[1], "\\team\\red\\*bot\\1\\name\\Beta");
    let cs = clients(&data).unwrap();
    assert_eq!(cs.len(), 4);
    assert_eq!(cs[0].name, "Alpha");
    assert_eq!(cs[0].color, [4, 4]);
    assert_eq!(cs[2].number, 2);
    assert!(cs[3].is_spectator);
    assert_eq!(player_clients(&data).unwrap().len(), 3);
    assert_eq!(spectator_clients(&data).unwrap()[0].name, "[ServeMe]");
    assert!(has_bot_players(&data).unwrap());
    assert!(has_human_players(&data).unwrap());
    assert_eq!(player_names(&data).unwrap(), vec!["Alpha", "Beta", "Gamma"]);
    assert_eq!(spectator_names(&data).unwrap(), vec!["[ServeMe]"]);
    assert_eq!(team_names(&data).unwrap(), vec!["blue", "red"]);
    assert_eq!(
        clients(&frame(&[1, 2])).unwrap_err().to_string(),
        "Unable to find clientinfo strings"
    );
}

#[test]
fn teamkill_by_unknown_is_resolved_from_frag_updates() {
    let data = match_stream();
    let cs = clients(&data).unwrap();
    let at = roster_frame().len() + frame(&print(1, "Alpha stomps Gamma\n")).len();
    let slots = teamkill_slots_from(&data, at);
    assert_eq!(slots, vec![0]);
    assert_eq!(find_team_killer(&cs, &slots, &"Beta".to_string()), Some("Alpha".to_string()));
    // no other player of the vict.s team among the slots
    assert_eq!(find_team_killer(&cs, &vec![0, 1, 2], &"Gamma".to_string()), None);
    assert_eq!(find_team_killer(&cs, &vec![], &"Beta".to_string()), None);
}

#[test]
fn frag_tally_applies_each_event() {
    let data = match_stream();
    let cs = clients(&data).unwrap();
    let t = frag_tally(&data, &cs);
    assert_eq!(t.len(), 3);
    assert_eq!(score(&t, "Alpha"), Some(0));
    assert_eq!(score(&t, "Beta"), Some(0));
    assert_eq!(score(&t, "Gamma"), Some(-2));
    let f = frags(&data).unwrap();
    assert_eq!(f, frags_from_parsing(&data).unwrap());
    assert_eq!(f, frags(&data).unwrap());
}

#[test]
fn test_ctf_points() {
    // defends 2 points each, carrier frags 2, returns 1
    assert_eq!(
        CtfPoints::from(&PlayerFlagEvents {
            defends: 3,
            carrier_frags: 2,
            returns: 2,
            ..Default::default()
        }),
        CtfPoints {
            player: 12,
            team: 0,
        }
    );
    assert_eq!(
        CtfPoints::from(&PlayerFlagEvents {
            captures: 1,
            ..Default::default()
        }),
        CtfPoints {
            player: 15,
            team: 10,
        }
    );
}

#[test]
fn flag_messages_are_joined_and_counted() {
    let mut body = print(2, "Alpha");
    body.extend(print(2, " \u{f2}\u{e5}\u{f4}\u{f5}\u{f2}\u{ee}\u{e5}\u{e4} the \u{d2}\u{c5}\u{c4} flag!\n"));
    body.extend(print(2, "Gamma defends the BLUE flag\n"));
    // the halves arrive as 8-bit text; write them byte for byte
    let mut raw: Vec<u8> = Vec::new();
    for b in body.iter() {
        raw.push(*b);
    }
    let latin1: Vec<u8> = String::from_utf8(raw)
        .unwrap()
        .chars()
        .map(|c| c as u32 as u8)
        .collect();
    let data = frame(&latin1);
    let ev = flag_events_per_player_name(&data);
    assert_eq!(ev.len(), 2);
    assert_eq!(ev[0].0, "Alpha");
    assert_eq!(ev[0].1.returns, 1);
    assert_eq!(ev[1].0, "Gamma");
    assert_eq!(ev[1].1.defends, 1);
}

#[test]
fn server_info_and_file_name() {
    let mut data = b"..fullserverinfo \"\\mode\\ctf\\serverdemo\\x.mvd\"..".to_vec();
    data.extend_from_slice(&[0u8; 4]);
    assert_eq!(serverinfo_string(&data).unwrap(), "\\mode\\ctf\\serverdemo\\x.mvd");
    assert!(is_ctf(&data));
    assert_eq!(filename(&data).unwrap(), "x.mvd");
    assert!(!is_ctf(b"nothing"));
    // colour bit dropped, green digits made plain, other symbols a bullet or a space
    let coloured: &[u8] = b"fullserverinfo \"\xE1\x12\x91\x05\x7F\"";
    assert_eq!(serverinfo_string(coloured).unwrap(), "a0]\u{2022} ");
    assert_eq!(
        filename(b"fullserverinfo \"\\mode\\ffa\"").unwrap_err().to_string(),
        "Filename not found"
    );
    assert_eq!(filename(b"nothing").unwrap_err().to_string(), "Serverinfo not found");
}
