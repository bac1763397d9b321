use mvdparser::bytes::offsets_between;
use mvdparser::ktxstats::{ktxstats_frags, ktxstats_string, ktxstats_v3};
use mvdparser::pings::{frame_pings, pings};
use mvdparser::reader::UpdatePing;
use mvdparser::validate::{has_end_of_demo_print, is_aborted, is_paused, is_valid, matchdate_string};

/// A frame with a read command (tag 1) and the given body.
fn frame(body: &[u8]) -> Vec<u8> {
    let mut f = vec![0u8, 1];
    f.extend_from_slice(&(body.len() as u32).to_le_bytes());
    f.extend_from_slice(body);
    f
}

/// A frame with multiple targets carrying one demo-info block.
fn block_frame(number: u16, body: &[u8]) -> Vec<u8> {
    let mut f = vec![0u8, 3, 0, 0, 0, 0];
    f.extend_from_slice(&((body.len() + 8) as u32).to_le_bytes());
    f.extend_from_slice(&((body.len() + 2) as u32).to_le_bytes());
    f.extend_from_slice(&3u16.to_le_bytes());
    f.extend_from_slice(&number.to_le_bytes());
    f.extend_from_slice(body);
    f
}

fn ping_record(slot: u8, ping: u16) -> Vec<u8> {
    let p = ping.to_le_bytes();
    vec![36, slot, p[0], p[1], 53, slot, 0]
}

#[test]
fn test_offsets_between() {
    let data = b"{'foo': 'bar', 'duration': 600, 'map': 'dm2'}";

    {
        let (from, to) = offsets_between(data, br#"'duration': "#, b",").unwrap();
        assert_eq!((from, to), (27, 30));
        assert_eq!(std::str::from_utf8(&data[from..to]).unwrap(), "600");
    }
    assert_eq!(offsets_between(data, b"", b","), Some((0, 13)));

    assert_eq!(offsets_between(data, br#"'map': "#, b","), None);
    assert_eq!(offsets_between(data, br#"'FOO': "#, b","), None);
    assert_eq!(offsets_between(data, br#"'duration': "#, b""), None);
}

#[test]
fn block_chain_is_joined_up_to_block_zero() {
    let mut data: Vec<u8> = frame(&[1, 2, 3]);
    data.extend(block_frame(2, b"{\"version\": 3, "));
    data.extend(block_frame(1, b"\"map\": \"dm2\""));
    data.extend(block_frame(0, b"}"));
    data.extend(block_frame(5, b" and more"));
    assert_eq!(
        ktxstats_string(&data).unwrap(),
        "{\"version\": 3, \"map\": \"dm2\"}".to_string()
    );
}

#[test]
fn statistics_document_decodes() {
    let doc = "{\"version\": 3, \"hostname\": \"qw\", \"players\": [{\"name\": \"Alpha\", \"stats\": {\"frags\": 7}}]}";
    let mut data: Vec<u8> = frame(&[1, 2, 3]);
    data.extend(block_frame(0, doc.as_bytes()));
    let stats = ktxstats_v3(&data).unwrap();
    assert_eq!(stats.hostname, "qw");
    assert_eq!(ktxstats_frags(doc), Some(vec![("Alpha".to_string(), 7)]));
    assert_eq!(ktxstats_frags("not json"), None);
    assert_eq!(mvdparser::frags::frags(&data).unwrap(), vec![("Alpha".to_string(), 7)]);
}

#[test]
fn block_chain_absent_or_broken() {
    assert_eq!(
        ktxstats_string(&frame(&[1, 2, 3])).unwrap_err().to_string(),
        "ktxstats not found"
    );
    let mut data: Vec<u8> = frame(&[1, 2, 3]);
    data.extend(block_frame(0, b"{\"version\": \xFF}"));
    assert_eq!(ktxstats_string(&data).unwrap_err().to_string(), "invalid utf-8");

    // the chain breaks off before its block numbered zero
    let mut cut: Vec<u8> = frame(&[1, 2, 3]);
    cut.extend(block_frame(1, b"{\"version\": 3"));
    cut.extend(frame(&[9]));
    assert_eq!(ktxstats_string(&cut).unwrap_err().to_string(), "ktxstats not found");

    // a block whose declared body runs past the end
    let mut over: Vec<u8> = frame(&[1, 2, 3]);
    over.extend(block_frame(0, b"{\"version\": 3}"));
    over.truncate(over.len() - 2);
    assert_eq!(ktxstats_string(&over).unwrap_err().to_string(), "ktxstats not found");
}

#[test]
fn pings_without_updates() {
    let demo_data: [u8; 10] = [0, 1, 2, 3, 4, 5, 6, 7, 8, 9];
    let err = pings(&demo_data).unwrap_err();
    assert_eq!(err.to_string(), "Unable to read pings".to_string());
}

#[test]
fn ping_mean_is_rounded_down() {
    let mut body = ping_record(0, 10);
    body.extend(ping_record(1, 100));
    let mut data = frame(&body);
    let mut second = ping_record(0, 13);
    second.extend(ping_record(1, 100));
    data.extend(frame(&second));
    let m = pings(&data).unwrap();
    assert_eq!(m.len(), 2);
    assert_eq!(m.get(&0), Some(&11));
    assert_eq!(m.get(&1), Some(&100));
}

#[test]
fn ping_sampling_stops_after_eight_frames() {
    let mut data: Vec<u8> = Vec::new();
    for _ in 0..8 {
        data.extend(frame(&ping_record(2, 20)));
        data.extend(frame(&[9, 0]));
    }
    data.extend(frame(&ping_record(2, 1000)));
    data.extend(frame(&ping_record(3, 50)));
    let m = pings(&data).unwrap();
    assert_eq!(m.get(&2), Some(&20));
    assert_eq!(m.get(&3), None);
}

#[test]
fn frame_pings_reads_the_leading_updates() {
    let mut body = ping_record(4, 513);
    body.extend(ping_record(5, 7));
    body.push(9);
    body.extend(ping_record(6, 1));
    assert_eq!(
        frame_pings(&body),
        vec![
            UpdatePing { player_number: 4, ping: 513 },
            UpdatePing { player_number: 5, ping: 7 },
        ]
    );
}

#[test]
fn decoding_twice_gives_the_same_maps() {
    let mut data = frame(&ping_record(0, 10));
    data.extend(frame(&ping_record(1, 30)));
    assert_eq!(pings(&data).unwrap(), pings(&data).unwrap());
}

#[test]
fn aborted_and_paused() {
    let stopped: [u8; 34] = [
        0x08, 0x02, 0xCD, 0xE1, 0xF4, 0xE3, 0xE8, 0x20, 0xF3, 0xF4, 0xEF, 0xF0, 0xF0, 0xE5, 0xE4,
        0x20, 0xE2, 0xF9, 0x20, 0xED, 0xE1, 0xEA, 0xEF, 0xF2, 0xE9, 0xF4, 0xF9, 0x20, 0xF6, 0xEF,
        0xF4, 0xE5, 0x0A, 0x00,
    ];
    let mut data = b"xx".to_vec();
    data.extend_from_slice(&stopped);
    assert!(is_aborted(&data));
    assert!(!is_aborted(b"Match stopped"));

    let end: &[u8] = &[0x00, 0x02, 0x45, 0x6E, 0x64, 0x4F, 0x66, 0x44, 0x65, 0x6D, 0x6F, 0x00];
    let mut paused = b"..Server is paused..".to_vec();
    assert!(is_paused(&paused));
    assert!(is_paused(b"FOO paused the game"));
    assert!(!is_paused(b"nothing here"));
    paused.extend_from_slice(end);
    assert!(has_end_of_demo_print(&paused));
    assert!(!is_paused(&paused));
    assert!(!has_end_of_demo_print(end));
    assert!(!is_valid(&paused));
}

#[test]
fn matchdate_string_cases() {
    assert_eq!(
        matchdate_string(b"").unwrap_err().to_string(),
        "Matchdate not found".to_string()
    );
    assert_eq!(
        matchdate_string(b"foo").unwrap_err().to_string(),
        "Matchdate not found".to_string()
    );
    assert_eq!(
        matchdate_string(b"\x08\x02matchdate: foo").unwrap_err().to_string(),
        "Invalid matchdate".to_string()
    );
    assert_eq!(
        matchdate_string(b"\x08\x02matchdate: 2024-04-02 21:02:17\n")
            .unwrap_err()
            .to_string(),
        "Invalid matchdate".to_string()
    );
    assert_eq!(
        matchdate_string(b"\x08\x02matchdate: 2024-04-02 21:02:17 FOOBAR\n")
            .unwrap_err()
            .to_string(),
        "Invalid matchdate".to_string()
    );
    assert_eq!(
        matchdate_string(b"\x08\x02matchdate: 2024-04-02 21:02:17 CEST\n").unwrap(),
        "2024-04-02 21:02:17 CEST".to_string()
    );
}

#[test]
fn undecodable_document_is_reported() {
    let mut data: Vec<u8> = frame(&[1, 2, 3]);
    data.extend(block_frame(0, b"{\"version\": [}"));
    assert_eq!(ktxstats_v3(&data).unwrap_err().to_string(), "Invalid ktxstats");
}

#[test]
fn empty_buffer() {
    let data: &[u8] = &[];
    assert_eq!(pings(data).unwrap_err().to_string(), "Unable to read pings");
    assert_eq!(ktxstats_string(data).unwrap_err().to_string(), "ktxstats not found");
    assert_eq!(
        mvdparser::frags::frags(data).unwrap_err().to_string(),
        "Unable to find clientinfo strings"
    );
    assert!(mvdparser::frags::prints(data).is_empty());
    assert!(!is_valid(data));
    assert!(!is_paused(data));
}
