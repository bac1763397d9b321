use mvdparser::frags::prints;
use mvdparser::qw::PrintId;
use mvdparser::reader::Print;
use mvdparser::timezone::{replace_tz_abbr_with_offset, utc_offset};
use mvdparser::timing::{countdown_ms, demo_ms, duration_until_offset, match_ms_from_seeking};

fn frame(duration: u8, body: &[u8]) -> Vec<u8> {
    let mut f = vec![duration, 1];
    f.extend_from_slice(&(body.len() as u32).to_le_bytes());
    f.extend_from_slice(body);
    f
}

#[test]
fn test_utc_offset() {
    // invalid
    assert_eq!(utc_offset("FOO"), None);
    assert_eq!(utc_offset("+FOO"), None);
    assert_eq!(utc_offset("+1205"), None);
    assert_eq!(utc_offset("-1205"), None);

    // valid abbreviation
    assert_eq!(utc_offset("CEST"), Some("+02:00".to_string()));
    assert_eq!(utc_offset("UTC"), Some("+00:00".to_string()));

    // valid number
    assert_eq!(utc_offset("+01"), Some("+01:00".to_string()));
    assert_eq!(utc_offset("+01:00"), Some("+01:00".to_string()));
    assert_eq!(utc_offset("+0100"), Some("+01:00".to_string()));
    assert_eq!(utc_offset("-0145"), Some("-01:45".to_string()));
}

#[test]
fn test_replace_tz_abbr_with_offset() {
    assert_eq!(
        replace_tz_abbr_with_offset("2024-04-02 21:02:17 CEST").unwrap(),
        "2024-04-02 21:02:17+02:00".to_string()
    );
    assert_eq!(
        replace_tz_abbr_with_offset("2024-04-02 21:02:17 GMT").unwrap(),
        "2024-04-02 21:02:17+00:00".to_string()
    );
    assert_eq!(
        replace_tz_abbr_with_offset("2024-04-02 21:02:17 UTC").unwrap(),
        "2024-04-02 21:02:17+00:00".to_string()
    );
    assert_eq!(
        replace_tz_abbr_with_offset("2024-04-02 21:02:17 -01").unwrap(),
        "2024-04-02 21:02:17-01:00".to_string()
    );
    assert_eq!(
        replace_tz_abbr_with_offset("2024-04-02 21:02:17 +0200").unwrap(),
        "2024-04-02 21:02:17+02:00".to_string()
    );
    assert_eq!(
        replace_tz_abbr_with_offset("2024-04-02 21:02:17 XYZW").unwrap_err().to_string(),
        "Invalid timezone abbreviation"
    );
    assert!(replace_tz_abbr_with_offset("2024").is_err());
}

#[test]
fn prints_drop_repeats() {
    let mut body = vec![8u8, 2];
    body.extend_from_slice(b"hello\n\x00");
    body.extend_from_slice(&[8, 2]);
    body.extend_from_slice(b"hello\n\x00");
    body.extend_from_slice(&[8, 3, 0]);
    let mut data = frame(0, &body);
    let mut other = vec![8u8, 1];
    other.extend_from_slice(b"bye\x00");
    data.extend(frame(0, &other));
    data.extend(frame(0, &[9, 8, 1, b'x', 0]));
    assert_eq!(
        prints(&data),
        vec![
            Print {
                id: PrintId::High,
                content: b"hello".to_vec(),
                trailing_newline: true,
            },
            Print {
                id: PrintId::Medium,
                content: b"bye".to_vec(),
                trailing_newline: false,
            },
        ]
    );
}

#[test]
fn frame_durations_are_summed_up_to_an_offset() {
    let mut data = frame(10, &[9]);
    data.extend(frame(20, &[9]));
    let mut matchdate = vec![8u8, 2];
    matchdate.extend_from_slice(b"matchdate: 2024-04-02 21:02:17 CEST\n\x00");
    let at = data.len();
    data.extend(frame(30, &matchdate));
    data.extend(frame(40, b"The match is over"));
    data.extend(frame(50, &[9]));
    assert_eq!(duration_until_offset(&data, 0), 0);
    assert_eq!(duration_until_offset(&data, at), 30);
    assert_eq!(countdown_ms(&data).unwrap(), 60);
    assert_eq!(demo_ms(&data), 100);
    assert_eq!(match_ms_from_seeking(&data).unwrap(), 40);
    assert_eq!(
        countdown_ms(&frame(1, &[9])).unwrap_err().to_string(),
        "Countdown not found"
    );
}

#[test]
fn countdown_after_match_end_is_invalid() {
    let mut data = frame(10, b"The match is over");
    let mut matchdate = vec![8u8, 2];
    matchdate.extend_from_slice(b"matchdate: 2024-04-02 21:02:17 CEST\n\x00");
    data.extend(frame(20, &matchdate));
    assert_eq!(
        match_ms_from_seeking(&data).unwrap_err().to_string(),
        "Countdown ends after the match"
    );
}
