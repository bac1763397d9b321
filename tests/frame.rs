use mvdparser::block;
use mvdparser::frame::Info;
use mvdparser::qw::{Command, HiddenMessage, Target};

#[test]
fn read_frame_header_and_body() {
    // duration 7, tag 6 (all, read), size 3, body
    let data: &[u8] = &[9, 9, 7, 6, 3, 0, 0, 0, 1, 2, 3];
    let info = Info::from_data_and_index(data, 2).unwrap();
    assert_eq!(info.duration, 7);
    assert_eq!(info.target, Target::All);
    assert_eq!(info.command, Command::Read);
    assert_eq!(info.header_size, 6);
    assert_eq!(info.body_size, 3);
    assert_eq!(info.size, 9);
    assert_eq!(info.header_range, 2..8);
    assert_eq!(info.body_range, 8..11);
}

#[test]
fn multiple_target_skips_four_bytes() {
    // tag 3: multiple targets; four skipped bytes hold junk that must not be read as the size
    let data: &[u8] = &[0, 3, 0xFF, 0xFF, 0xFF, 0xFF, 2, 0, 0, 0, 5, 6];
    let info = Info::from_data_and_index(data, 0).unwrap();
    assert_eq!(info.target, Target::Multiple);
    assert_eq!(info.header_size, 10);
    assert_eq!(info.body_size, 2);
    assert_eq!(info.size, 12);
}

#[test]
fn set_command_body_is_eight_bytes() {
    let mut data: Vec<u8> = vec![0, 2, 0xFF, 0xFF, 0xFF, 0xFF];
    data.extend_from_slice(&[0; 4]);
    let info = Info::from_data_and_index(&data, 0).unwrap();
    assert_eq!(info.command, Command::SetFixed);
    assert_eq!(info.header_size, 2);
    assert_eq!(info.body_size, 8);
}

#[test]
fn frame_header_errors() {
    // a declared body that runs past the end of the buffer
    let data: &[u8] = &[0, 1, 200, 0, 0, 0, 1, 2];
    assert_eq!(
        Info::from_data_and_index(data, 0).unwrap_err().to_string(),
        "Frame is smaller than expected size".to_string()
    );
    assert!(Info::from_data_and_index(data, 7).is_err());
    assert!(Info::from_data_and_index(data, 100).is_err());
}

#[test]
fn walk_stops_inside_the_buffer() {
    let data: &[u8] = &[0, 7, 0, 7, 0, 1, 1, 0, 0, 0, 9, 0, 1];
    let mut index = 0;
    let mut consumed = 0;
    while let Ok(info) = Info::from_data_and_index(data, index) {
        consumed += info.size;
        index += info.size;
    }
    assert_eq!(index, 11);
    assert_eq!(consumed, index);
    assert!(index <= data.len());
}

#[test]
fn block_header_fields() {
    let data: &[u8] = &[
        0x96, 0x1F, 0, 0, 0x03, 0x00, 0x01, 0x00, // declared 8086: body 8084, block 1
        0xA3, 0x1A, 0, 0, 0x03, 0x00, 0x00, 0x00, // declared 6819: body 6817, block 0
    ];
    assert_eq!(
        block::Info::try_from(&data[0..]).unwrap(),
        block::Info {
            body_size: 8084,
            total_size: 8092,
            hidden_message: HiddenMessage::Demoinfo,
            number: 1,
        }
    );
    assert_eq!(
        block::Info::try_from(&data[8..]).unwrap(),
        block::Info {
            body_size: 6817,
            total_size: 6825,
            hidden_message: HiddenMessage::Demoinfo,
            number: 0,
        }
    );
    assert!(block::Info::try_from(&data[0..7]).is_err());
    assert!(block::Info::try_from(&[1u8, 0, 0, 0, 3, 0, 0, 0][..]).is_err());
}
