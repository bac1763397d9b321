use mvdparser::num::{long, short};
use mvdparser::print::Print;
use mvdparser::qw::{Message, PrintId};
use mvdparser::reader::{self, Cursor, UpdateFrags, UpdatePing};

#[test]
fn test_read_byte() {
    let data: &[u8] = &[8];
    let mut buf = Cursor::new(data);
    assert_eq!(buf.read_byte().unwrap(), 8);
}

#[test]
fn test_read_u16() {
    let data: &[u8] = &[1, 2];
    let mut buf = Cursor::new(data);
    assert_eq!(buf.read_u16().unwrap(), 513);
}

#[test]
fn test_read_u32() {
    let data: &[u8] = &[1, 2, 3, 1];
    let mut buf = Cursor::new(data);
    assert_eq!(buf.read_u32().unwrap(), 16974337);
}

#[test]
fn test_read_bstring() {
    let data: &[u8] = &[1, 2, 3, 10, 0];
    let mut buf = Cursor::new(data);
    assert_eq!(buf.read_bstring().unwrap(), vec![1, 2, 3, 10]);
}

#[test]
fn test_update_ping() {
    let bytes: &[u8] = &[4, 1, 2, 0];
    assert_eq!(
        UpdatePing::try_from(bytes).unwrap(),
        UpdatePing {
            player_number: 4,
            ping: 513,
        }
    );
}

#[test]
fn test_update_frags() {
    let bytes: &[u8] = &[9, 23, 1];
    assert_eq!(
        UpdateFrags::try_from(bytes).unwrap(),
        UpdateFrags {
            player_number: 9,
            frags: 279,
        }
    );
}

#[test]
fn print_test_try_from() {
    // invalid length
    {
        let data: &[u8] = &[1, 0];
        assert_eq!(
            Print::try_from(data).unwrap_err().to_string(),
            "Insufficient length".to_string()
        );
    }

    // missing null terminator
    {
        let data: &[u8] = &[1, 2, 3, 4, 5];
        assert_eq!(
            Print::try_from(data).unwrap_err().to_string(),
            "Missing null terminator".to_string()
        );
    }

    // valid
    {
        let data: &[u8] = &[1, 2, 3, 4, 10, 0];
        assert_eq!(
            Print::try_from(data).unwrap(),
            Print {
                id: PrintId::Medium,
                content: vec![2, 3, 4],
            }
        );
    }
}

#[test]
fn raw_print_test_try_from() {
    // missing null terminator
    {
        let data: &[u8] = &[1, 2, 3, 4, 5, 10];
        assert_eq!(
            reader::Print::try_from(data).unwrap_err().to_string(),
            "failed to read string".to_string()
        );
    }

    // valid
    {
        let data: &[u8] = &[1, 2, 3, 4, 10, 0];
        let print = reader::Print {
            id: PrintId::Medium,
            content: vec![2, 3, 4],
            trailing_newline: true,
        };
        assert_eq!(reader::Print::try_from(data).unwrap(), print);
        assert_eq!(print.byte_size(), 6);
        let plain = reader::Print::try_from(&[2u8, 7, 0][..]).unwrap();
        assert_eq!(plain.content, vec![7]);
        assert!(!plain.trailing_newline);
        assert_eq!(plain.byte_size(), 3);
    }
}

#[test]
fn print_keeps_text_without_trailing_newline() {
    let data: &[u8] = &[0, b'h', b'i', 0];
    assert_eq!(
        Print::try_from(data).unwrap(),
        Print {
            id: PrintId::Low,
            content: vec![b'h', b'i'],
        }
    );
}

#[test]
fn short_reads_fail() {
    let data: &[u8] = &[];
    let mut c = Cursor::new(data);
    assert_eq!(c.read_byte().unwrap_err().to_string(), "failed to read byte");
    assert_eq!(c.read_u16().unwrap_err().to_string(), "failed to read short");
    assert_eq!(c.read_u32().unwrap_err().to_string(), "failed to read long");
    assert!(UpdatePing::try_from(&[1u8, 2, 3][..]).is_err());
    assert!(UpdateFrags::try_from(&[1u8, 2][..]).is_err());
}

#[test]
fn message_tags_decode() {
    let data: &[u8] = &[8, 14, 36, 53, 200];
    let mut c = Cursor::new(data);
    assert_eq!(c.read_message_type().unwrap(), Message::Print);
    assert_eq!(c.read_message_type().unwrap(), Message::UpdateFrags);
    assert_eq!(c.read_message_type().unwrap(), Message::UpdatePing);
    assert_eq!(c.read_message_type().unwrap(), Message::UpdatePl);
    assert_eq!(c.read_message_type().unwrap(), Message::Unknown);
}

#[test]
fn little_endian_numbers() {
    assert_eq!(long(&[1, 2, 3, 1]), 16974337);
    assert_eq!(short(&[1, 2]), 513);
}
