use vstd::prelude::*;

use crate::bytes::{offsets_between, spec_offsets_between};
use crate::client::opt_string_view;
use crate::error::Error;

verus! {

/// Bytes searched for the server info string.
pub const SEARCH_SIZE: usize = 1280;

/// The bytes that open the server info string: `fullserverinfo "`.
pub const SERVERINFO_PREFIX: [u8; 16] = [
    0x66, 0x75, 0x6C, 0x6C, 0x73, 0x65, 0x72, 0x76, 0x65, 0x72, 0x69, 0x6E, 0x66, 0x6F, 0x20, 0x22,
];

/// The byte that closes it: a double quote.
pub const SERVERINFO_SUFFIX: [u8; 1] = [0x22];

/// The readable character for one byte of the game's 8-bit text: the colour
/// bit is dropped, gold brackets and green digits become plain ones, and the
/// other symbols become a bullet or a space.
pub open spec fn quake_char(b: u8) -> char {
    let c = b % 128;
    if c == 16 {
        '['
    } else if c == 17 {
        ']'
    } else if 18 <= c <= 27 {
        ((c + 30) as u8) as char
    } else if 32 <= c <= 126 {
        (c as u8) as char
    } else if c == 0 || c == 5 || c == 14 || c == 15 || c == 28 {
        '\u{2022}'
    } else {
        ' '
    }
}

/// The game's 8-bit text as readable characters, one per byte.
pub open spec fn quake_utf8(bytes: Seq<u8>) -> Seq<char> {
    Seq::new(bytes.len(), |i: int| quake_char(bytes[i]))
}

/// Relies on `quake_text::bytestr::to_utf8`, which maps each byte as
/// `quake_char` states.
#[verifier::external_body]
fn to_utf8(bytes: &[u8]) -> (r: String)
    ensures
        r@ == quake_utf8(bytes@),
{
    quake_text::bytestr::to_utf8(bytes)
}

/// The server settings the library reads: game mode and demo file name.
pub type SettingsFields = (Option<String>, Option<String>);

/// What `quake_serverinfo::Settings::from` reads as mode and demo name.
pub uninterp spec fn settings_of(s: Seq<char>) -> (Option<Seq<char>>, Option<Seq<char>>);

/// Relies on `quake_serverinfo::Settings::from(&str)`, which parses a
/// `\key\value` info string; its `mode` and `serverdemo` fields are moved
/// out as they are.
#[verifier::external_body]
fn parse_settings(s: &str) -> (r: SettingsFields)
    ensures
        (opt_string_view(r.0), opt_string_view(r.1)) == settings_of(s@),
{
    let settings = quake_serverinfo::Settings::from(s);
    (settings.mode, settings.serverdemo)
}

/// The bytes searched for the server info string.
pub open spec fn search_area(data: Seq<u8>) -> Seq<u8> {
    if data.len() < SEARCH_SIZE {
        data
    } else {
        data.subrange(0, SEARCH_SIZE as int)
    }
}

/// The server info string near the start of the stream, as text.
pub open spec fn spec_serverinfo_string(data: Seq<u8>) -> Option<Seq<char>> {
    match spec_offsets_between(search_area(data), SERVERINFO_PREFIX@, SERVERINFO_SUFFIX@) {
        Some((from, to)) => Some(quake_utf8(data.subrange(from, to))),
        None => None,
    }
}

/// The match is a capture-the-flag match: the server's mode is `ctf`.
pub open spec fn spec_is_ctf(data: Seq<u8>) -> bool {
    match spec_serverinfo_string(data) {
        Some(s) => settings_of(s).0 == Some("ctf"@),
        None => false,
    }
}

/// The server info string near the start of the stream.
pub fn serverinfo_string(data: &[u8]) -> (r: Result<String, Error>)
    ensures
        match spec_serverinfo_string(data@) {
            Some(s) => r matches Ok(t) && t@ == s,
            None => r == Err::<String, Error>(Error::ServerinfoNotFound),
        },
{
    let len = data.len();
    let end = if len < SEARCH_SIZE {
        len
    } else {
        SEARCH_SIZE
    };
    let area = &data[0..end];
    assert(area@ == search_area(data@));
    let prefix = SERVERINFO_PREFIX;
    let suffix = SERVERINFO_SUFFIX;
    match offsets_between(area, prefix.as_slice(), suffix.as_slice()) {
        Some((from, to)) => {
            assert(area@.subrange(from as int, to as int) == data@.subrange(from as int, to as int));
            Ok(to_utf8(&area[from..to]))
        },
        None => Err(Error::ServerinfoNotFound),
    }
}

/// The game mode the server info names, where it names one.
pub fn serverinfo_mode(data: &[u8]) -> (r: Option<String>)
    ensures
        match spec_serverinfo_string(data@) {
            Some(s) => opt_string_view(r) == settings_of(s).0,
            None => r is None,
        },
{
    match serverinfo_string(data) {
        Ok(s) => {
            let (mode, _) = parse_settings(s.as_str());
            mode
        },
        Err(_) => None,
    }
}

/// Whether the match is a capture-the-flag match.
pub fn is_ctf(data: &[u8]) -> (r: bool)
    ensures
        r == spec_is_ctf(data@),
{
    match serverinfo_string(data) {
        Ok(s) => {
            let (mode, _) = parse_settings(s.as_str());
            match mode {
                Some(m) => m == "ctf".to_owned(),
                None => false,
            }
        },
        Err(_) => false,
    }
}

/// The demo file name the server recorded.
pub fn filename(data: &[u8]) -> (r: Result<String, Error>)
    ensures
        match spec_serverinfo_string(data@) {
            Some(s) => match settings_of(s).1 {
                Some(name) => r matches Ok(t) && t@ == name,
                None => r == Err::<String, Error>(Error::FilenameNotFound),
            },
            None => r == Err::<String, Error>(Error::ServerinfoNotFound),
        },
{
    let s = serverinfo_string(data)?;
    let (_, demo) = parse_settings(s.as_str());
    match demo {
        Some(name) => Ok(name),
        None => Err(Error::FilenameNotFound),
    }
}

} // verus!
