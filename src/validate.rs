use vstd::prelude::*;
use vstd::utf8::{decode_utf8, valid_utf8};

use crate::bytes::{
    copy_range, find, find_byte, first_byte, first_occurrence, is_first_byte,
    lemma_byte_positions, lemma_first_occurrence, lemma_no_occurrence, occurs, rfind,
};
use crate::clientinfo::{clientinfo_strings, spec_clientinfo_strings};
use crate::error::Error;
use crate::ktxstats::utf8_string;
use crate::serverinfo::{serverinfo_string, spec_serverinfo_string};

verus! {

/// The print `Match stopped by majority vote`, with its tag and id bytes.
pub const MATCH_STOPPED_PRINT: [u8; 34] = [
    0x08, 0x02, 0xCD, 0xE1, 0xF4, 0xE3, 0xE8, 0x20, 0xF3, 0xF4, 0xEF, 0xF0, 0xF0, 0xE5, 0xE4, 0x20,
    0xE2, 0xF9, 0x20, 0xED, 0xE1, 0xEA, 0xEF, 0xF2, 0xE9, 0xF4, 0xF9, 0x20, 0xF6, 0xEF, 0xF4, 0xE5,
    0x0A, 0x00,
];

/// `Server is paused`.
pub const IS_PAUSED_NEEDLE: [u8; 16] = [
    0x53, 0x65, 0x72, 0x76, 0x65, 0x72, 0x20, 0x69, 0x73, 0x20, 0x70, 0x61, 0x75, 0x73, 0x65, 0x64,
];

/// `paused the game`.
pub const PAUSED_THE_GAME_NEEDLE: [u8; 15] = [
    0x70, 0x61, 0x75, 0x73, 0x65, 0x64, 0x20, 0x74, 0x68, 0x65, 0x20, 0x67, 0x61, 0x6D, 0x65,
];

/// The print `EndOfDemo` that closes a complete recording.
pub const END_OF_DEMO_NEEDLE: [u8; 12] = [
    0x00, 0x02, 0x45, 0x6E, 0x64, 0x4F, 0x66, 0x44, 0x65, 0x6D, 0x6F, 0x00,
];

/// Smallest plausible recording.
pub const MIN_SIZE: usize = 1024;

/// The print that opens the match date: tag, id, then `matchdate: `.
pub const MATCHDATE_NEEDLE: [u8; 13] = [
    0x08, 0x02, 0x6D, 0x61, 0x74, 0x63, 0x68, 0x64, 0x61, 0x74, 0x65, 0x3A, 0x20,
];

/// Shortest match date: `yyyy-mm-dd hh:mm:ss ab`.
pub const MATCHDATE_MIN_LEN: usize = 22;

/// Longest match date: `yyyy-mm-dd hh:mm:ss abcde`.
pub const MATCHDATE_MAX_LEN: usize = 25;

/// Whether the match was stopped by a vote.
pub fn is_aborted(data: &[u8]) -> (r: bool)
    ensures
        r == occurs(data@, MATCH_STOPPED_PRINT@),
{
    let needle = MATCH_STOPPED_PRINT;
    find(data, needle.as_slice()).is_some()
}

/// The stream ends with the end-of-demo print.
pub open spec fn spec_has_end_of_demo_print(data: Seq<u8>) -> bool {
    data.len() > 12 && data.subrange(data.len() - 12, data.len() as int) == END_OF_DEMO_NEEDLE@
}

/// Whether the stream ends with the end-of-demo print.
pub fn has_end_of_demo_print(data: &[u8]) -> (r: bool)
    ensures
        r == spec_has_end_of_demo_print(data@),
{
    let len = data.len();
    if len <= 12 {
        return false;
    }
    let needle = END_OF_DEMO_NEEDLE;
    let start = len - 12;
    let mut i: usize = 0;
    while i < 12
        invariant
            len == data@.len(),
            len > 12,
            start == len - 12,
            needle == END_OF_DEMO_NEEDLE,
            i <= 12,
            forall|j: int| 0 <= j < i ==> data@[start + j] == needle@[j],
        decreases 12 - i,
    {
        if data[start + i] != needle[i] {
            assert(data@.subrange(start as int, len as int)[i as int] != END_OF_DEMO_NEEDLE@[i as int]);
            return false;
        }
        i = i + 1;
    }
    assert(data@.subrange(start as int, len as int) =~= END_OF_DEMO_NEEDLE@);
    true
}

/// Whether the server was paused when the recording stopped.
pub fn is_paused(data: &[u8]) -> (r: bool)
    ensures
        r == (!spec_has_end_of_demo_print(data@) && (occurs(data@, IS_PAUSED_NEEDLE@) || occurs(
            data@,
            PAUSED_THE_GAME_NEEDLE@,
        ))),
{
    if has_end_of_demo_print(data) {
        return false;
    }
    let a = IS_PAUSED_NEEDLE;
    let b = PAUSED_THE_GAME_NEEDLE;
    rfind(data, a.as_slice()).is_some() || rfind(data, b.as_slice()).is_some()
}

/// Whether the stream holds client info strings.
pub fn has_clients(data: &[u8]) -> (r: bool)
    ensures
        r == (spec_clientinfo_strings(data@) matches Some(s) && s.len() > 0),
{
    match clientinfo_strings(data) {
        Ok(v) => v.len() > 0,
        Err(_) => false,
    }
}

/// Whether the stream looks like a complete recording: large enough, closed
/// by the end-of-demo print, with server info and client info.
pub fn is_valid(data: &[u8]) -> (r: bool)
    ensures
        r == (data@.len() >= MIN_SIZE && spec_has_end_of_demo_print(data@)
            && spec_serverinfo_string(data@) is Some && (spec_clientinfo_strings(data@) matches Some(
            s,
        ) && s.len() > 0)),
{
    data.len() >= MIN_SIZE && has_end_of_demo_print(data) && serverinfo_string(data).is_ok()
        && has_clients(data)
}

/// Bounds of the match date text: from after the first match date print to
/// the next newline.
pub open spec fn matchdate_bounds(data: Seq<u8>) -> Option<(int, int)> {
    match first_occurrence(data, MATCHDATE_NEEDLE@) {
        Some(i) => {
            let from = i + 13;
            match first_byte(data.subrange(from, data.len() as int), 0x0A) {
                Some(t) => Some((from, from + t)),
                None => None,
            }
        },
        None => None,
    }
}

/// The match date text as the server printed it, such as
/// `2024-04-02 21:02:17 CEST`.
pub fn matchdate_string(data: &[u8]) -> (r: Result<String, Error>)
    ensures
        first_occurrence(data@, MATCHDATE_NEEDLE@) is None ==> r == Err::<String, Error>(
            Error::MatchdateNotFound,
        ),
        first_occurrence(data@, MATCHDATE_NEEDLE@) is Some && matchdate_bounds(data@) is None
            ==> r == Err::<String, Error>(Error::InvalidMatchdate),
        forall|from: int, to: int|
            #[trigger] matchdate_bounds(data@) == Some((from, to)) ==> {
                let text = data@.subrange(from, to);
                &&& !(MATCHDATE_MIN_LEN <= to - from <= MATCHDATE_MAX_LEN) ==> r == Err::<String, Error>(
                    Error::InvalidMatchdate,
                )
                &&& MATCHDATE_MIN_LEN <= to - from <= MATCHDATE_MAX_LEN && valid_utf8(text) ==> (r matches Ok(
                    s,
                ) && s@ == decode_utf8(text))
                &&& MATCHDATE_MIN_LEN <= to - from <= MATCHDATE_MAX_LEN && !valid_utf8(text) ==> r
                    == Err::<String, Error>(Error::InvalidUtf8)
            },
{
    let len = data.len();
    let needle = MATCHDATE_NEEDLE;
    let i = match find(data, needle.as_slice()) {
        Some(i) => i,
        None => {
            proof {
                lemma_no_occurrence(data@, MATCHDATE_NEEDLE@);
            }
            return Err(Error::MatchdateNotFound);
        },
    };
    proof {
        lemma_first_occurrence(data@, MATCHDATE_NEEDLE@, i as int);
    }
    let from = i + 13;
    let rest = &data[from..len];
    proof {
        lemma_byte_positions(rest@, 0x0A);
    }
    let t = match find_byte(rest, 0x0A) {
        Some(t) => t,
        None => {
            return Err(Error::InvalidMatchdate);
        },
    };
    assert(is_first_byte(rest@, 0x0A, t as int));
    let to = from + t;
    assert(matchdate_bounds(data@) == Some((from as int, to as int)));
    if t < MATCHDATE_MIN_LEN || t > MATCHDATE_MAX_LEN {
        return Err(Error::InvalidMatchdate);
    }
    match utf8_string(copy_range(data, from, to)) {
        Some(s) => Ok(s),
        None => Err(Error::InvalidUtf8),
    }
}

} // verus!
