use vstd::prelude::*;

use crate::bytes::{find, first_occurrence, last_occurrence, lemma_first_occurrence, lemma_last_occurrence, lemma_no_last_occurrence, lemma_no_occurrence, rfind};
use crate::error::Error;
use crate::frame::{frame_fits, spec_frame_size, Info};
use crate::serverinfo::{settings_of, spec_serverinfo_string, serverinfo_mode};
use crate::validate::MATCHDATE_NEEDLE;

verus! {

/// `The match is over`.
pub const MATCH_OVER_NEEDLE: [u8; 17] = [
    0x54, 0x68, 0x65, 0x20, 0x6D, 0x61, 0x74, 0x63, 0x68, 0x20, 0x69, 0x73, 0x20, 0x6F, 0x76, 0x65,
    0x72,
];

/// The server info status `Standby`.
pub const STANDBY_NEEDLE: [u8; 16] = [
    0x34, 0x73, 0x74, 0x61, 0x74, 0x75, 0x73, 0x00, 0x53, 0x74, 0x61, 0x6E, 0x64, 0x62, 0x79, 0x00,
];

/// Milliseconds of the frames that start before `target`, from the frame at
/// `index` on.
pub open spec fn ms_until(data: Seq<u8>, index: int, target: int) -> int
    decreases data.len() - index,
{
    if frame_fits(data, index) && index < target {
        data[index] + ms_until(data, index + spec_frame_size(data, index), target)
    } else {
        0
    }
}

proof fn lemma_ms_bound(data: Seq<u8>, index: int, target: int)
    requires
        0 <= index <= data.len(),
    ensures
        0 <= ms_until(data, index, target) <= 255 * (data.len() - index),
    decreases data.len() - index,
{
    if frame_fits(data, index) && index < target {
        lemma_ms_bound(data, index + spec_frame_size(data, index), target);
    }
}

/// Milliseconds from the start of the stream to the frame at `target`: the
/// durations of the frames that start before it.
pub fn duration_until_offset(data: &[u8], target: usize) -> (r: u128)
    ensures
        r == ms_until(data@, 0, target as int),
{
    let len = data.len();
    let mut index: usize = 0;
    let mut total: u128 = 0;
    proof {
        lemma_ms_bound(data@, 0, target as int);
    }
    loop
        invariant_except_break
            ms_until(data@, 0, target as int) == total + ms_until(data@, index as int, target as int),
        invariant
            len == data@.len(),
            index <= len,
            total + ms_until(data@, index as int, target as int) <= 255 * len,
        ensures
            ms_until(data@, 0, target as int) == total,
        decreases len - index,
    {
        let info = match Info::from_data_and_index(data, index) {
            Ok(info) => info,
            Err(_) => {
                break;
            },
        };
        if index >= target {
            break;
        }
        proof {
            lemma_ms_bound(data@, index + info.size, target as int);
        }
        total = total + info.duration as u128;
        index = index + info.size;
    }
    total
}

/// The server runs a hoonymode match, whose duration is counted from the
/// frames.
pub open spec fn spec_is_hoonymode(data: Seq<u8>) -> bool {
    match spec_serverinfo_string(data) {
        Some(s) => settings_of(s).0 == Some("hoonymode"@),
        None => false,
    }
}

/// Whether the server runs a hoonymode match.
pub fn is_hoonymode(data: &[u8]) -> (r: bool)
    ensures
        r == spec_is_hoonymode(data@),
{
    match serverinfo_mode(data) {
        Some(mode) => mode == "hoonymode".to_owned(),
        None => false,
    }
}

/// Milliseconds before the match starts: up to the match date print, or none
/// in a hoonymode match.
pub fn countdown_ms(data: &[u8]) -> (r: Result<u128, Error>)
    ensures
        match countdown_spec(data@) {
            Some(b) => r == Ok::<u128, Error>(b as u128),
            None => r == Err::<u128, Error>(Error::CountdownNotFound),
        },
{
    if is_hoonymode(data) {
        return Ok(0);
    }
    let needle = MATCHDATE_NEEDLE;
    match find(data, needle.as_slice()) {
        Some(i) => {
            proof {
                lemma_first_occurrence(data@, MATCHDATE_NEEDLE@, i as int);
            }
            Ok(duration_until_offset(data, i))
        },
        None => {
            proof {
                lemma_no_occurrence(data@, MATCHDATE_NEEDLE@);
            }
            Err(Error::CountdownNotFound)
        },
    }
}

/// Where the recording of the match ends: the last `The match is over`, else
/// the last standby status, else the end of the stream.
pub open spec fn demo_end(data: Seq<u8>) -> int {
    match last_occurrence(data, MATCH_OVER_NEEDLE@) {
        Some(i) => i,
        None => match last_occurrence(data, STANDBY_NEEDLE@) {
            Some(i) => i,
            None => data.len() as int,
        },
    }
}

/// Milliseconds of the recording up to the end of the match.
pub fn demo_ms(data: &[u8]) -> (r: u128)
    ensures
        r == ms_until(data@, 0, demo_end(data@)),
{
    let over = MATCH_OVER_NEEDLE;
    let standby = STANDBY_NEEDLE;
    let end = match rfind(data, over.as_slice()) {
        Some(i) => {
            proof {
                lemma_last_occurrence(data@, MATCH_OVER_NEEDLE@, i as int);
            }
            i
        },
        None => {
            proof {
                lemma_no_last_occurrence(data@, MATCH_OVER_NEEDLE@);
            }
            match rfind(data, standby.as_slice()) {
                Some(i) => {
                    proof {
                        lemma_last_occurrence(data@, STANDBY_NEEDLE@, i as int);
                    }
                    i
                },
                None => {
                    proof {
                        lemma_no_last_occurrence(data@, STANDBY_NEEDLE@);
                    }
                    data.len()
                },
            }
        },
    };
    duration_until_offset(data, end)
}

/// Milliseconds of the match: from the end of the countdown to the end of the
/// match; `InvalidDuration` where the countdown ends after the match.
pub fn match_ms_from_seeking(data: &[u8]) -> (r: Result<u128, Error>)
    ensures
        match countdown_spec(data@) {
            Some(begin) => if begin <= ms_until(data@, 0, demo_end(data@)) {
                r == Ok::<u128, Error>((ms_until(data@, 0, demo_end(data@)) - begin) as u128)
            } else {
                r == Err::<u128, Error>(Error::InvalidDuration)
            },
            None => r == Err::<u128, Error>(Error::CountdownNotFound),
        },
{
    let len = data.len();
    assert(len == data@.len());
    proof {
        lemma_ms_bound(data@, 0, demo_end(data@));
        if let Some(i) = first_occurrence(data@, MATCHDATE_NEEDLE@) {
            lemma_ms_bound(data@, 0, i);
        }
    }
    let end = demo_ms(data);
    let begin = match countdown_ms(data) {
        Ok(b) => b,
        Err(e) => {
            return Err(e);
        },
    };
    assert(begin as int == countdown_spec(data@)->0);
    assert(end as int == ms_until(data@, 0, demo_end(data@)));
    if begin > end {
        return Err(Error::InvalidDuration);
    }
    Ok(end - begin)
}

/// Milliseconds before the match starts, where they can be found.
pub open spec fn countdown_spec(data: Seq<u8>) -> Option<int> {
    match spec_serverinfo_string(data) {
        Some(s) if settings_of(s).0 == Some("hoonymode"@) => Some(0),
        _ => match first_occurrence(data, MATCHDATE_NEEDLE@) {
            Some(i) => Some(ms_until(data, 0, i)),
            None => None,
        },
    }
}

} // verus!
