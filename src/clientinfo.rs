use vstd::prelude::*;

use crate::bytes::{
    find, find_byte, first_byte, first_occurrence, is_first_byte, is_last_byte, last_byte,
    lemma_byte_positions,
    lemma_first_occurrence, lemma_no_occurrence, rfind_byte,
};
use crate::error::Error;
use crate::text::{latin1, to_unicode};

verus! {

/// The console command after which the client info strings follow:
/// a tab, then `cmd spawn`.
pub const CMD_SPAWN: [u8; 10] = [0x09, 0x63, 0x6D, 0x64, 0x20, 0x73, 0x70, 0x61, 0x77, 0x6E];

/// The key that every client info string holds: `\name\`.
pub const NAME_KEY: [u8; 6] = [0x5C, 0x6E, 0x61, 0x6D, 0x65, 0x5C];

/// Most clients a server holds.
pub const MAX_PLAYERS: usize = 24;

/// Bytes searched for the next `\name\` key.
pub const MAX_LOOKAHEAD: usize = 256;

/// Shortest info string: `\name\` and one character.
pub const MIN_LEN: usize = 7;

/// Longest info string.
pub const MAX_LEN: usize = 256;

/// The bytes searched for a name key from `offset`.
pub open spec fn scan_window(data: Seq<u8>, offset: int) -> Seq<u8> {
    let end = if offset + MAX_LOOKAHEAD < data.len() {
        offset + MAX_LOOKAHEAD
    } else {
        data.len() as int
    };
    data.subrange(offset, end)
}

/// Bounds of the null-delimited info string round the next name key after
/// `offset`.
pub open spec fn info_bounds(data: Seq<u8>, offset: int) -> Option<(int, int)> {
    match first_occurrence(scan_window(data, offset), NAME_KEY@) {
        Some(o) => match last_byte(data.subrange(0, offset + o), 0) {
            Some(z) => match first_byte(data.subrange(z + 1, data.len() as int), 0) {
                Some(t) => Some((z + 1, z + 1 + t)),
                None => None,
            },
            None => None,
        },
        None => None,
    }
}

/// The info strings found one after another from `offset`, until one is
/// missing or of an implausible length, or `max_offset` is passed.
pub open spec fn info_strings_from(data: Seq<u8>, offset: int, max_offset: int) -> Seq<Seq<u8>>
    decreases data.len() - offset,
{
    if 0 <= offset <= data.len() {
        match info_bounds(data, offset) {
            Some((from, to)) => {
                if MIN_LEN <= to - from <= MAX_LEN && offset < to <= data.len() {
                    seq![data.subrange(from, to)] + if to >= max_offset {
                        Seq::empty()
                    } else {
                        info_strings_from(data, to, max_offset)
                    }
                } else {
                    Seq::empty()
                }
            },
            None => Seq::empty(),
        }
    } else {
        Seq::empty()
    }
}

/// The raw client info strings of a stream, where the spawn command occurs.
pub open spec fn spec_clientinfo_strings(data: Seq<u8>) -> Option<Seq<Seq<u8>>> {
    match first_occurrence(data, CMD_SPAWN@) {
        Some(o) => Some(info_strings_from(data, o, o + MAX_PLAYERS * MAX_LOOKAHEAD)),
        None => None,
    }
}

/// Bounds of the info string round the next name key after `offset`.
fn next_info_bounds(data: &[u8], offset: usize) -> (r: Option<(usize, usize)>)
    requires
        offset <= data@.len(),
    ensures
        match info_bounds(data@, offset as int) {
            Some((from, to)) => r == Some((from as usize, to as usize)) && 0 <= from <= to
                < data@.len(),
            None => r is None,
        },
{
    let len = data.len();
    let end = if len - offset > MAX_LOOKAHEAD {
        offset + MAX_LOOKAHEAD
    } else {
        len
    };
    let window = &data[offset..end];
    assert(window@ == scan_window(data@, offset as int));
    let key = NAME_KEY;
    let o = match find(window, key.as_slice()) {
        Some(o) => o,
        None => {
            proof {
                lemma_no_occurrence(window@, NAME_KEY@);
            }
            return None;
        },
    };
    proof {
        lemma_first_occurrence(window@, NAME_KEY@, o as int);
    }
    let name_offset = offset + o;
    let before = &data[0..name_offset];
    assert(before@ == data@.subrange(0, offset + o));
    proof {
        lemma_byte_positions(before@, 0);
    }
    let z = match rfind_byte(before, 0) {
        Some(z) => z,
        None => {
            return None;
        },
    };
    assert(is_last_byte(before@, 0, z as int));
    let from = z + 1;
    let after = &data[from..len];
    proof {
        lemma_byte_positions(after@, 0);
    }
    let t = match find_byte(after, 0) {
        Some(t) => t,
        None => {
            return None;
        },
    };
    assert(is_first_byte(after@, 0, t as int));
    Some((from, from + t))
}

/// The client info strings that follow the spawn command, as text.
pub fn clientinfo_strings(data: &[u8]) -> (r: Result<Vec<String>, Error>)
    ensures
        match spec_clientinfo_strings(data@) {
            Some(strings) => r matches Ok(v) && v@.len() == strings.len() && forall|i: int|
                0 <= i < strings.len() ==> #[trigger] v@[i]@ == latin1(strings[i]),
            None => r == Err::<Vec<String>, Error>(Error::ClientinfoNotFound),
        },
{
    let len = data.len();
    let spawn = CMD_SPAWN;
    let start = match find(data, spawn.as_slice()) {
        Some(o) => o,
        None => {
            proof {
                lemma_no_occurrence(data@, CMD_SPAWN@);
            }
            return Err(Error::ClientinfoNotFound);
        },
    };
    proof {
        lemma_first_occurrence(data@, CMD_SPAWN@, start as int);
    }
    let max_offset: u128 = start as u128 + (MAX_PLAYERS * MAX_LOOKAHEAD) as u128;
    let mut offset = start;
    let mut result: Vec<String> = Vec::new();
    let ghost mut found: Seq<Seq<u8>> = Seq::empty();
    loop
        invariant_except_break
            info_strings_from(data@, start as int, max_offset as int) == found + info_strings_from(
                data@,
                offset as int,
                max_offset as int,
            ),
        invariant
            len == data@.len(),
            offset <= len,
            max_offset == start + MAX_PLAYERS * MAX_LOOKAHEAD,
            result@.len() == found.len(),
            forall|i: int| 0 <= i < found.len() ==> #[trigger] result@[i]@ == latin1(found[i]),
        ensures
            info_strings_from(data@, start as int, max_offset as int) == found,
        decreases len - offset,
    {
        let (from, to) = match next_info_bounds(data, offset) {
            Some(b) => b,
            None => {
                assert(found + info_strings_from(data@, offset as int, max_offset as int) =~= found);
                break;
            },
        };
        if to - from < MIN_LEN || to - from > MAX_LEN || to <= offset {
            assert(found + info_strings_from(data@, offset as int, max_offset as int) =~= found);
            break;
        }
        let text = to_unicode(&data[from..to]);
        let ghost piece = data@.subrange(from as int, to as int);
        let ghost found0 = found;
        result.push(text);
        proof {
            found = found.push(piece);
            assert(found0 + seq![piece] =~= found);
        }
        if to as u128 >= max_offset {
            assert(info_strings_from(data@, offset as int, max_offset as int) =~= seq![piece]);
            break;
        }
        assert(info_strings_from(data@, offset as int, max_offset as int) =~= seq![piece]
            + info_strings_from(data@, to as int, max_offset as int));
        assert(found0 + (seq![piece] + info_strings_from(data@, to as int, max_offset as int))
            =~= found + info_strings_from(data@, to as int, max_offset as int));
        offset = to;
    }
    Ok(result)
}

} // verus!
