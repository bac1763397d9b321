use vstd::prelude::*;

use crate::bytes::{copy_range, find_byte};
use crate::error::Error;
use crate::qw::{spec_print_id, PrintId};
use crate::reader::{has_zero_from, is_first_zero};

verus! {

/// A decoded print message: its id and its text, without the terminating
/// null and without a trailing newline.
#[derive(Clone, Debug, PartialEq)]
pub struct Print {
    pub id: PrintId,
    pub content: Vec<u8>,
}

/// The text of a print record whose terminator stands at `z`: the bytes after
/// the id, less a trailing newline.
pub open spec fn spec_print_text(value: Seq<u8>, z: int) -> Seq<u8> {
    let raw = value.subrange(1, z);
    if raw.len() > 0 && raw.last() == 10 {
        raw.drop_last()
    } else {
        raw
    }
}

impl Print {
    /// Decodes a print record: an id byte, then text up to a null.
    pub fn try_from(value: &[u8]) -> (r: Result<Print, Error>)
        ensures
            value@.len() < 3 ==> r == Err::<Print, Error>(Error::InsufficientLength),
            value@.len() >= 3 && !has_zero_from(value@, 1) ==> r == Err::<Print, Error>(
                Error::MissingNullTerminator,
            ),
            forall|z: int|
                value@.len() >= 3 && #[trigger] is_first_zero(value@, 1, z) ==> (r matches Ok(p)
                    && p.id == spec_print_id(value@[0]) && p.content@ == spec_print_text(value@, z)),
    {
        let len = value.len();
        if len < 3 {
            return Err(Error::InsufficientLength);
        }
        let rest = &value[1..len];
        let z = match find_byte(rest, 0) {
            Some(j) => j + 1,
            None => {
                assert forall|j: int| 0 <= 1 <= j < value@.len() implies value@[j] != 0 by {
                    assert(rest@[j - 1] == value@[j]);
                }
                return Err(Error::MissingNullTerminator);
            },
        };
        assert(is_first_zero(value@, 1, z as int)) by {
            assert forall|k: int| 1 <= k < z implies value@[k] != 0 by {
                assert(rest@[k - 1] == value@[k]);
            }
            assert(rest@[z - 1] == value@[z as int]);
        }
        let mut end = z;
        if z > 1 && value[z - 1] == 10 {
            end = z - 1;
        }
        let content = copy_range(value, 1, end);
        let id = PrintId::from_byte(&value[0]);
        proof {
            assert forall|w: int| #[trigger] is_first_zero(value@, 1, w) implies w == z by {
                if w < z {
                    assert(value@[w] != 0);
                } else if w > z {
                    assert(value@[z as int] != 0);
                }
            }
            assert(content@ == spec_print_text(value@, z as int));
        }
        Ok(Print { id, content })
    }
}

} // verus!
