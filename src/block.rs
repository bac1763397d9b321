use vstd::prelude::*;

use crate::error::Error;
use crate::num::{le_u16_at, le_u32_at, u16_at, u32_at, LONG, SHORT};
use crate::qw::{spec_hidden_message, HiddenMessage};

verus! {

/// Width of a block header: declared size, hidden kind and block number.
pub const HEADER_SIZE: usize = LONG + 2 * SHORT;

/// A block header: one piece of a document split over a chain of frames.
#[derive(Debug, PartialEq)]
pub struct Info {
    pub body_size: usize,
    pub total_size: usize,
    pub hidden_message: HiddenMessage,
    pub number: usize,
}

/// The block header at the start of `value` is whole and declares a size
/// that covers its own number field.
pub open spec fn block_fits(value: Seq<u8>) -> bool {
    value.len() >= 8 && le_u32_at(value, 0) >= 2 && le_u32_at(value, 0) - 2 + 8 <= usize::MAX
}

/// Body width of the block at the start of `value`.
pub open spec fn spec_block_body_size(value: Seq<u8>) -> int {
    le_u32_at(value, 0) - 2
}

impl Info {
    /// Parses the block header at the start of `value`.
    pub fn try_from(value: &[u8]) -> (r: Result<Info, Error>)
        ensures
            match r {
                Ok(info) => {
                    &&& block_fits(value@)
                    &&& info.body_size == spec_block_body_size(value@)
                    &&& info.total_size == 8 + info.body_size
                    &&& info.hidden_message == spec_hidden_message(le_u16_at(value@, 4) as u16)
                    &&& info.number == le_u16_at(value@, 6)
                },
                Err(e) => !block_fits(value@) && e == Error::BlockTooSmall,
            },
    {
        if value.len() < HEADER_SIZE {
            return Err(Error::BlockTooSmall);
        }
        let declared = u32_at(value, 0) as usize;
        // the declared size counts the block number field
        if declared < SHORT || declared - SHORT > usize::MAX - HEADER_SIZE {
            return Err(Error::BlockTooSmall);
        }
        let body_size = declared - SHORT;
        let kind = u16_at(value, 4);
        let number = u16_at(value, 6) as usize;
        Ok(Info {
            body_size,
            total_size: HEADER_SIZE + body_size,
            hidden_message: HiddenMessage::from_u16(&kind),
            number,
        })
    }
}

} // verus!
