use std::ops::Range;

use vstd::prelude::*;

use crate::error::Error;
use crate::num::{le_u32_at, u32_at, LONG, SHORT};
use crate::qw::{spec_command, spec_target, Command, Target};

verus! {

/// Width of a frame header that carries a size field.
pub const HEADER_SIZE: usize = SHORT + LONG;

/// Width of such a header when the frame has multiple targets.
pub const MULTI_HEADER_SIZE: usize = HEADER_SIZE + LONG;

/// One frame of the stream: where it lies and what its header says.
#[derive(Debug, PartialEq)]
pub struct Info {
    pub duration: u32,
    pub target: Target,
    pub command: Command,
    pub index: usize,
    pub size: usize,
    pub header_size: usize,
    pub header_range: Range<usize>,
    pub body_size: usize,
    pub body_range: Range<usize>,
}

/// An absolute byte range and its size.
#[derive(Debug, PartialEq)]
pub struct SliceInfo {
    pub size: usize,
    pub range_abs: Range<usize>,
}

/// Header width for a tag byte: duration and tag, four skipped bytes for
/// multiple targets, and a size field for a read command.
pub open spec fn spec_header_size(tag: u8) -> int {
    2 + (if spec_target(tag) == Target::Multiple {
        4int
    } else {
        0int
    }) + (if spec_command(tag) == Command::Read {
        4int
    } else {
        0int
    })
}

/// Body width of the frame whose header starts at `index`.
pub open spec fn spec_body_size(data: Seq<u8>, index: int) -> int {
    let tag = data[index + 1];
    if spec_command(tag) == Command::Read {
        le_u32_at(data, index + spec_header_size(tag) - 4)
    } else if spec_command(tag) == Command::SetFixed {
        8
    } else {
        0
    }
}

/// Total width of the frame at `index`.
pub open spec fn spec_frame_size(data: Seq<u8>, index: int) -> int {
    spec_header_size(data[index + 1]) + spec_body_size(data, index)
}

/// The frame at `index` has a whole header and body inside `data`.
pub open spec fn frame_fits(data: Seq<u8>, index: int) -> bool {
    &&& 0 <= index
    &&& index + 2 <= data.len()
    &&& index + spec_header_size(data[index + 1]) <= data.len()
    &&& index + spec_frame_size(data, index) <= data.len()
}

/// `info` describes the frame at `index` of `data`.
pub open spec fn is_frame_at(info: Info, data: Seq<u8>, index: int) -> bool {
    let tag = data[index + 1];
    &&& info.index == index
    &&& info.duration == data[index] as u32
    &&& info.target == spec_target(tag)
    &&& info.command == spec_command(tag)
    &&& info.header_size == spec_header_size(tag)
    &&& info.body_size == spec_body_size(data, index)
    &&& info.size == info.header_size + info.body_size
    &&& info.header_range == (Range { start: info.index, end: (info.index + info.header_size) as usize })
    &&& info.body_range == (Range {
        start: (info.index + info.header_size) as usize,
        end: (info.index + info.size) as usize,
    })
}

/// Where a walk that starts at `index` and steps frame by frame stops.
pub open spec fn walk_end(data: Seq<u8>, index: int) -> int
    decreases data.len() - index,
{
    if frame_fits(data, index) && spec_frame_size(data, index) > 0 {
        walk_end(data, index + spec_frame_size(data, index))
    } else {
        index
    }
}

/// Sum of the sizes of the frames such a walk steps over.
pub open spec fn walk_consumed(data: Seq<u8>, index: int) -> int
    decreases data.len() - index,
{
    if frame_fits(data, index) && spec_frame_size(data, index) > 0 {
        spec_frame_size(data, index) + walk_consumed(data, index + spec_frame_size(data, index))
    } else {
        0
    }
}

/// Walking the stream frame by frame from `index` never passes the end of
/// the buffer, and stops exactly at `index` plus the sizes it stepped over.
pub proof fn lemma_walk_bounded(data: Seq<u8>, index: int)
    requires
        0 <= index <= data.len(),
    ensures
        index <= walk_end(data, index) <= data.len(),
        walk_end(data, index) == index + walk_consumed(data, index),
    decreases data.len() - index,
{
    if frame_fits(data, index) && spec_frame_size(data, index) > 0 {
        lemma_walk_bounded(data, index + spec_frame_size(data, index));
    }
}

/// A frame with multiple targets has four bytes between its tag and its size
/// field: its header is ten bytes wide and its body size is the `u32` at
/// offset six.
pub proof fn lemma_multiple_skips_four(data: Seq<u8>, index: int)
    requires
        0 <= index,
        index + 2 <= data.len(),
        spec_target(data[index + 1]) == Target::Multiple,
    ensures
        spec_header_size(data[index + 1]) == 10,
        spec_body_size(data, index) == le_u32_at(data, index + 6),
{
}

/// A frame with the set command has a two-byte header and an eight-byte
/// body, whatever bytes follow its tag.
pub proof fn lemma_set_body_is_eight(data: Seq<u8>, other: Seq<u8>, index: int)
    requires
        0 <= index,
        index + 2 <= data.len(),
        index + 2 <= other.len(),
        data[index + 1] == other[index + 1],
        spec_command(data[index + 1]) == Command::SetFixed,
    ensures
        spec_header_size(data[index + 1]) == 2,
        spec_body_size(data, index) == 8,
        spec_body_size(other, index) == 8,
{
}

impl Info {
    /// Parses the frame header at `index`.
    pub fn from_data_and_index(data: &[u8], index: usize) -> (r: Result<Info, Error>)
        ensures
            match r {
                Ok(info) => frame_fits(data@, index as int) && is_frame_at(info, data@, index as int),
                Err(e) => !frame_fits(data@, index as int) && e == Error::FrameTooSmall,
            },
    {
        let len = data.len();
        if index > len || len - index < 2 {
            return Err(Error::FrameTooSmall);
        }
        let duration = data[index] as u32;
        let tag = data[index + 1];
        let target = Target::from_byte(&tag);
        let command = Command::from_byte(&tag);

        let mut header_size: usize = 2;
        if target == Target::Multiple {
            // four zero bytes precede the size field
            header_size = header_size + LONG;
        }
        let body_size: usize;
        if command == Command::Read {
            if len - index < header_size + LONG {
                return Err(Error::FrameTooSmall);
            }
            body_size = u32_at(data, index + header_size) as usize;
            header_size = header_size + LONG;
        } else if command == Command::SetFixed {
            // the size field is ignored: the body is two longs
            body_size = 2 * LONG;
        } else {
            body_size = 0;
        }
        if len - index < header_size || body_size > len - index - header_size {
            return Err(Error::FrameTooSmall);
        }
        let size = header_size + body_size;
        Ok(Info {
            duration,
            target,
            command,
            index,
            size,
            header_size,
            header_range: index..index + header_size,
            body_size,
            body_range: index + header_size..index + size,
        })
    }
}

} // verus!
