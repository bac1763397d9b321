//! Decoding of QuakeWorld multi-view demo (MVD) recordings into match facts:
//! the frame cursor, the protocol message reader, the reassembly of the
//! statistics document split over block frames, the classification of
//! console messages into frag and flag events, the resolution of anonymous
//! teamkills, and the ping and score aggregates built on them.

use vstd::prelude::*;

pub mod block;
pub mod bytes;
pub mod client;
pub mod clientinfo;
pub mod ctf;
pub mod error;
pub mod event;
pub mod flags;
pub mod frags;
pub mod frame;
pub mod ktxstats;
pub mod num;
pub mod pings;
pub mod print;
pub mod qw;
pub mod reader;
pub mod serverinfo;
pub mod text;
pub mod timezone;
pub mod timing;
pub mod validate;

verus! {

} // verus!
