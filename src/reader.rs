use vstd::prelude::*;

use crate::error::Error;
use crate::num::{le_u16_at, le_u32_at, u16_at, u32_at};
use crate::qw::{spec_message, spec_print_id, Message, PrintId};

verus! {

/// `j` is the first zero byte of `s` at or after `from`.
pub open spec fn is_first_zero(s: Seq<u8>, from: int, j: int) -> bool {
    &&& 0 <= from <= j < s.len()
    &&& s[j] == 0
    &&& forall|k: int| from <= k < j ==> s[k] != 0
}

/// `s` holds a zero byte at or after `from`.
pub open spec fn has_zero_from(s: Seq<u8>, from: int) -> bool {
    exists|j: int| 0 <= from <= j < s.len() && s[j] == 0
}

/// A read position over a frame body.
pub struct Cursor<'a> {
    pub data: &'a [u8],
    pub position: usize,
}

/// A print record read from a frame body: its id, and its text up to the
/// terminating null without a trailing newline; `trailing_newline` tells
/// whether one was dropped.
#[derive(Clone, Debug, PartialEq)]
pub struct Print {
    pub id: PrintId,
    pub content: Vec<u8>,
    pub trailing_newline: bool,
}

/// `t` without one trailing newline.
pub open spec fn strip_newline(t: Seq<u8>) -> Seq<u8> {
    if t.len() > 0 && t.last() == 10 {
        t.drop_last()
    } else {
        t
    }
}

/// `t` ends with a newline.
pub open spec fn ends_with_newline(t: Seq<u8>) -> bool {
    t.len() > 0 && t.last() == 10
}

/// Length of the text as it stood before the newline was dropped.
pub open spec fn raw_len(p: Print) -> int {
    p.content@.len() + if p.trailing_newline {
        1int
    } else {
        0
    }
}

impl Print {
    /// Bytes the record took after its tag: id, text, newline and null
    /// terminator.
    pub fn byte_size(&self) -> (r: usize)
        requires
            self.content@.len() + 3 <= usize::MAX,
        ensures
            r == raw_len(*self) + 2,
    {
        if self.trailing_newline {
            self.content.len() + 3
        } else {
            self.content.len() + 2
        }
    }
}

/// A change of a player's frag count.
#[derive(Clone, Copy, Debug, PartialEq, Eq, Structural)]
pub struct UpdateFrags {
    pub player_number: u8,
    pub frags: u16,
}

/// A player's ping.
#[derive(Clone, Copy, Debug, PartialEq, Eq, Structural)]
pub struct UpdatePing {
    pub player_number: u8,
    pub ping: u16,
}

impl<'a> Cursor<'a> {
    /// A cursor at the start of `data`.
    pub fn new(data: &'a [u8]) -> (r: Cursor<'a>)
        ensures
            r.data@ == data@,
            r.position == 0,
    {
        Cursor { data, position: 0 }
    }

    /// Moves the read position.
    pub fn set_position(&mut self, position: usize)
        ensures
            final(self).data@ == old(self).data@,
            final(self).position == position,
    {
        self.position = position;
    }

    /// Reads one byte.
    pub fn read_byte(&mut self) -> (r: Result<u8, Error>)
        ensures
            final(self).data@ == old(self).data@,
            old(self).position < old(self).data@.len() ==> r == Ok::<u8, Error>(
                old(self).data@[old(self).position as int],
            ) && final(self).position == old(self).position + 1,
            old(self).position >= old(self).data@.len() ==> r == Err::<u8, Error>(Error::ReadByte)
                && final(self).position == old(self).position,
    {
        if self.position < self.data.len() {
            let b = self.data[self.position];
            self.position = self.position + 1;
            Ok(b)
        } else {
            Err(Error::ReadByte)
        }
    }

    /// Reads a little-endian `u16`.
    pub fn read_u16(&mut self) -> (r: Result<u16, Error>)
        ensures
            final(self).data@ == old(self).data@,
            old(self).position + 2 <= old(self).data@.len() ==> r == Ok::<u16, Error>(
                le_u16_at(old(self).data@, old(self).position as int) as u16,
            ) && final(self).position == old(self).position + 2,
            old(self).position + 2 > old(self).data@.len() ==> r == Err::<u16, Error>(
                Error::ReadShort,
            ) && final(self).position == old(self).position,
    {
        if self.position <= self.data.len() && self.data.len() - self.position >= 2 {
            let v = u16_at(self.data, self.position);
            self.position = self.position + 2;
            Ok(v)
        } else {
            Err(Error::ReadShort)
        }
    }

    /// Reads a little-endian `u32`.
    pub fn read_u32(&mut self) -> (r: Result<u32, Error>)
        ensures
            final(self).data@ == old(self).data@,
            old(self).position + 4 <= old(self).data@.len() ==> r == Ok::<u32, Error>(
                le_u32_at(old(self).data@, old(self).position as int) as u32,
            ) && final(self).position == old(self).position + 4,
            old(self).position + 4 > old(self).data@.len() ==> r == Err::<u32, Error>(
                Error::ReadLong,
            ) && final(self).position == old(self).position,
    {
        if self.position <= self.data.len() && self.data.len() - self.position >= 4 {
            let v = u32_at(self.data, self.position);
            self.position = self.position + 4;
            Ok(v)
        } else {
            Err(Error::ReadLong)
        }
    }

    /// Reads the bytes up to the next null, and steps past the null.
    pub fn read_bstring(&mut self) -> (r: Result<Vec<u8>, Error>)
        ensures
            final(self).data@ == old(self).data@,
            match r {
                Ok(v) => {
                    let end = old(self).position + v@.len();
                    &&& is_first_zero(old(self).data@, old(self).position as int, end)
                    &&& v@ == old(self).data@.subrange(old(self).position as int, end)
                    &&& final(self).position == end + 1
                },
                Err(e) => e == Error::ReadString && !has_zero_from(
                    old(self).data@,
                    old(self).position as int,
                ) && final(self).position == old(self).position,
            },
    {
        let data = self.data;
        let start = self.position;
        let len = data.len();
        if start >= len {
            return Err(Error::ReadString);
        }
        let mut result: Vec<u8> = Vec::new();
        let mut i = start;
        while i < len
            invariant
                start < len,
                self.data@ == data@,
                self.position == start,
                old(self).data@ == data@,
                old(self).position == start,
                len == data@.len(),
                start <= i <= len,
                result@ == data@.subrange(start as int, i as int),
                forall|k: int| start <= k < i ==> data@[k] != 0,
            decreases len - i,
        {
            let b = data[i];
            if b == 0 {
                assert(is_first_zero(data@, start as int, i as int));
                self.position = i + 1;
                return Ok(result);
            }
            result.push(b);
            i = i + 1;
            assert(result@ == data@.subrange(start as int, i as int));
        }
        Err(Error::ReadString)
    }

    /// Reads a message tag.
    pub fn read_message_type(&mut self) -> (r: Result<Message, Error>)
        ensures
            final(self).data@ == old(self).data@,
            old(self).position < old(self).data@.len() ==> r == Ok::<Message, Error>(
                spec_message(old(self).data@[old(self).position as int]),
            ) && final(self).position == old(self).position + 1,
            old(self).position >= old(self).data@.len() ==> r == Err::<Message, Error>(
                Error::ReadByte,
            ) && final(self).position == old(self).position,
    {
        let b = self.read_byte()?;
        Ok(Message::from_byte(&b))
    }

    /// Reads a print record: its id, then its text up to a null.
    pub fn read_print(&mut self) -> (r: Result<Print, Error>)
        ensures
            final(self).data@ == old(self).data@,
            match r {
                Ok(p) => {
                    let pos = old(self).position as int;
                    let end = pos + 1 + raw_len(p);
                    let raw = old(self).data@.subrange(pos + 1, end);
                    &&& pos < old(self).data@.len()
                    &&& p.id == spec_print_id(old(self).data@[pos])
                    &&& is_first_zero(old(self).data@, pos + 1, end)
                    &&& p.content@ == strip_newline(raw)
                    &&& p.trailing_newline == ends_with_newline(raw)
                    &&& final(self).position == end + 1
                },
                Err(e) => (e == Error::ReadByte && old(self).position >= old(self).data@.len()) || (
                e == Error::ReadString && old(self).position < old(self).data@.len()
                    && !has_zero_from(old(self).data@, old(self).position + 1)),
            },
    {
        let b = self.read_byte()?;
        let id = PrintId::from_byte(&b);
        let mut content = self.read_bstring()?;
        let n = content.len();
        let trailing_newline = n > 0 && content[n - 1] == 10;
        if trailing_newline {
            content.pop();
        }
        Ok(Print { id, content, trailing_newline })
    }

    /// Reads a frag update: a player slot and a little-endian `u16`.
    pub fn read_update_frags(&mut self) -> (r: Result<UpdateFrags, Error>)
        ensures
            final(self).data@ == old(self).data@,
            old(self).position + 3 <= old(self).data@.len() ==> r == Ok::<UpdateFrags, Error>(
                UpdateFrags {
                    player_number: old(self).data@[old(self).position as int],
                    frags: le_u16_at(old(self).data@, old(self).position + 1) as u16,
                },
            ) && final(self).position == old(self).position + 3,
            old(self).position >= old(self).data@.len() ==> r == Err::<UpdateFrags, Error>(
                Error::ReadByte,
            ),
            old(self).position < old(self).data@.len() < old(self).position + 3 ==> r == Err::<
                UpdateFrags,
                Error,
            >(Error::ReadShort),
    {
        let player_number = self.read_byte()?;
        let frags = self.read_u16()?;
        Ok(UpdateFrags { player_number, frags })
    }

    /// Reads a ping update: a player slot, a little-endian `u16`, and the tag
    /// byte of the packet-loss record that always follows.
    pub fn read_update_ping(&mut self) -> (r: Result<UpdatePing, Error>)
        ensures
            final(self).data@ == old(self).data@,
            old(self).position + 4 <= old(self).data@.len() ==> r == Ok::<UpdatePing, Error>(
                UpdatePing {
                    player_number: old(self).data@[old(self).position as int],
                    ping: le_u16_at(old(self).data@, old(self).position + 1) as u16,
                },
            ) && final(self).position == old(self).position + 4,
            old(self).position >= old(self).data@.len() ==> r == Err::<UpdatePing, Error>(
                Error::ReadByte,
            ),
            old(self).position < old(self).data@.len() < old(self).position + 3 ==> r == Err::<
                UpdatePing,
                Error,
            >(Error::ReadShort),
            old(self).position + 3 == old(self).data@.len() ==> r == Err::<UpdatePing, Error>(
                Error::ReadByte,
            ),
    {
        let player_number = self.read_byte()?;
        let ping = self.read_u16()?;
        self.read_byte()?;
        Ok(UpdatePing { player_number, ping })
    }
}

impl UpdateFrags {
    /// Decodes a frag update from the start of `value`.
    pub fn try_from(value: &[u8]) -> (r: Result<UpdateFrags, Error>)
        ensures
            value@.len() >= 3 ==> r == Ok::<UpdateFrags, Error>(
                UpdateFrags { player_number: value@[0], frags: le_u16_at(value@, 1) as u16 },
            ),
            value@.len() == 0 ==> r == Err::<UpdateFrags, Error>(Error::ReadByte),
            0 < value@.len() < 3 ==> r == Err::<UpdateFrags, Error>(Error::ReadShort),
    {
        Cursor::new(value).read_update_frags()
    }
}

impl UpdatePing {
    /// Decodes a ping update from the start of `value`.
    pub fn try_from(value: &[u8]) -> (r: Result<UpdatePing, Error>)
        ensures
            value@.len() >= 4 ==> r == Ok::<UpdatePing, Error>(
                UpdatePing { player_number: value@[0], ping: le_u16_at(value@, 1) as u16 },
            ),
            value@.len() == 0 || value@.len() == 3 ==> r == Err::<UpdatePing, Error>(
                Error::ReadByte,
            ),
            0 < value@.len() < 3 ==> r == Err::<UpdatePing, Error>(Error::ReadShort),
    {
        Cursor::new(value).read_update_ping()
    }
}

impl Print {
    /// Decodes a print record from the start of `value`.
    pub fn try_from(value: &[u8]) -> (r: Result<Print, Error>)
        ensures
            match r {
                Ok(p) => {
                    let raw = value@.subrange(1, 1 + raw_len(p));
                    &&& value@.len() > 0
                    &&& p.id == spec_print_id(value@[0])
                    &&& is_first_zero(value@, 1, 1 + raw_len(p))
                    &&& p.content@ == strip_newline(raw)
                    &&& p.trailing_newline == ends_with_newline(raw)
                },
                Err(e) => (e == Error::ReadByte && value@.len() == 0) || (e == Error::ReadString
                    && value@.len() > 0 && !has_zero_from(value@, 1)),
            },
    {
        Cursor::new(value).read_print()
    }
}

} // verus!
