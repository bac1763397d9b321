use vstd::prelude::*;

verus! {

/// Why a decode step gave no value.
#[derive(Clone, Copy, Debug, PartialEq, Eq, Structural)]
pub enum Error {
    /// A frame header or body runs past the end of the buffer.
    FrameTooSmall,
    /// A block header runs past the end of the buffer, or declares a size below its own fields.
    BlockTooSmall,
    /// No byte was left to read.
    ReadByte,
    /// Fewer than two bytes were left to read.
    ReadShort,
    /// Fewer than four bytes were left to read.
    ReadLong,
    /// A string ran to the end of the buffer without a null terminator.
    ReadString,
    /// A print record is shorter than an id, one character and a terminator.
    InsufficientLength,
    /// A print record holds no null terminator.
    MissingNullTerminator,
    /// No frame of the stream carried a ping update.
    PingsNotFound,
    /// The statistics document is not in the stream.
    KtxstatsNotFound,
    /// The statistics document is not valid UTF-8.
    InvalidUtf8,
    /// The match date print is not in the stream.
    MatchdateNotFound,
    /// The match date print is cut short or has the wrong length.
    InvalidMatchdate,
    /// The client info strings are not in the stream.
    ClientinfoNotFound,
    /// The server info string is not in the stream.
    ServerinfoNotFound,
    /// The statistics document could not be decoded.
    InvalidKtxstats,
    /// A console message matches no event template.
    UnknownMessage,
    /// The server info names no demo file.
    FilenameNotFound,
    /// A match date ends in no known time zone.
    InvalidTimezone,
    /// The match date print that ends the countdown is not in the stream.
    CountdownNotFound,
    /// The countdown ends after the match.
    InvalidDuration,
}

impl Error {
    /// Whether this is a malformed-input fault rather than an absent value.
    pub open spec fn is_malformed(self) -> bool {
        match self {
            Error::FrameTooSmall | Error::BlockTooSmall | Error::ReadByte | Error::ReadShort
            | Error::ReadLong | Error::ReadString | Error::InsufficientLength
            | Error::MissingNullTerminator | Error::InvalidUtf8 | Error::InvalidMatchdate
            | Error::InvalidKtxstats => true,
            _ => false,
        }
    }

    /// The description of each kind of failure.
    pub open spec fn message(self) -> Seq<char> {
        match self {
            Error::FrameTooSmall => "Frame is smaller than expected size"@,
            Error::BlockTooSmall => "Block is smaller than expected size"@,
            Error::ReadByte => "failed to read byte"@,
            Error::ReadShort => "failed to read short"@,
            Error::ReadLong => "failed to read long"@,
            Error::ReadString => "failed to read string"@,
            Error::InsufficientLength => "Insufficient length"@,
            Error::MissingNullTerminator => "Missing null terminator"@,
            Error::PingsNotFound => "Unable to read pings"@,
            Error::KtxstatsNotFound => "ktxstats not found"@,
            Error::InvalidUtf8 => "invalid utf-8"@,
            Error::MatchdateNotFound => "Matchdate not found"@,
            Error::InvalidMatchdate => "Invalid matchdate"@,
            Error::ClientinfoNotFound => "Unable to find clientinfo strings"@,
            Error::ServerinfoNotFound => "Serverinfo not found"@,
            Error::InvalidKtxstats => "Invalid ktxstats"@,
            Error::UnknownMessage => "Unable to parse message"@,
            Error::FilenameNotFound => "Filename not found"@,
            Error::InvalidTimezone => "Invalid timezone abbreviation"@,
            Error::CountdownNotFound => "Countdown not found"@,
            Error::InvalidDuration => "Countdown ends after the match"@,
        }
    }

    /// A human-readable description.
    pub fn to_string(&self) -> (r: String)
        ensures
            r@ == self.message(),
    {
        let s = match self {
            Error::FrameTooSmall => "Frame is smaller than expected size",
            Error::BlockTooSmall => "Block is smaller than expected size",
            Error::ReadByte => "failed to read byte",
            Error::ReadShort => "failed to read short",
            Error::ReadLong => "failed to read long",
            Error::ReadString => "failed to read string",
            Error::InsufficientLength => "Insufficient length",
            Error::MissingNullTerminator => "Missing null terminator",
            Error::PingsNotFound => "Unable to read pings",
            Error::KtxstatsNotFound => "ktxstats not found",
            Error::InvalidUtf8 => "invalid utf-8",
            Error::MatchdateNotFound => "Matchdate not found",
            Error::InvalidMatchdate => "Invalid matchdate",
            Error::ClientinfoNotFound => "Unable to find clientinfo strings",
            Error::ServerinfoNotFound => "Serverinfo not found",
            Error::InvalidKtxstats => "Invalid ktxstats",
            Error::UnknownMessage => "Unable to parse message",
            Error::FilenameNotFound => "Filename not found",
            Error::InvalidTimezone => "Invalid timezone abbreviation",
            Error::CountdownNotFound => "Countdown not found",
            Error::InvalidDuration => "Countdown ends after the match",
        };
        s.to_owned()
    }
}

} // verus!
