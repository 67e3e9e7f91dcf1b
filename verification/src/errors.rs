//! The errors of the reader.

use vstd::prelude::*;

verus! {

/// The ways in which reading a map file can fail.
#[derive(Clone, Copy, Debug, PartialEq, Eq, Structural)]
pub enum ErrorKind {
    /// The byte source could not be positioned or read.
    IoError,
    /// The file does not start with the magic bytes.
    InvalidMagic,
    /// A header field is outside its permitted bounds.
    MalformedHeader,
    /// The file version is not one this reader understands.
    UnsupportedVersion,
    /// The projection is not spherical Mercator.
    UnsupportedProjection,
    /// A tag id has no entry in the tag dictionary.
    InvalidTagId,
    /// A variable-byte integer, a string or a counter is not well formed.
    InvalidEncoding,
    /// A debug file lacks the marker that opens a block, a POI or a way.
    InvalidSignature,
    /// A read would pass the end of the loaded region.
    BufferOverrun,
    /// More bytes were requested than the buffer may hold.
    TooLarge,
    /// The caller passed a malformed tile, tile rectangle, zoom level or
    /// block number.
    InvalidRange,
}

/// An error of the reader: its kind, and the offending value where there is
/// one (otherwise zero).
#[derive(Clone, Copy, Debug, PartialEq, Eq, Structural)]
pub struct MapFileException {
    pub kind: ErrorKind,
    pub value: i64,
}

impl MapFileException {
    /// The error of the given kind that carries the given value.
    pub fn new(kind: ErrorKind, value: i64) -> (e: Self)
        ensures
            e.kind == kind,
            e.value == value,
    {
        MapFileException { kind, value }
    }

    /// The error of the given kind that carries no value.
    pub open spec fn of(kind: ErrorKind) -> Self {
        MapFileException { kind, value: 0 }
    }

    /// A short description of the kind of error.
    pub fn message(&self) -> (text: String)
        ensures
            text@ == Self::description(self.kind),
    {
        match self.kind {
            ErrorKind::IoError => "the byte source failed".to_string(),
            ErrorKind::InvalidMagic => "invalid magic bytes".to_string(),
            ErrorKind::MalformedHeader => "malformed header".to_string(),
            ErrorKind::UnsupportedVersion => "unsupported file version".to_string(),
            ErrorKind::UnsupportedProjection => "unsupported projection".to_string(),
            ErrorKind::InvalidTagId => "invalid tag id".to_string(),
            ErrorKind::InvalidEncoding => "invalid encoding".to_string(),
            ErrorKind::InvalidSignature => "invalid signature".to_string(),
            ErrorKind::BufferOverrun => "read past the end of the buffer".to_string(),
            ErrorKind::TooLarge => "requested region is too large".to_string(),
            ErrorKind::InvalidRange => "invalid tile range, zoom level or block number".to_string(),
        }
    }

    /// The description of each kind of error.
    pub open spec fn description(kind: ErrorKind) -> Seq<char> {
        match kind {
            ErrorKind::IoError => "the byte source failed"@,
            ErrorKind::InvalidMagic => "invalid magic bytes"@,
            ErrorKind::MalformedHeader => "malformed header"@,
            ErrorKind::UnsupportedVersion => "unsupported file version"@,
            ErrorKind::UnsupportedProjection => "unsupported projection"@,
            ErrorKind::InvalidTagId => "invalid tag id"@,
            ErrorKind::InvalidEncoding => "invalid encoding"@,
            ErrorKind::InvalidSignature => "invalid signature"@,
            ErrorKind::BufferOverrun => "read past the end of the buffer"@,
            ErrorKind::TooLarge => "requested region is too large"@,
            ErrorKind::InvalidRange => "invalid tile range, zoom level or block number"@,
        }
    }
}

} // verus!
