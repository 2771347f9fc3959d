//! The ways in which decoding a plugin can fail.
use vstd::prelude::*;

use crate::common::TypeCode;
use crate::group::GroupType;

verus! {

/// A decode failure. Decoding stops at the first one.
#[derive(Debug, Clone, Copy, PartialEq, Eq)]
pub enum Error {
    /// The input ended before a fixed-width field or a subrecord was complete.
    Truncated,
    /// A record declares a payload longer than the bytes that follow its header.
    TruncatedPayload { code: TypeCode, declared: u32, available: usize },
    /// A group declares a total size larger than the bytes that remain.
    TruncatedGroup { declared: u32, available: usize },
    /// A flag word holds a bit that the vocabulary in use does not name.
    InvalidFlags(u32),
    /// A group header holds a kind code outside the ten known kinds.
    InvalidGroupType(i32),
    /// A group declares a total size smaller than its own header.
    InvalidGroupSize(u32),
    /// A group header does not start with the group tag.
    NotAGroup(TypeCode),
    /// A group at the top level of the file is not of the top-level kind.
    NotATopGroup(GroupType),
    /// A compressed payload is not a valid zlib stream.
    Decompression,
    /// A compressed payload inflated to another length than its prefix declares.
    DecompressedSizeMismatch { expected: u32, actual: usize },
    /// A mandatory string is not valid UTF-8.
    InvalidUtf8,
}

} // verus!
