//! Cursor-style codecs for the primitive values that subrecord data holds: each reads
//! one value at a position and returns it with the position just past it, or fails when
//! too few bytes remain.
use vstd::prelude::*;

use crate::bytes::{read_u16, read_u32, read_u64, u16_le, u32_le, u64_le};
use crate::common::{zstring, zstring_spec, FormId};
use crate::error::Error;

verus! {

/// Reads an unsigned 8-bit value.
pub struct Uint8Parser {}

/// Reads a little-endian unsigned 16-bit value.
pub struct Uint16Parser {}

/// Reads a little-endian unsigned 32-bit value.
pub struct Uint32Parser {}

/// Reads a little-endian unsigned 64-bit value.
pub struct Uint64Parser {}

/// Reads a signed 8-bit value.
pub struct Int8Parser {}

/// Reads a little-endian signed 16-bit value.
pub struct Int16Parser {}

/// Reads a little-endian signed 32-bit value.
pub struct Int32Parser {}

/// Reads a little-endian signed 64-bit value.
pub struct Int64Parser {}

/// Reads a little-endian 32-bit form id.
pub struct FormIDParser {}

/// Reads a null-terminated UTF-8 string.
pub struct ZStringParser {}

impl Uint8Parser {
    pub fn parse(&self, b: &[u8], pos: usize) -> (r: Result<(u8, usize), Error>)
        requires
            pos <= b@.len(),
        ensures
            r matches Ok((v, end)) ==> pos + 1 <= b@.len() && v == b@[pos as int] && end == pos
                + 1,
            r matches Err(e) ==> pos + 1 > b@.len() && e == Error::Truncated,
    {
        if b.len() - pos < 1 {
            return Err(Error::Truncated);
        }
        Ok((b[pos], pos + 1))
    }
}

impl Uint16Parser {
    pub fn parse(&self, b: &[u8], pos: usize) -> (r: Result<(u16, usize), Error>)
        requires
            pos <= b@.len(),
        ensures
            r matches Ok((v, end)) ==> pos + 2 <= b@.len() && v == u16_le(b@, pos as int) && end
                == pos + 2,
            r matches Err(e) ==> pos + 2 > b@.len() && e == Error::Truncated,
    {
        if b.len() - pos < 2 {
            return Err(Error::Truncated);
        }
        Ok((read_u16(b, pos), pos + 2))
    }
}

impl Uint32Parser {
    pub fn parse(&self, b: &[u8], pos: usize) -> (r: Result<(u32, usize), Error>)
        requires
            pos <= b@.len(),
        ensures
            r matches Ok((v, end)) ==> pos + 4 <= b@.len() && v == u32_le(b@, pos as int) && end
                == pos + 4,
            r matches Err(e) ==> pos + 4 > b@.len() && e == Error::Truncated,
    {
        if b.len() - pos < 4 {
            return Err(Error::Truncated);
        }
        Ok((read_u32(b, pos), pos + 4))
    }
}

impl Uint64Parser {
    pub fn parse(&self, b: &[u8], pos: usize) -> (r: Result<(u64, usize), Error>)
        requires
            pos <= b@.len(),
        ensures
            r matches Ok((v, end)) ==> pos + 8 <= b@.len() && v == u64_le(b@, pos as int) && end
                == pos + 8,
            r matches Err(e) ==> pos + 8 > b@.len() && e == Error::Truncated,
    {
        if b.len() - pos < 8 {
            return Err(Error::Truncated);
        }
        Ok((read_u64(b, pos), pos + 8))
    }
}

impl Int8Parser {
    pub fn parse(&self, b: &[u8], pos: usize) -> (r: Result<(i8, usize), Error>)
        requires
            pos <= b@.len(),
        ensures
            r matches Ok((v, end)) ==> pos + 1 <= b@.len() && v == b@[pos as int] as i8 && end
                == pos + 1,
            r matches Err(e) ==> pos + 1 > b@.len() && e == Error::Truncated,
    {
        if b.len() - pos < 1 {
            return Err(Error::Truncated);
        }
        Ok((b[pos] as i8, pos + 1))
    }
}

impl Int16Parser {
    pub fn parse(&self, b: &[u8], pos: usize) -> (r: Result<(i16, usize), Error>)
        requires
            pos <= b@.len(),
        ensures
            r matches Ok((v, end)) ==> pos + 2 <= b@.len() && v == u16_le(b@, pos as int) as i16
                && end == pos + 2,
            r matches Err(e) ==> pos + 2 > b@.len() && e == Error::Truncated,
    {
        if b.len() - pos < 2 {
            return Err(Error::Truncated);
        }
        Ok((read_u16(b, pos) as i16, pos + 2))
    }
}

impl Int32Parser {
    pub fn parse(&self, b: &[u8], pos: usize) -> (r: Result<(i32, usize), Error>)
        requires
            pos <= b@.len(),
        ensures
            r matches Ok((v, end)) ==> pos + 4 <= b@.len() && v == u32_le(b@, pos as int) as i32
                && end == pos + 4,
            r matches Err(e) ==> pos + 4 > b@.len() && e == Error::Truncated,
    {
        if b.len() - pos < 4 {
            return Err(Error::Truncated);
        }
        Ok((read_u32(b, pos) as i32, pos + 4))
    }
}

impl Int64Parser {
    pub fn parse(&self, b: &[u8], pos: usize) -> (r: Result<(i64, usize), Error>)
        requires
            pos <= b@.len(),
        ensures
            r matches Ok((v, end)) ==> pos + 8 <= b@.len() && v == u64_le(b@, pos as int) as i64
                && end == pos + 8,
            r matches Err(e) ==> pos + 8 > b@.len() && e == Error::Truncated,
    {
        if b.len() - pos < 8 {
            return Err(Error::Truncated);
        }
        Ok((read_u64(b, pos) as i64, pos + 8))
    }
}

impl FormIDParser {
    pub fn parse(&self, b: &[u8], pos: usize) -> (r: Result<(FormId, usize), Error>)
        requires
            pos <= b@.len(),
        ensures
            r matches Ok((v, end)) ==> pos + 4 <= b@.len() && v == FormId(u32_le(b@, pos as int))
                && end == pos + 4,
            r matches Err(e) ==> pos + 4 > b@.len() && e == Error::Truncated,
    {
        if b.len() - pos < 4 {
            return Err(Error::Truncated);
        }
        Ok((FormId(read_u32(b, pos)), pos + 4))
    }
}

impl ZStringParser {
    pub fn parse(&self, b: &[u8], pos: usize) -> (r: Result<(String, usize), Error>)
        requires
            pos <= b@.len(),
        ensures
            match (r, zstring_spec(b@.subrange(pos as int, b@.len() as int))) {
                (Ok((s, end)), Ok((t, n))) => s@ == t && end == pos + n,
                (Err(e), Err(f)) => e == f,
                _ => false,
            },
    {
        zstring(b, pos)
    }
}

} // verus!
