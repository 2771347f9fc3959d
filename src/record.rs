//! Records: a fixed 24-byte header followed by a payload of the size that the header
//! declares, possibly zlib-compressed.
use vstd::prelude::*;
use vstd::utf8::{decode_utf8, valid_utf8};

use std::io::Read;

use crate::bytes::{read_u16, read_u32, u16_le, u32_le};
use crate::common::{code_at, tag4, text_without_terminator, without_terminator, FormId, TypeCode};
use crate::error::Error;
use crate::file_header::{file_header_data, file_header_spec, FileHeaderData, FileHeaderModel};
use crate::flags::{Flags, PluginFlags, RecordFlags};

verus! {

/// Width of every record header, in bytes.
pub const RECORD_HEADER_SIZE: usize = 24;

/// The fixed header of a record. `F` is the flag vocabulary that applies to it.
#[derive(Debug)]
pub struct RecordHeader<F> {
    pub code: TypeCode,
    /// Size of the payload that follows the header, in bytes.
    pub size: u32,
    pub flags: F,
    pub id: FormId,
    pub timestamp: u16,
    pub vc_info: u16,
    pub version: u16,
    pub unknown: u16,
    /// The editor identifier found at the start of the payload, if any.
    pub editor_id: Option<String>,
}

/// What a record header holds, with its flags as a plain word.
pub struct HeaderModel {
    pub code: TypeCode,
    pub size: u32,
    pub flags: u32,
    pub id: FormId,
    pub timestamp: u16,
    pub vc_info: u16,
    pub version: u16,
    pub unknown: u16,
    pub editor_id: Option<Seq<char>>,
}

impl<F: Flags> View for RecordHeader<F> {
    type V = HeaderModel;

    open spec fn view(&self) -> HeaderModel {
        HeaderModel {
            code: self.code,
            size: self.size,
            flags: self.flags.spec_bits(),
            id: self.id,
            timestamp: self.timestamp,
            vc_info: self.vc_info,
            version: self.version,
            unknown: self.unknown,
            editor_id: match self.editor_id {
                Some(s) => Some(s@),
                None => None,
            },
        }
    }
}

/// The payload of a record: the typed file header, or the payload bytes kept as they
/// are (after decompression).
#[derive(Debug)]
pub enum RecordData {
    FileHeader(FileHeaderData),
    Unknown(Vec<u8>),
}

/// What a record payload holds.
pub enum RecordDataModel {
    FileHeader(FileHeaderModel),
    Unknown(Seq<u8>),
}

impl View for RecordData {
    type V = RecordDataModel;

    open spec fn view(&self) -> RecordDataModel {
        match self {
            RecordData::FileHeader(d) => RecordDataModel::FileHeader(d@),
            RecordData::Unknown(v) => RecordDataModel::Unknown(v@),
        }
    }
}

/// A record: its header and its decoded payload.
#[derive(Debug)]
pub struct GenericRecord<F> {
    pub header: RecordHeader<F>,
    pub data: RecordData,
}

/// A content record.
pub type Record = GenericRecord<RecordFlags>;

/// The file header record.
pub type FileHeaderRecord = GenericRecord<PluginFlags>;

/// What a record holds.
pub struct RecordModel {
    pub header: HeaderModel,
    pub data: RecordDataModel,
}

impl<F: Flags> View for GenericRecord<F> {
    type V = RecordModel;

    open spec fn view(&self) -> RecordModel {
        RecordModel { header: self.header@, data: self.data@ }
    }
}

/// The header at the start of `s`, its flags read in vocabulary `F`.
pub open spec fn header_spec<F: Flags>(s: Seq<u8>) -> Result<HeaderModel, Error> {
    if s.len() < 24 {
        Err(Error::Truncated)
    } else if u32_le(s, 8) & !F::known_bits() != 0 {
        Err(Error::InvalidFlags(u32_le(s, 8)))
    } else {
        Ok(
            HeaderModel {
                code: code_at(s, 0),
                size: u32_le(s, 4),
                flags: u32_le(s, 8),
                id: FormId(u32_le(s, 12)),
                timestamp: u16_le(s, 16),
                vc_info: u16_le(s, 18),
                version: u16_le(s, 20),
                unknown: u16_le(s, 22),
                editor_id: None,
            },
        )
    }
}

/// Decodes the record header at `b[pos..]` with flag vocabulary `F`. Fails with
/// `Truncated` when fewer than 24 bytes remain, and with `InvalidFlags` when the flag
/// word holds a bit that `F` does not name.
pub fn record_header<F: Flags>(b: &[u8], pos: usize) -> (r: Result<RecordHeader<F>, Error>)
    requires
        pos <= b@.len(),
    ensures
        match (r, header_spec::<F>(b@.subrange(pos as int, b@.len() as int))) {
            (Ok(h), Ok(m)) => h@ == m,
            (Err(e), Err(f)) => e == f,
            _ => false,
        },
{
    let ghost s = b@.subrange(pos as int, b@.len() as int);
    if b.len() - pos < RECORD_HEADER_SIZE {
        return Err(Error::Truncated);
    }
    assert(u32_le(s, 4) == u32_le(b@, pos + 4));
    assert(u32_le(s, 8) == u32_le(b@, pos + 8));
    assert(u32_le(s, 12) == u32_le(b@, pos + 12));
    assert(u16_le(s, 16) == u16_le(b@, pos + 16));
    assert(u16_le(s, 18) == u16_le(b@, pos + 18));
    assert(u16_le(s, 20) == u16_le(b@, pos + 20));
    assert(u16_le(s, 22) == u16_le(b@, pos + 22));
    assert(code_at(s, 0) == code_at(b@, pos as int));
    let raw_flags = read_u32(b, pos + 8);
    let flags = match F::from_bits(raw_flags) {
        Some(f) => f,
        None => return Err(Error::InvalidFlags(raw_flags)),
    };
    Ok(
        RecordHeader {
            code: TypeCode::read(b, pos),
            size: read_u32(b, pos + 4),
            flags,
            id: FormId(read_u32(b, pos + 12)),
            timestamp: read_u16(b, pos + 16),
            vc_info: read_u16(b, pos + 18),
            version: read_u16(b, pos + 20),
            unknown: read_u16(b, pos + 22),
            editor_id: None,
        },
    )
}

/// What a zlib stream inflates to: the bytes of the whole stream, or `None` where the
/// stream is not valid.
pub uninterp spec fn zlib_inflated(data: Seq<u8>) -> Option<Seq<u8>>;

/// Relies on flate2's `ZlibDecoder` read to its end: it yields the bytes that the zlib
/// stream `data` encodes, or an error where the stream is corrupt; the outcome depends
/// on `data` alone.
#[verifier::external_body]
fn zlib_inflate(data: &[u8]) -> (r: Option<Vec<u8>>)
    ensures
        r matches Some(v) ==> zlib_inflated(data@) == Some(v@),
        r is None ==> zlib_inflated(data@) is None,
{
    let mut out = Vec::new();
    match flate2::read::ZlibDecoder::new(data).read_to_end(&mut out) {
        Ok(_) => Some(out),
        Err(_) => None,
    }
}

/// The outcome of inflating a payload whose prefix declares `expected` bytes, given
/// what the stream inflated to.
pub open spec fn check_inflated_spec(expected: u32, inflated: Option<Seq<u8>>) -> Result<
    Seq<u8>,
    Error,
> {
    match inflated {
        None => Err(Error::Decompression),
        Some(v) => if v.len() == expected {
            Ok(v)
        } else {
            Err(Error::DecompressedSizeMismatch { expected, actual: v.len() as usize })
        },
    }
}

/// The uncompressed form of a compressed payload `raw`: a 4-byte little-endian length,
/// then a zlib stream that must inflate to exactly that many bytes.
pub open spec fn inflate_spec(raw: Seq<u8>) -> Result<Seq<u8>, Error> {
    if raw.len() < 4 {
        Err(Error::Truncated)
    } else {
        check_inflated_spec(u32_le(raw, 0), zlib_inflated(raw.subrange(4, raw.len() as int)))
    }
}

/// Accepts what a stream inflated to when it is exactly `expected` bytes long.
pub fn check_inflated(expected: u32, inflated: Option<Vec<u8>>) -> (r: Result<Vec<u8>, Error>)
    ensures
        match (r, check_inflated_spec(
            expected,
            match inflated {
                Some(v) => Some(v@),
                None => None,
            },
        )) {
            (Ok(v), Ok(w)) => v@ == w,
            (Err(e), Err(f)) => e == f,
            _ => false,
        },
{
    match inflated {
        None => Err(Error::Decompression),
        Some(v) => if v.len() == expected as usize {
            Ok(v)
        } else {
            let actual = v.len();
            Err(Error::DecompressedSizeMismatch { expected, actual })
        },
    }
}

/// Decompresses a compressed payload (see `inflate_spec`).
pub fn decompress(raw: &[u8]) -> (r: Result<Vec<u8>, Error>)
    ensures
        match (r, inflate_spec(raw@)) {
            (Ok(v), Ok(w)) => v@ == w,
            (Err(e), Err(f)) => e == f,
            _ => false,
        },
{
    if raw.len() < 4 {
        return Err(Error::Truncated);
    }
    let expected = read_u32(raw, 0);
    let stream = &raw[4..raw.len()];
    check_inflated(expected, zlib_inflate(stream))
}

/// The payload of a record with header `h` whose stored payload is `raw`: inflated when
/// the header marks it compressed, else `raw` itself.
pub open spec fn payload_spec(h: HeaderModel, raw: Seq<u8>) -> Result<Seq<u8>, Error> {
    if h.flags & RecordFlags::COMPRESSED == RecordFlags::COMPRESSED {
        inflate_spec(raw)
    } else {
        Ok(raw)
    }
}

/// The editor identifier of a generic payload `p`: present when the first subrecord is
/// a complete `EDID` entry whose whole data is valid UTF-8; its text is that data
/// without the terminating zero byte.
pub open spec fn editor_id_spec(p: Seq<u8>) -> Option<Seq<char>> {
    if p.len() >= 6 && code_at(p, 0) == tag4('E', 'D', 'I', 'D') && 6 + u16_le(p, 4) <= p.len() {
        let d = p.subrange(6, 6 + u16_le(p, 4));
        if valid_utf8(d) {
            Some(decode_utf8(without_terminator(d)))
        } else {
            None
        }
    } else {
        None
    }
}

/// The decoded payload of a record with header `h` and stored payload `raw`, with the
/// editor identifier that it carries.
pub open spec fn data_spec(h: HeaderModel, raw: Seq<u8>) -> Result<
    (RecordDataModel, Option<Seq<char>>),
    Error,
> {
    match payload_spec(h, raw) {
        Err(e) => Err(e),
        Ok(p) => if h.code == tag4('T', 'E', 'S', '4') {
            match file_header_spec(p) {
                Ok(m) => Ok((RecordDataModel::FileHeader(m), None)),
                Err(e) => Err(e),
            }
        } else {
            Ok((RecordDataModel::Unknown(p), editor_id_spec(p)))
        },
    }
}

/// The record at the start of `s`, with the number of bytes that it takes.
#[verifier::opaque]
pub open spec fn record_spec<F: Flags>(s: Seq<u8>) -> Result<(RecordModel, int), Error> {
    match header_spec::<F>(s) {
        Err(e) => Err(e),
        Ok(h) => if s.len() - 24 < h.size {
            Err(
                Error::TruncatedPayload {
                    code: h.code,
                    declared: h.size,
                    available: (s.len() - 24) as usize,
                },
            )
        } else {
            match data_spec(h, s.subrange(24, 24 + h.size)) {
                Err(e) => Err(e),
                Ok((d, id)) => Ok(
                    (
                        RecordModel { header: HeaderModel { editor_id: id, ..h }, data: d },
                        24 + h.size,
                    ),
                ),
            }
        },
    }
}

/// Inflating a compressed payload whose stream inflates to `plain` yields exactly
/// `plain` when the 4-byte prefix declares its length, and fails with a size mismatch
/// when the prefix declares another.
pub proof fn inflate_round_trip(raw: Seq<u8>, plain: Seq<u8>)
    requires
        raw.len() >= 4,
        zlib_inflated(raw.subrange(4, raw.len() as int)) == Some(plain),
    ensures
        u32_le(raw, 0) == plain.len() ==> inflate_spec(raw) == Ok::<Seq<u8>, Error>(plain),
        u32_le(raw, 0) != plain.len() ==> inflate_spec(raw) == Err::<Seq<u8>, Error>(
            Error::DecompressedSizeMismatch {
                expected: u32_le(raw, 0),
                actual: plain.len() as usize,
            },
        ),
{
}

/// A record takes exactly its 24 header bytes and the payload size `N` that its header
/// declares, whatever the payload holds or whether it is compressed; and what it decodes
/// to depends on those `24 + N` bytes alone, never on the bytes after them.
pub proof fn record_takes_declared_size<F: Flags>(s: Seq<u8>, t: Seq<u8>)
    requires
        s.len() >= 24,
        s.len() >= 24 + u32_le(s, 4),
        t.len() >= 24 + u32_le(s, 4),
        t.subrange(0, 24 + u32_le(s, 4)) == s.subrange(0, 24 + u32_le(s, 4)),
    ensures
        record_spec::<F>(s) == record_spec::<F>(t),
        record_spec::<F>(s) matches Ok((m, n)) ==> m.header.size == u32_le(s, 4) && n == 24
            + m.header.size,
{
    reveal(record_spec);
    let n = 24 + u32_le(s, 4);
    assert forall|i: int| 0 <= i < n implies s[i] == t[i] by {
        assert(s[i] == s.subrange(0, n)[i]);
        assert(t[i] == t.subrange(0, n)[i]);
    }
    assert(header_spec::<F>(s) == header_spec::<F>(t));
    assert(s.subrange(24, n) =~= t.subrange(24, n));
}

/// A record whose header declares a payload longer than the bytes that follow it fails
/// to decode.
pub proof fn short_record_fails<F: Flags>(s: Seq<u8>)
    requires
        24 <= s.len() < 24 + u32_le(s, 4),
    ensures
        record_spec::<F>(s) is Err,
{
    reveal(record_spec);
}

/// The editor identifier at the start of a generic payload (see `editor_id_spec`).
pub fn editor_id(p: &[u8]) -> (r: Option<String>)
    ensures
        match (r, editor_id_spec(p@)) {
            (Some(s), Some(t)) => s@ == t,
            (None, None) => true,
            _ => false,
        },
{
    if p.len() < 6 || !TypeCode::read(p, 0).is_tag('E', 'D', 'I', 'D') {
        return None;
    }
    let n = read_u16(p, 4) as usize;
    if p.len() - 6 < n {
        return None;
    }
    text_without_terminator(p, 6, 6 + n)
}

/// Decodes the stored payload `raw` of a record with header `h`: inflates it when the
/// header marks it compressed, then decodes the file header payload for a `TES4` record
/// and keeps the bytes, with their editor identifier, for any other.
pub fn data<F: Flags>(h: &RecordHeader<F>, raw: &[u8]) -> (r: Result<
    (RecordData, Option<String>),
    Error,
>)
    ensures
        match (r, data_spec(h@, raw@)) {
            (Ok((d, id)), Ok((m, mid))) => d@ == m && match (id, mid) {
                (Some(s), Some(t)) => s@ == t,
                (None, None) => true,
                _ => false,
            },
            (Err(e), Err(f)) => e == f,
            _ => false,
        },
{
    let payload = if h.flags.test(RecordFlags::COMPRESSED) {
        decompress(raw)?
    } else {
        vstd::slice::slice_to_vec(raw)
    };
    if h.code.is_tag('T', 'E', 'S', '4') {
        let d = file_header_data(payload.as_slice())?;
        Ok((RecordData::FileHeader(d), None))
    } else {
        let id = editor_id(payload.as_slice());
        Ok((RecordData::Unknown(payload), id))
    }
}

/// Decodes the record at `b[pos..]` with flag vocabulary `F`; returns it with the
/// position just past its payload. Fails with `TruncatedPayload` when the payload that
/// the header declares does not fit in `b`.
pub fn generic_record<F: Flags>(b: &[u8], pos: usize) -> (r: Result<
    (GenericRecord<F>, usize),
    Error,
>)
    requires
        pos <= b@.len(),
    ensures
        match (r, record_spec::<F>(b@.subrange(pos as int, b@.len() as int))) {
            (Ok((rec, end)), Ok((m, n))) => rec@ == m && end == pos + n,
            (Err(e), Err(f)) => e == f,
            _ => false,
        },
        r matches Ok((rec, end)) ==> end == pos + RECORD_HEADER_SIZE + rec.header.size && end
            <= b@.len(),
{
    reveal(record_spec);
    let ghost s = b@.subrange(pos as int, b@.len() as int);
    let mut h = record_header::<F>(b, pos)?;
    let size = h.size as usize;
    let available = b.len() - pos - RECORD_HEADER_SIZE;
    if available < size {
        return Err(Error::TruncatedPayload { code: h.code, declared: h.size, available });
    }
    let start = pos + RECORD_HEADER_SIZE;
    let raw = &b[start..start + size];
    assert(raw@ =~= s.subrange(24, 24 + h.size));
    let (d, id) = data(&h, raw)?;
    h.editor_id = id;
    Ok((GenericRecord { header: h, data: d }, start + size))
}

/// Decodes the content record at `b[pos..]` (see `generic_record`).
pub fn record(b: &[u8], pos: usize) -> (r: Result<(Record, usize), Error>)
    requires
        pos <= b@.len(),
    ensures
        match (r, record_spec::<RecordFlags>(b@.subrange(pos as int, b@.len() as int))) {
            (Ok((rec, end)), Ok((m, n))) => rec@ == m && end == pos + n,
            (Err(e), Err(f)) => e == f,
            _ => false,
        },
        r matches Ok((rec, end)) ==> end == pos + RECORD_HEADER_SIZE + rec.header.size && end
            <= b@.len(),
{
    generic_record::<RecordFlags>(b, pos)
}

/// Decodes the file header record at `b[pos..]` (see `generic_record`).
pub fn file_header_record(b: &[u8], pos: usize) -> (r: Result<(FileHeaderRecord, usize), Error>)
    requires
        pos <= b@.len(),
    ensures
        match (r, record_spec::<PluginFlags>(b@.subrange(pos as int, b@.len() as int))) {
            (Ok((rec, end)), Ok((m, n))) => rec@ == m && end == pos + n,
            (Err(e), Err(f)) => e == f,
            _ => false,
        },
        r matches Ok((rec, end)) ==> end == pos + RECORD_HEADER_SIZE + rec.header.size && end
            <= b@.len(),
{
    generic_record::<PluginFlags>(b, pos)
}

} // verus!
