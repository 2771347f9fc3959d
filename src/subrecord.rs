//! The flat sequence of (tag, length, data) entries inside a record payload.
use vstd::prelude::*;

use crate::bytes::{read_u16, u16_le};
use crate::common::{code_at, TypeCode};
use crate::error::Error;

verus! {

/// One entry of a payload: a tag and the bytes that its length prefix covers.
#[derive(Debug, Clone, Copy)]
pub struct Subrecord<'a> {
    pub code: TypeCode,
    pub data: &'a [u8],
}

/// What a subrecord holds: its tag and its data bytes.
pub struct SubrecordModel {
    pub code: TypeCode,
    pub data: Seq<u8>,
}

impl<'a> View for Subrecord<'a> {
    type V = SubrecordModel;

    open spec fn view(&self) -> SubrecordModel {
        SubrecordModel { code: self.code, data: self.data@ }
    }
}

/// The entries that make up all of `s`: each is a 4-byte tag, a little-endian 16-bit
/// length and that many data bytes. `None` when an entry runs past the end of `s`.
pub open spec fn subrecords_spec(s: Seq<u8>) -> Option<Seq<SubrecordModel>>
    decreases s.len(),
{
    if s.len() == 0 {
        Some(Seq::empty())
    } else if s.len() < 6 {
        None
    } else {
        let end = 6 + u16_le(s, 4);
        if end > s.len() {
            None
        } else {
            match subrecords_spec(s.subrange(end, s.len() as int)) {
                Some(rest) => Some(
                    seq![SubrecordModel { code: code_at(s, 0), data: s.subrange(6, end) }] + rest,
                ),
                None => None,
            }
        }
    }
}

/// The views of a sequence of subrecords.
pub open spec fn subrecords_view<'a>(v: Seq<Subrecord<'a>>) -> Seq<SubrecordModel> {
    v.map_values(|r: Subrecord<'a>| r@)
}

/// Splits all of `b` into subrecords, in order. Fails with `Truncated` when an entry
/// runs past the end of `b`.
pub fn subrecords<'a>(b: &'a [u8]) -> (r: Result<Vec<Subrecord<'a>>, Error>)
    ensures
        match (r, subrecords_spec(b@)) {
            (Ok(v), Some(m)) => subrecords_view(v@) == m,
            (Err(e), None) => e == Error::Truncated,
            _ => false,
        },
{
    let mut out: Vec<Subrecord<'a>> = Vec::new();
    let mut pos: usize = 0;
    let len = b.len();
    assert(b@.subrange(0, len as int) =~= b@);
    assert(subrecords_view(out@) =~= Seq::<SubrecordModel>::empty());
    proof {
        match subrecords_spec(b@) {
            Some(m) => {
                assert(Seq::<SubrecordModel>::empty() + m =~= m);
            },
            None => {},
        }
    }
    while pos < len
        invariant
            pos <= len == b@.len(),
            match subrecords_spec(b@.subrange(pos as int, len as int)) {
                Some(rest) => subrecords_spec(b@) == Some(subrecords_view(out@) + rest),
                None => subrecords_spec(b@) is None,
            },
        decreases len - pos,
    {
        let ghost s = b@.subrange(pos as int, len as int);
        if len - pos < 6 {
            return Err(Error::Truncated);
        }
        let n = read_u16(b, pos + 4) as usize;
        assert(u16_le(s, 4) == u16_le(b@, pos + 4));
        if len - pos - 6 < n {
            return Err(Error::Truncated);
        }
        let code = TypeCode::read(b, pos);
        let data = &b[pos + 6..pos + 6 + n];
        let ghost end = 6 + n;
        assert(s.subrange(end, s.len() as int) =~= b@.subrange(pos + end, len as int));
        assert(data@ =~= s.subrange(6, end));
        assert(code == code_at(s, 0));
        let ghost before = out@;
        out.push(Subrecord { code, data });
        proof {
            let item = SubrecordModel { code: code_at(s, 0), data: s.subrange(6, end) };
            assert(out@.drop_last() =~= before);
            assert(subrecords_view(out@) =~= subrecords_view(before).push(item));
            match subrecords_spec(s.subrange(end, s.len() as int)) {
                Some(rest) => {
                    assert(seq![item] + rest =~= Seq::empty().push(item) + rest);
                    assert(subrecords_view(out@) + rest =~= subrecords_view(before) + (seq![item]
                        + rest));
                },
                None => {},
            }
        }
        pos = pos + 6 + n;
    }
    assert(b@.subrange(pos as int, len as int) =~= Seq::<u8>::empty());
    assert(subrecords_view(out@) + Seq::<SubrecordModel>::empty() =~= subrecords_view(out@));
    Ok(out)
}

} // verus!
