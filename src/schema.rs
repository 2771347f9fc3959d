//! Declarative layouts of record payloads: a record layout names, for each subrecord
//! tag that it knows, the primitive value that the subrecord's data starts with.
use vstd::prelude::*;
use vstd::string::StringSliceAdditionalSpecFns;

use crate::bytes::{u16_le, u32_le, u64_le};
use crate::codec::{
    FormIDParser, Int16Parser, Int32Parser, Int64Parser, Int8Parser, Uint16Parser, Uint32Parser,
    Uint64Parser, Uint8Parser, ZStringParser,
};
use crate::common::{zstring_spec, FormId, TypeCode};
use crate::error::Error;
use crate::subrecord::{subrecords, subrecords_spec, subrecords_view, SubrecordModel};

verus! {

/// The kind of primitive value that a subrecord holds.
#[derive(Debug, Clone, Copy, PartialEq, Eq, Structural)]
pub enum ValueKind {
    Uint8,
    Uint16,
    Uint32,
    Uint64,
    Int8,
    Int16,
    Int32,
    Int64,
    FormId,
    ZString,
}

/// A primitive value read from subrecord data.
#[derive(Debug, Clone, PartialEq, Eq)]
pub enum Value {
    Uint8(u8),
    Uint16(u16),
    Uint32(u32),
    Uint64(u64),
    Int8(i8),
    Int16(i16),
    Int32(i32),
    Int64(i64),
    FormId(FormId),
    ZString(String),
}

/// What a value holds.
pub enum ValueModel {
    Uint8(u8),
    Uint16(u16),
    Uint32(u32),
    Uint64(u64),
    Int8(i8),
    Int16(i16),
    Int32(i32),
    Int64(i64),
    FormId(FormId),
    ZString(Seq<char>),
}

impl View for Value {
    type V = ValueModel;

    open spec fn view(&self) -> ValueModel {
        match self {
            Value::Uint8(v) => ValueModel::Uint8(*v),
            Value::Uint16(v) => ValueModel::Uint16(*v),
            Value::Uint32(v) => ValueModel::Uint32(*v),
            Value::Uint64(v) => ValueModel::Uint64(*v),
            Value::Int8(v) => ValueModel::Int8(*v),
            Value::Int16(v) => ValueModel::Int16(*v),
            Value::Int32(v) => ValueModel::Int32(*v),
            Value::Int64(v) => ValueModel::Int64(*v),
            Value::FormId(v) => ValueModel::FormId(*v),
            Value::ZString(s) => ValueModel::ZString(s@),
        }
    }
}

/// The value of kind `kind` at the start of `d`.
pub open spec fn value_spec(kind: ValueKind, d: Seq<u8>) -> Result<ValueModel, Error> {
    match kind {
        ValueKind::Uint8 => if d.len() < 1 {
            Err(Error::Truncated)
        } else {
            Ok(ValueModel::Uint8(d[0]))
        },
        ValueKind::Uint16 => if d.len() < 2 {
            Err(Error::Truncated)
        } else {
            Ok(ValueModel::Uint16(u16_le(d, 0)))
        },
        ValueKind::Uint32 => if d.len() < 4 {
            Err(Error::Truncated)
        } else {
            Ok(ValueModel::Uint32(u32_le(d, 0)))
        },
        ValueKind::Uint64 => if d.len() < 8 {
            Err(Error::Truncated)
        } else {
            Ok(ValueModel::Uint64(u64_le(d, 0)))
        },
        ValueKind::Int8 => if d.len() < 1 {
            Err(Error::Truncated)
        } else {
            Ok(ValueModel::Int8(d[0] as i8))
        },
        ValueKind::Int16 => if d.len() < 2 {
            Err(Error::Truncated)
        } else {
            Ok(ValueModel::Int16(u16_le(d, 0) as i16))
        },
        ValueKind::Int32 => if d.len() < 4 {
            Err(Error::Truncated)
        } else {
            Ok(ValueModel::Int32(u32_le(d, 0) as i32))
        },
        ValueKind::Int64 => if d.len() < 8 {
            Err(Error::Truncated)
        } else {
            Ok(ValueModel::Int64(u64_le(d, 0) as i64))
        },
        ValueKind::FormId => if d.len() < 4 {
            Err(Error::Truncated)
        } else {
            Ok(ValueModel::FormId(FormId(u32_le(d, 0))))
        },
        ValueKind::ZString => match zstring_spec(d) {
            Ok((t, _)) => Ok(ValueModel::ZString(t)),
            Err(e) => Err(e),
        },
    }
}

/// Reads the value of kind `kind` at the start of `d`.
pub fn read_value(kind: ValueKind, d: &[u8]) -> (r: Result<Value, Error>)
    ensures
        match (r, value_spec(kind, d@)) {
            (Ok(v), Ok(m)) => v@ == m,
            (Err(e), Err(f)) => e == f,
            _ => false,
        },
{
    match kind {
        ValueKind::Uint8 => match (Uint8Parser {}).parse(d, 0) {
            Ok((v, _)) => Ok(Value::Uint8(v)),
            Err(e) => Err(e),
        },
        ValueKind::Uint16 => match (Uint16Parser {}).parse(d, 0) {
            Ok((v, _)) => Ok(Value::Uint16(v)),
            Err(e) => Err(e),
        },
        ValueKind::Uint32 => match (Uint32Parser {}).parse(d, 0) {
            Ok((v, _)) => Ok(Value::Uint32(v)),
            Err(e) => Err(e),
        },
        ValueKind::Uint64 => match (Uint64Parser {}).parse(d, 0) {
            Ok((v, _)) => Ok(Value::Uint64(v)),
            Err(e) => Err(e),
        },
        ValueKind::Int8 => match (Int8Parser {}).parse(d, 0) {
            Ok((v, _)) => Ok(Value::Int8(v)),
            Err(e) => Err(e),
        },
        ValueKind::Int16 => match (Int16Parser {}).parse(d, 0) {
            Ok((v, _)) => Ok(Value::Int16(v)),
            Err(e) => Err(e),
        },
        ValueKind::Int32 => match (Int32Parser {}).parse(d, 0) {
            Ok((v, _)) => Ok(Value::Int32(v)),
            Err(e) => Err(e),
        },
        ValueKind::Int64 => match (Int64Parser {}).parse(d, 0) {
            Ok((v, _)) => Ok(Value::Int64(v)),
            Err(e) => Err(e),
        },
        ValueKind::FormId => match (FormIDParser {}).parse(d, 0) {
            Ok((v, _)) => Ok(Value::FormId(v)),
            Err(e) => Err(e),
        },
        ValueKind::ZString => {
            assert(d@.subrange(0, d@.len() as int) =~= d@);
            match (ZStringParser {}).parse(d, 0) {
                Ok((v, _)) => Ok(Value::ZString(v)),
                Err(e) => Err(e),
            }
        },
    }
}

/// The layout of one subrecord: its tag, a display name, and the kind of value that its
/// data starts with (none where the data is skipped).
#[derive(Debug, Clone)]
pub struct ValueSubrecordParser {
    pub code: TypeCode,
    pub name: String,
    pub value: Option<ValueKind>,
}

/// What a subrecord layout holds.
pub struct SubrecordLayout {
    pub code: TypeCode,
    pub name: Seq<char>,
    pub value: Option<ValueKind>,
}

impl View for ValueSubrecordParser {
    type V = SubrecordLayout;

    open spec fn view(&self) -> SubrecordLayout {
        SubrecordLayout { code: self.code, name: self.name@, value: self.value }
    }
}

impl ValueSubrecordParser {
    /// The layout of subrecord `code`, named `name`, whose data is skipped; `None` unless
    /// `code` is exactly four bytes of UTF-8.
    pub fn new(code: &str, name: &str) -> (r: Option<ValueSubrecordParser>)
        ensures
            r is Some <==> code.spec_bytes().len() == 4,
            r matches Some(p) ==> p.code.0@ == code.spec_bytes() && p.name@ == name@ && p.value
                is None,
    {
        match TypeCode::from_utf8(code) {
            Some(c) => Some(ValueSubrecordParser { code: c, name: name.to_owned(), value: None }),
            None => None,
        }
    }

    /// The same layout, with the data read as a value of kind `kind`.
    pub fn with_value(self, kind: ValueKind) -> (r: ValueSubrecordParser)
        ensures
            r.code == self.code && r.name@ == self.name@ && r.value == Some(kind),
    {
        ValueSubrecordParser { value: Some(kind), ..self }
    }
}

/// The layout of a record: its tag, a display name, and the layouts of the subrecords
/// that it knows.
#[derive(Debug, Clone)]
pub struct RecordParser {
    pub code: TypeCode,
    pub name: String,
    pub subrecords: Vec<ValueSubrecordParser>,
}

/// The views of a sequence of subrecord layouts.
pub open spec fn layouts_view(v: Seq<ValueSubrecordParser>) -> Seq<SubrecordLayout> {
    v.map_values(|p: ValueSubrecordParser| p@)
}

/// The last of `layouts` with tag `code`, if any.
pub open spec fn layout_for(layouts: Seq<SubrecordLayout>, code: TypeCode) -> Option<
    SubrecordLayout,
>
    decreases layouts.len(),
{
    if layouts.len() == 0 {
        None
    } else if layouts.last().code == code {
        Some(layouts.last())
    } else {
        layout_for(layouts.drop_last(), code)
    }
}

/// The named values that the subrecords `subs` hold under `layouts`, in order: one for
/// each subrecord whose layout reads a value; others are skipped.
pub open spec fn fields_fold(layouts: Seq<SubrecordLayout>, subs: Seq<SubrecordModel>) -> Result<
    Seq<(Seq<char>, ValueModel)>,
    Error,
>
    decreases subs.len(),
{
    if subs.len() == 0 {
        Ok(Seq::empty())
    } else {
        match fields_fold(layouts, subs.drop_last()) {
            Err(e) => Err(e),
            Ok(acc) => match layout_for(layouts, subs.last().code) {
                Some(l) => match l.value {
                    Some(k) => match value_spec(k, subs.last().data) {
                        Ok(v) => Ok(acc.push((l.name, v))),
                        Err(e) => Err(e),
                    },
                    None => Ok(acc),
                },
                None => Ok(acc),
            },
        }
    }
}

/// The named values that the payload `p` holds under `layouts`.
pub open spec fn fields_spec(layouts: Seq<SubrecordLayout>, p: Seq<u8>) -> Result<
    Seq<(Seq<char>, ValueModel)>,
    Error,
> {
    match subrecords_spec(p) {
        Some(subs) => fields_fold(layouts, subs),
        None => Err(Error::Truncated),
    }
}

/// The views of a sequence of named values.
pub open spec fn fields_view(v: Seq<(String, Value)>) -> Seq<(Seq<char>, ValueModel)> {
    v.map_values(|f: (String, Value)| (f.0@, f.1@))
}

proof fn lemma_fields_error_stays(
    layouts: Seq<SubrecordLayout>,
    subs: Seq<SubrecordModel>,
    j: int,
    k: int,
    e: Error,
)
    requires
        0 <= j <= k <= subs.len(),
        fields_fold(layouts, subs.take(j)) == Err::<Seq<(Seq<char>, ValueModel)>, Error>(e),
    ensures
        fields_fold(layouts, subs.take(k)) == Err::<Seq<(Seq<char>, ValueModel)>, Error>(e),
    decreases k - j,
{
    if k > j {
        lemma_fields_error_stays(layouts, subs, j, k - 1, e);
        assert(subs.take(k).drop_last() =~= subs.take(k - 1));
    }
}

/// The last layout of `layouts` with tag `code`, if any.
fn find_layout(layouts: &Vec<ValueSubrecordParser>, code: &TypeCode) -> (r: Option<usize>)
    ensures
        match (r, layout_for(layouts_view(layouts@), *code)) {
            (Some(j), Some(l)) => j < layouts@.len() && layouts@[j as int]@ == l,
            (None, None) => true,
            _ => false,
        },
{
    let ghost v = layouts_view(layouts@);
    let mut i = layouts.len();
    assert(v.take(i as int) =~= v);
    while i > 0
        invariant
            i <= layouts@.len() == v.len(),
            v == layouts_view(layouts@),
            layout_for(v, *code) == layout_for(v.take(i as int), *code),
        decreases i,
    {
        assert(v.take(i as int).drop_last() =~= v.take(i - 1));
        assert(v.take(i as int).last() == layouts@[i - 1]@);
        if layouts[i - 1].code.same(code) {
            return Some(i - 1);
        }
        i -= 1;
    }
    None
}

impl RecordParser {
    /// The layout of record `code`, named `name`, that knows no subrecord; `None` unless
    /// `code` is exactly four bytes of UTF-8.
    pub fn new(code: &str, name: &str) -> (r: Option<RecordParser>)
        ensures
            r is Some <==> code.spec_bytes().len() == 4,
            r matches Some(p) ==> p.code.0@ == code.spec_bytes() && p.name@ == name@
                && p.subrecords@.len() == 0,
    {
        match TypeCode::from_utf8(code) {
            Some(c) => Some(
                RecordParser { code: c, name: name.to_owned(), subrecords: Vec::new() },
            ),
            None => None,
        }
    }

    /// The same layout, knowing subrecord layout `parser` too; it takes precedence over
    /// any earlier layout of the same tag.
    pub fn with_subrecord(self, parser: ValueSubrecordParser) -> (r: RecordParser)
        ensures
            r.code == self.code && r.name@ == self.name@,
            layouts_view(r.subrecords@) == layouts_view(self.subrecords@).push(parser@),
    {
        let mut r = self;
        let ghost before = r.subrecords@;
        let ghost item = parser@;
        r.subrecords.push(parser);
        assert(layouts_view(r.subrecords@) =~= layouts_view(before).push(item));
        r
    }

    /// Reads the named values of the payload `p` (see `fields_spec`). Fails when the
    /// subrecords do not tile `p`, or a value is cut short or holds a string that is
    /// unterminated or not UTF-8.
    pub fn parse(&self, p: &[u8]) -> (r: Result<Vec<(String, Value)>, Error>)
        ensures
            match (r, fields_spec(layouts_view(self.subrecords@), p@)) {
                (Ok(v), Ok(m)) => fields_view(v@) == m,
                (Err(e), Err(f)) => e == f,
                _ => false,
            },
    {
        let ghost layouts = layouts_view(self.subrecords@);
        let subs = match subrecords(p) {
            Ok(v) => v,
            Err(e) => return Err(e),
        };
        let ghost model = subrecords_view(subs@);
        let mut out: Vec<(String, Value)> = Vec::new();
        assert(model.take(0) =~= Seq::<SubrecordModel>::empty());
        assert(fields_view(out@) =~= Seq::<(Seq<char>, ValueModel)>::empty());
        let mut i: usize = 0;
        while i < subs.len()
            invariant
                i <= subs@.len(),
                model == subrecords_view(subs@),
                layouts == layouts_view(self.subrecords@),
                subrecords_spec(p@) == Some(model),
                fields_fold(layouts, model.take(i as int)) == Ok::<
                    Seq<(Seq<char>, ValueModel)>,
                    Error,
                >(fields_view(out@)),
            decreases subs@.len() - i,
        {
            let sub = &subs[i];
            assert(model.take(i + 1).drop_last() =~= model.take(i as int));
            assert(model.take(i + 1).last() == sub@);
            if let Some(j) = find_layout(&self.subrecords, &sub.code) {
                let layout = &self.subrecords[j];
                if let Some(kind) = layout.value {
                    match read_value(kind, sub.data) {
                        Ok(v) => {
                            let ghost before = out@;
                            let ghost item = (layout.name@, v@);
                            out.push((layout.name.clone(), v));
                            assert(fields_view(out@) =~= fields_view(before).push(item));
                        },
                        Err(e) => {
                            proof {
                                lemma_fields_error_stays(
                                    layouts,
                                    model,
                                    i + 1,
                                    model.len() as int,
                                    e,
                                );
                                assert(model.take(model.len() as int) =~= model);
                            }
                            return Err(e);
                        },
                    }
                }
            }
            i += 1;
        }
        assert(model.take(i as int) =~= model);
        Ok(out)
    }
}

} // verus!
