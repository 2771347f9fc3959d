//! Groups: a fixed 24-byte header whose kind decides how its 4-byte label reads,
//! followed by a body of the size that the header declares.
use vstd::prelude::*;

use crate::bytes::{i32_le, read_i32, read_u16, read_u32, u16_le, u32_le};
use crate::common::{code_at, tag4, FormId, TypeCode};
use crate::error::Error;
use crate::flags::RecordFlags;
use crate::record::{record, record_spec, Record, RecordModel};

verus! {

/// Width of every group header, in bytes.
pub const GROUP_HEADER_SIZE: usize = 24;

/// The kind of a group, which decides what its label means.
#[derive(Debug, Clone, Copy, PartialEq, Eq, Structural)]
pub enum GroupType {
    Top,
    WorldChildren,
    InteriorCellBlock,
    InteriorCellSubBlock,
    ExteriorCellBlock,
    ExteriorCellSubBlock,
    CellChildren,
    TopicChildren,
    CellPersistentChildren,
    CellTemporaryChildren,
}

/// The kind that a group kind code stands for, if any.
pub open spec fn group_type_spec(code: i32) -> Option<GroupType> {
    if code == 0 {
        Some(GroupType::Top)
    } else if code == 1 {
        Some(GroupType::WorldChildren)
    } else if code == 2 {
        Some(GroupType::InteriorCellBlock)
    } else if code == 3 {
        Some(GroupType::InteriorCellSubBlock)
    } else if code == 4 {
        Some(GroupType::ExteriorCellBlock)
    } else if code == 5 {
        Some(GroupType::ExteriorCellSubBlock)
    } else if code == 6 {
        Some(GroupType::CellChildren)
    } else if code == 7 {
        Some(GroupType::TopicChildren)
    } else if code == 8 {
        Some(GroupType::CellPersistentChildren)
    } else if code == 9 {
        Some(GroupType::CellTemporaryChildren)
    } else {
        None
    }
}

impl GroupType {
    /// The kind with kind code `code`; `None` for a code outside `0..=9`.
    pub fn from_code(code: i32) -> (r: Option<GroupType>)
        ensures
            r == group_type_spec(code),
    {
        match code {
            0 => Some(GroupType::Top),
            1 => Some(GroupType::WorldChildren),
            2 => Some(GroupType::InteriorCellBlock),
            3 => Some(GroupType::InteriorCellSubBlock),
            4 => Some(GroupType::ExteriorCellBlock),
            5 => Some(GroupType::ExteriorCellSubBlock),
            6 => Some(GroupType::CellChildren),
            7 => Some(GroupType::TopicChildren),
            8 => Some(GroupType::CellPersistentChildren),
            9 => Some(GroupType::CellTemporaryChildren),
            _ => None,
        }
    }
}

/// A group's label, read according to the group's kind.
#[derive(Debug, Clone, Copy)]
pub enum Label {
    BlockNumber(i32),
    GridCoordinate([u16; 2]),
    ParentCell(FormId),
    ParentDialog(FormId),
    ParentWorld(FormId),
    RecordType(TypeCode),
    SubBlockNumber(i32),
}

/// The label that the four bytes `s` stand for in a group of kind `t`.
pub open spec fn label_spec(s: Seq<u8>, t: GroupType) -> Label {
    match t {
        GroupType::Top => Label::RecordType(code_at(s, 0)),
        GroupType::WorldChildren => Label::ParentWorld(FormId(u32_le(s, 0))),
        GroupType::InteriorCellBlock => Label::BlockNumber(i32_le(s, 0)),
        GroupType::InteriorCellSubBlock => Label::SubBlockNumber(i32_le(s, 0)),
        GroupType::ExteriorCellBlock => Label::GridCoordinate([u16_le(s, 0), u16_le(s, 2)]),
        GroupType::ExteriorCellSubBlock => Label::GridCoordinate([u16_le(s, 0), u16_le(s, 2)]),
        GroupType::CellChildren => Label::ParentCell(FormId(u32_le(s, 0))),
        GroupType::TopicChildren => Label::ParentDialog(FormId(u32_le(s, 0))),
        GroupType::CellPersistentChildren => Label::ParentCell(FormId(u32_le(s, 0))),
        GroupType::CellTemporaryChildren => Label::ParentCell(FormId(u32_le(s, 0))),
    }
}

/// Reads the label at `b[pos..pos + 4]` as a group of kind `t` has it.
pub fn label_given_type(b: &[u8], pos: usize, t: GroupType) -> (r: Label)
    requires
        pos + 4 <= b@.len(),
    ensures
        r == label_spec(b@.subrange(pos as int, pos + 4), t),
{
    let ghost s = b@.subrange(pos as int, pos + 4);
    let _len = b.len();
    assert(u32_le(s, 0) == u32_le(b@, pos as int));
    assert(u16_le(s, 0) == u16_le(b@, pos as int));
    assert(u16_le(s, 2) == u16_le(b@, pos + 2));
    assert(code_at(s, 0) == code_at(b@, pos as int));
    match t {
        GroupType::Top => Label::RecordType(TypeCode::read(b, pos)),
        GroupType::WorldChildren => Label::ParentWorld(FormId(read_u32(b, pos))),
        GroupType::InteriorCellBlock => Label::BlockNumber(read_i32(b, pos)),
        GroupType::InteriorCellSubBlock => Label::SubBlockNumber(read_i32(b, pos)),
        GroupType::ExteriorCellBlock => Label::GridCoordinate(
            [read_u16(b, pos), read_u16(b, pos + 2)],
        ),
        GroupType::ExteriorCellSubBlock => Label::GridCoordinate(
            [read_u16(b, pos), read_u16(b, pos + 2)],
        ),
        GroupType::CellChildren => Label::ParentCell(FormId(read_u32(b, pos))),
        GroupType::TopicChildren => Label::ParentDialog(FormId(read_u32(b, pos))),
        GroupType::CellPersistentChildren => Label::ParentCell(FormId(read_u32(b, pos))),
        GroupType::CellTemporaryChildren => Label::ParentCell(FormId(read_u32(b, pos))),
    }
}

/// The body of a group: its records in file order, or its bytes kept as they are.
#[derive(Debug)]
pub enum GroupData {
    Records(Vec<Record>),
    Unimplemented(Vec<u8>),
}

/// What a group body holds.
pub enum GroupDataModel {
    Records(Seq<RecordModel>),
    Unimplemented(Seq<u8>),
}

impl View for GroupData {
    type V = GroupDataModel;

    open spec fn view(&self) -> GroupDataModel {
        match self {
            GroupData::Records(v) => GroupDataModel::Records(records_view(v@)),
            GroupData::Unimplemented(v) => GroupDataModel::Unimplemented(v@),
        }
    }
}

/// The views of a sequence of records.
pub open spec fn records_view(v: Seq<Record>) -> Seq<RecordModel> {
    v.map_values(|r: Record| r@)
}

/// A group: its header fields and its body.
#[derive(Debug)]
pub struct Group {
    /// Total size of the group, header included, in bytes.
    pub size: u32,
    pub label: Label,
    pub group_type: GroupType,
    pub timestamp: u16,
    pub vc_info: u16,
    pub data: GroupData,
}

impl Group {
    /// The record category of a top-level group, whose label is a type code.
    pub fn category(&self) -> (r: TypeCode)
        requires
            self.label is RecordType,
        ensures
            self.label == Label::RecordType(r),
    {
        match self.label {
            Label::RecordType(c) => c,
            _ => TypeCode([0, 0, 0, 0]),
        }
    }
}

/// What a group holds.
pub struct GroupModel {
    pub size: u32,
    pub label: Label,
    pub group_type: GroupType,
    pub timestamp: u16,
    pub vc_info: u16,
    pub data: GroupDataModel,
}

impl View for Group {
    type V = GroupModel;

    open spec fn view(&self) -> GroupModel {
        GroupModel {
            size: self.size,
            label: self.label,
            group_type: self.group_type,
            timestamp: self.timestamp,
            vc_info: self.vc_info,
            data: self.data@,
        }
    }
}

/// The records that tile all of `s`, in order.
pub open spec fn records_spec(s: Seq<u8>) -> Result<Seq<RecordModel>, Error>
    decreases s.len(),
    via records_spec_decreases
{
    if s.len() == 0 {
        Ok(Seq::empty())
    } else {
        match record_spec::<RecordFlags>(s) {
            Err(e) => Err(e),
            Ok((r, n)) => match records_spec(s.subrange(n, s.len() as int)) {
                Err(e) => Err(e),
                Ok(rest) => Ok(seq![r] + rest),
            },
        }
    }
}

#[via_fn]
proof fn records_spec_decreases(s: Seq<u8>) {
    if s.len() != 0 {
        match record_spec::<RecordFlags>(s) {
            Ok((r, n)) => {
                reveal(record_spec);
                assert(24 <= n <= s.len());
            },
            Err(_) => {},
        }
    }
}

/// True for the top-level categories whose nested structure is kept as bytes: worlds,
/// cells and dialogue topics.
pub open spec fn is_nested_category(c: TypeCode) -> bool {
    c == tag4('C', 'E', 'L', 'L') || c == tag4('W', 'R', 'L', 'D') || c == tag4('D', 'I', 'A', 'L')
}

/// The body of a group of kind `t` with label `label`, from its bytes `body`.
pub open spec fn group_data_spec(t: GroupType, label: Label, body: Seq<u8>) -> Result<
    GroupDataModel,
    Error,
> {
    match (t, label) {
        (GroupType::Top, Label::RecordType(c)) => if is_nested_category(c) {
            Ok(GroupDataModel::Unimplemented(body))
        } else {
            match records_spec(body) {
                Ok(rs) => Ok(GroupDataModel::Records(rs)),
                Err(e) => Err(e),
            }
        },
        _ => Ok(GroupDataModel::Unimplemented(body)),
    }
}

/// The group at the start of `s`, with the number of bytes that it takes.
#[verifier::opaque]
pub open spec fn group_spec(s: Seq<u8>) -> Result<(GroupModel, int), Error> {
    if s.len() < 24 {
        Err(Error::Truncated)
    } else if code_at(s, 0) != tag4('G', 'R', 'U', 'P') {
        Err(Error::NotAGroup(code_at(s, 0)))
    } else {
        match group_type_spec(i32_le(s, 12)) {
            None => Err(Error::InvalidGroupType(i32_le(s, 12))),
            Some(t) => {
                let size = u32_le(s, 4);
                if size < 24 {
                    Err(Error::InvalidGroupSize(size))
                } else if size > s.len() {
                    Err(Error::TruncatedGroup { declared: size, available: s.len() as usize })
                } else {
                    let label = label_spec(s.subrange(8, 12), t);
                    match group_data_spec(t, label, s.subrange(24, size as int)) {
                        Err(e) => Err(e),
                        Ok(d) => Ok(
                            (
                                GroupModel {
                                    size,
                                    label,
                                    group_type: t,
                                    timestamp: u16_le(s, 16),
                                    vc_info: u16_le(s, 18),
                                    data: d,
                                },
                                size as int,
                            ),
                        ),
                    }
                }
            },
        }
    }
}

/// The bytes that the records `rs` took: each its header and its declared payload.
pub open spec fn records_extent(rs: Seq<RecordModel>) -> int
    decreases rs.len(),
{
    if rs.len() == 0 {
        0
    } else {
        24 + rs[0].header.size + records_extent(rs.drop_first())
    }
}

/// The bytes that a group body took.
pub open spec fn body_extent(d: GroupDataModel) -> int {
    match d {
        GroupDataModel::Records(rs) => records_extent(rs),
        GroupDataModel::Unimplemented(b) => b.len() as int,
    }
}

proof fn lemma_records_extent(s: Seq<u8>)
    ensures
        records_spec(s) matches Ok(rs) ==> records_extent(rs) == s.len(),
    decreases s.len(),
{
    if s.len() != 0 {
        reveal(record_spec);
        match record_spec::<RecordFlags>(s) {
            Ok((r, n)) => {
                let rest = s.subrange(n, s.len() as int);
                lemma_records_extent(rest);
                match records_spec(rest) {
                    Ok(more) => {
                        assert((seq![r] + more).drop_first() =~= more);
                    },
                    Err(_) => {},
                }
            },
            Err(_) => {},
        }
    }
}

/// A group takes exactly the total size that its header declares, at least its 24
/// header bytes; its body takes that size less the header, whether it is kept as bytes
/// or decoded into records, which then tile it exactly.
pub proof fn group_takes_declared_size(s: Seq<u8>)
    ensures
        group_spec(s) matches Ok((g, n)) ==> n == g.size && g.size >= 24 && body_extent(g.data)
            == g.size - 24,
{
    reveal(group_spec);
    if s.len() >= 24 && s.len() >= u32_le(s, 4) >= 24 {
        lemma_records_extent(s.subrange(24, u32_le(s, 4) as int));
    }
}

/// Decodes the records that tile all of `body`, in order.
pub fn records(body: &[u8]) -> (r: Result<Vec<Record>, Error>)
    ensures
        match (r, records_spec(body@)) {
            (Ok(v), Ok(m)) => records_view(v@) == m,
            (Err(e), Err(f)) => e == f,
            _ => false,
        },
{
    let mut out: Vec<Record> = Vec::new();
    let mut pos: usize = 0;
    let len = body.len();
    assert(body@.subrange(0, len as int) =~= body@);
    assert(records_view(out@) =~= Seq::<RecordModel>::empty());
    proof {
        match records_spec(body@) {
            Ok(m) => {
                assert(Seq::<RecordModel>::empty() + m =~= m);
            },
            Err(_) => {},
        }
    }
    while pos < len
        invariant
            pos <= len == body@.len(),
            match records_spec(body@.subrange(pos as int, len as int)) {
                Ok(rest) => records_spec(body@) == Ok::<Seq<RecordModel>, Error>(
                    records_view(out@) + rest,
                ),
                Err(e) => records_spec(body@) == Err::<Seq<RecordModel>, Error>(e),
            },
        decreases len - pos,
    {
        let ghost s = body@.subrange(pos as int, len as int);
        let (rec, end) = match record(body, pos) {
            Ok(x) => x,
            Err(e) => return Err(e),
        };
        let ghost n = end - pos;
        assert(s.subrange(n, s.len() as int) =~= body@.subrange(end as int, len as int));
        let ghost before = out@;
        let ghost item = rec@;
        out.push(rec);
        proof {
            assert(out@.drop_last() =~= before);
            assert(records_view(out@) =~= records_view(before).push(item));
            match records_spec(s.subrange(n, s.len() as int)) {
                Ok(rest) => {
                    assert(records_view(out@) + rest =~= records_view(before) + (seq![item]
                        + rest));
                },
                Err(_) => {},
            }
        }
        pos = end;
    }
    assert(body@.subrange(pos as int, len as int) =~= Seq::<u8>::empty());
    assert(records_view(out@) + Seq::<RecordModel>::empty() =~= records_view(out@));
    Ok(out)
}

/// Decodes the body `body` of a group of kind `t` with label `label`: the records of a
/// top-level group outside the nested categories, else the bytes as they are.
pub fn group_data(body: &[u8], t: GroupType, label: &Label) -> (r: Result<GroupData, Error>)
    ensures
        match (r, group_data_spec(t, *label, body@)) {
            (Ok(d), Ok(m)) => d@ == m,
            (Err(e), Err(f)) => e == f,
            _ => false,
        },
        r matches Ok(d) ==> body_extent(d@) == body@.len(),
{
    proof {
        lemma_records_extent(body@);
    }
    match (t, label) {
        (GroupType::Top, Label::RecordType(c)) => {
            if c.is_tag('C', 'E', 'L', 'L') || c.is_tag('W', 'R', 'L', 'D') || c.is_tag(
                'D',
                'I',
                'A',
                'L',
            ) {
                Ok(GroupData::Unimplemented(vstd::slice::slice_to_vec(body)))
            } else {
                match records(body) {
                    Ok(v) => Ok(GroupData::Records(v)),
                    Err(e) => Err(e),
                }
            }
        },
        _ => Ok(GroupData::Unimplemented(vstd::slice::slice_to_vec(body))),
    }
}

/// Decodes the group at `b[pos..]`; returns it with the position just past its body.
/// Fails when the header is cut short, does not start with `GRUP`, holds an unknown
/// kind code, or declares a size smaller than the header or larger than what remains,
/// and when a record of its body fails.
pub fn group(b: &[u8], pos: usize) -> (r: Result<(Group, usize), Error>)
    requires
        pos <= b@.len(),
    ensures
        match (r, group_spec(b@.subrange(pos as int, b@.len() as int))) {
            (Ok((g, end)), Ok((m, n))) => g@ == m && end == pos + n,
            (Err(e), Err(f)) => e == f,
            _ => false,
        },
        r matches Ok((g, end)) ==> end == pos + g.size && end <= b@.len() && g.size
            >= GROUP_HEADER_SIZE,
{
    reveal(group_spec);
    let ghost s = b@.subrange(pos as int, b@.len() as int);
    if b.len() - pos < GROUP_HEADER_SIZE {
        return Err(Error::Truncated);
    }
    let code = TypeCode::read(b, pos);
    assert(code_at(s, 0) == code_at(b@, pos as int));
    if !code.is_tag('G', 'R', 'U', 'P') {
        return Err(Error::NotAGroup(code));
    }
    let kind = read_i32(b, pos + 12);
    assert(i32_le(s, 12) == i32_le(b@, pos + 12));
    let t = match GroupType::from_code(kind) {
        Some(t) => t,
        None => return Err(Error::InvalidGroupType(kind)),
    };
    let size = read_u32(b, pos + 4);
    assert(u32_le(s, 4) == u32_le(b@, pos + 4));
    if (size as usize) < GROUP_HEADER_SIZE {
        return Err(Error::InvalidGroupSize(size));
    }
    if size as usize > b.len() - pos {
        return Err(Error::TruncatedGroup { declared: size, available: b.len() - pos });
    }
    let label = label_given_type(b, pos + 8, t);
    assert(b@.subrange(pos + 8, pos + 12) =~= s.subrange(8, 12));
    let end = pos + size as usize;
    let body = &b[pos + GROUP_HEADER_SIZE..end];
    assert(body@ =~= s.subrange(24, size as int));
    let data = group_data(body, t, &label)?;
    assert(u16_le(s, 16) == u16_le(b@, pos + 16));
    assert(u16_le(s, 18) == u16_le(b@, pos + 18));
    let timestamp = read_u16(b, pos + 16);
    let vc_info = read_u16(b, pos + 18);
    Ok((Group { size, label, group_type: t, timestamp, vc_info, data }, end))
}

} // verus!
