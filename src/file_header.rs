//! The payload of the file header record: format version, record count, authorship,
//! the master files that the plugin depends on, and overridden form ids.
use vstd::prelude::*;

use crate::bytes::{i32_le, read_i32, read_u32, read_u64, u32_le, u64_le};
use crate::common::{tag4, zstring, zstring_spec, FormId, TypeCode};
use crate::error::Error;
use crate::subrecord::{subrecords, subrecords_spec, subrecords_view, Subrecord, SubrecordModel};

verus! {

/// The core metadata block of the file header.
#[derive(Debug, Clone, Copy, PartialEq, Eq, Default, Structural)]
pub struct Hedr {
    /// The format version, a 32-bit float kept as its raw bits.
    pub version_bits: u32,
    pub num_records: i32,
    pub next_id: FormId,
}

/// A master file that the plugin depends on, with its 64-bit tag.
#[derive(Debug)]
pub struct MasterFile {
    pub name: String,
    pub tag: u64,
}

/// What a master file entry holds.
pub struct MasterModel {
    pub name: Seq<char>,
    pub tag: u64,
}

impl View for MasterFile {
    type V = MasterModel;

    open spec fn view(&self) -> MasterModel {
        MasterModel { name: self.name@, tag: self.tag }
    }
}

/// The decoded payload of the file header record. Fields whose subrecord is absent stay
/// zero or empty.
#[derive(Debug)]
pub struct FileHeaderData {
    pub hedr: Hedr,
    pub author: Option<String>,
    pub description: Option<String>,
    pub masters: Vec<MasterFile>,
    pub overrides: Vec<FormId>,
    pub intv: u32,
    pub incc: u32,
}

/// What a file header payload holds.
pub struct FileHeaderModel {
    pub hedr: Hedr,
    pub author: Option<Seq<char>>,
    pub description: Option<Seq<char>>,
    pub masters: Seq<MasterModel>,
    pub overrides: Seq<FormId>,
    pub intv: u32,
    pub incc: u32,
}

pub open spec fn opt_string_view(s: Option<String>) -> Option<Seq<char>> {
    match s {
        Some(t) => Some(t@),
        None => None,
    }
}

impl View for FileHeaderData {
    type V = FileHeaderModel;

    open spec fn view(&self) -> FileHeaderModel {
        FileHeaderModel {
            hedr: self.hedr,
            author: opt_string_view(self.author),
            description: opt_string_view(self.description),
            masters: self.masters@.map_values(|m: MasterFile| m@),
            overrides: self.overrides@,
            intv: self.intv,
            incc: self.incc,
        }
    }
}

/// The payload with no subrecord.
pub open spec fn empty_file_header() -> FileHeaderModel {
    FileHeaderModel {
        hedr: Hedr { version_bits: 0, num_records: 0, next_id: FormId(0) },
        author: None,
        description: None,
        masters: Seq::empty(),
        overrides: Seq::empty(),
        intv: 0,
        incc: 0,
    }
}

/// The effect of one subrecord `sub` on the payload read so far, `m`; `prev` is the tag
/// of the subrecord before it. A `DATA` subrecord right after a `MAST` gives that
/// master's tag; every unrecognised tag is ignored.
pub open spec fn file_header_step(
    m: FileHeaderModel,
    prev: Option<TypeCode>,
    sub: SubrecordModel,
) -> Result<FileHeaderModel, Error> {
    let d = sub.data;
    if sub.code == tag4('H', 'E', 'D', 'R') {
        if d.len() < 12 {
            Err(Error::Truncated)
        } else {
            Ok(
                FileHeaderModel {
                    hedr: Hedr {
                        version_bits: u32_le(d, 0),
                        num_records: i32_le(d, 4),
                        next_id: FormId(u32_le(d, 8)),
                    },
                    ..m
                },
            )
        }
    } else if sub.code == tag4('C', 'N', 'A', 'M') {
        match zstring_spec(d) {
            Ok((t, _)) => Ok(FileHeaderModel { author: Some(t), ..m }),
            Err(e) => Err(e),
        }
    } else if sub.code == tag4('S', 'N', 'A', 'M') {
        match zstring_spec(d) {
            Ok((t, _)) => Ok(FileHeaderModel { description: Some(t), ..m }),
            Err(e) => Err(e),
        }
    } else if sub.code == tag4('M', 'A', 'S', 'T') {
        match zstring_spec(d) {
            Ok((t, _)) => Ok(
                FileHeaderModel { masters: m.masters.push(MasterModel { name: t, tag: 0 }), ..m },
            ),
            Err(e) => Err(e),
        }
    } else if sub.code == tag4('D', 'A', 'T', 'A') && prev == Some(
        tag4('M', 'A', 'S', 'T'),
    ) && m.masters.len() > 0 {
        if d.len() < 8 {
            Err(Error::Truncated)
        } else {
            let last = m.masters.len() - 1;
            Ok(
                FileHeaderModel {
                    masters: m.masters.update(
                        last,
                        MasterModel { name: m.masters[last].name, tag: u64_le(d, 0) },
                    ),
                    ..m
                },
            )
        }
    } else if sub.code == tag4('O', 'N', 'A', 'M') {
        if d.len() < 4 {
            Err(Error::Truncated)
        } else {
            Ok(FileHeaderModel { overrides: m.overrides.push(FormId(u32_le(d, 0))), ..m })
        }
    } else if sub.code == tag4('I', 'N', 'T', 'V') {
        if d.len() < 4 {
            Err(Error::Truncated)
        } else {
            Ok(FileHeaderModel { intv: u32_le(d, 0), ..m })
        }
    } else if sub.code == tag4('I', 'N', 'C', 'C') {
        if d.len() < 4 {
            Err(Error::Truncated)
        } else {
            Ok(FileHeaderModel { incc: u32_le(d, 0), ..m })
        }
    } else {
        Ok(m)
    }
}

/// The tag of the last of `subs`.
pub open spec fn last_code(subs: Seq<SubrecordModel>) -> Option<TypeCode> {
    if subs.len() == 0 {
        None
    } else {
        Some(subs.last().code)
    }
}

/// The payload that the subrecords `subs` describe, read in order.
pub open spec fn file_header_fold(subs: Seq<SubrecordModel>) -> Result<FileHeaderModel, Error>
    decreases subs.len(),
{
    if subs.len() == 0 {
        Ok(empty_file_header())
    } else {
        match file_header_fold(subs.drop_last()) {
            Ok(m) => file_header_step(m, last_code(subs.drop_last()), subs.last()),
            Err(e) => Err(e),
        }
    }
}

/// The file header payload that the bytes `s` hold.
pub open spec fn file_header_spec(s: Seq<u8>) -> Result<FileHeaderModel, Error> {
    match subrecords_spec(s) {
        Some(subs) => file_header_fold(subs),
        None => Err(Error::Truncated),
    }
}

proof fn lemma_fold_error_stays(subs: Seq<SubrecordModel>, j: int, k: int, e: Error)
    requires
        0 <= j <= k <= subs.len(),
        file_header_fold(subs.take(j)) == Err::<FileHeaderModel, Error>(e),
    ensures
        file_header_fold(subs.take(k)) == Err::<FileHeaderModel, Error>(e),
    decreases k - j,
{
    if k > j {
        lemma_fold_error_stays(subs, j, k - 1, e);
        assert(subs.take(k).drop_last() =~= subs.take(k - 1));
    }
}

fn apply_subrecord(acc: &mut FileHeaderData, prev: Option<TypeCode>, sub: &Subrecord) -> (r:
    Result<(), Error>)
    ensures
        match (r, file_header_step(old(acc)@, prev, sub@)) {
            (Ok(()), Ok(m)) => final(acc)@ == m,
            (Err(e), Err(f)) => e == f,
            _ => false,
        },
{
    let d = sub.data;
    let code = sub.code;
    let is_mast_data = code.is_tag('D', 'A', 'T', 'A') && match prev {
        Some(p) => p.is_tag('M', 'A', 'S', 'T'),
        None => false,
    } && acc.masters.len() > 0;
    if code.is_tag('H', 'E', 'D', 'R') {
        if d.len() < 12 {
            return Err(Error::Truncated);
        }
        acc.hedr = Hedr {
            version_bits: read_u32(d, 0),
            num_records: read_i32(d, 4),
            next_id: FormId(read_u32(d, 8)),
        };
    } else if code.is_tag('C', 'N', 'A', 'M') {
        assert(d@.subrange(0, d@.len() as int) =~= d@);
        let (t, _) = zstring(d, 0)?;
        acc.author = Some(t);
    } else if code.is_tag('S', 'N', 'A', 'M') {
        assert(d@.subrange(0, d@.len() as int) =~= d@);
        let (t, _) = zstring(d, 0)?;
        acc.description = Some(t);
    } else if code.is_tag('M', 'A', 'S', 'T') {
        assert(d@.subrange(0, d@.len() as int) =~= d@);
        let (t, _) = zstring(d, 0)?;
        let ghost before = acc.masters@;
        acc.masters.push(MasterFile { name: t, tag: 0 });
        assert(acc.masters@.map_values(|m: MasterFile| m@) =~= before.map_values(
            |m: MasterFile| m@,
        ).push(MasterModel { name: t@, tag: 0 }));
    } else if is_mast_data {
        if d.len() < 8 {
            return Err(Error::Truncated);
        }
        let tag = read_u64(d, 0);
        let ghost before = acc.masters@;
        let last = acc.masters.pop().unwrap();
        acc.masters.push(MasterFile { name: last.name, tag });
        assert(acc.masters@.map_values(|m: MasterFile| m@) =~= before.map_values(
            |m: MasterFile| m@,
        ).update(before.len() - 1, MasterModel { name: before.last().name@, tag }));
    } else if code.is_tag('O', 'N', 'A', 'M') {
        if d.len() < 4 {
            return Err(Error::Truncated);
        }
        acc.overrides.push(FormId(read_u32(d, 0)));
    } else if code.is_tag('I', 'N', 'T', 'V') {
        if d.len() < 4 {
            return Err(Error::Truncated);
        }
        acc.intv = read_u32(d, 0);
    } else if code.is_tag('I', 'N', 'C', 'C') {
        if d.len() < 4 {
            return Err(Error::Truncated);
        }
        acc.incc = read_u32(d, 0);
    }
    Ok(())
}

/// Decodes the payload of the file header record from all of `b`. Fails when the
/// subrecords do not tile `b` exactly, or a recognised subrecord is too short or holds
/// a string that is unterminated or not UTF-8.
pub fn file_header_data(b: &[u8]) -> (r: Result<FileHeaderData, Error>)
    ensures
        match (r, file_header_spec(b@)) {
            (Ok(d), Ok(m)) => d@ == m,
            (Err(e), Err(f)) => e == f,
            _ => false,
        },
{
    let subs = match subrecords(b) {
        Ok(v) => v,
        Err(e) => return Err(e),
    };
    let ghost model = subrecords_view(subs@);
    assert(subrecords_spec(b@) == Some(model));
    let mut acc = FileHeaderData {
        hedr: Hedr { version_bits: 0, num_records: 0, next_id: FormId(0) },
        author: None,
        description: None,
        masters: Vec::new(),
        overrides: Vec::new(),
        intv: 0,
        incc: 0,
    };
    assert(acc@.masters =~= Seq::<MasterModel>::empty());
    assert(acc@.overrides =~= Seq::<FormId>::empty());
    assert(model.take(0) =~= Seq::<SubrecordModel>::empty());
    let mut prev: Option<TypeCode> = None;
    let mut i: usize = 0;
    while i < subs.len()
        invariant
            0 <= i <= subs@.len(),
            model == subrecords_view(subs@),
            subrecords_spec(b@) == Some(model),
            file_header_fold(model.take(i as int)) == Ok::<FileHeaderModel, Error>(acc@),
            prev == last_code(model.take(i as int)),
        decreases subs@.len() - i,
    {
        let sub = &subs[i];
        assert(model.take(i + 1).drop_last() =~= model.take(i as int));
        assert(model.take(i + 1).last() == sub@);
        let ghost acc0 = acc@;
        assert(file_header_fold(model.take(i + 1)) == file_header_step(acc0, prev, sub@));
        match apply_subrecord(&mut acc, prev, sub) {
            Ok(()) => {},
            Err(e) => {
                proof {
                    lemma_fold_error_stays(model, i + 1, model.len() as int, e);
                    assert(model.take(model.len() as int) =~= model);
                    assert(file_header_fold(model) == Err::<FileHeaderModel, Error>(e));
                }
                return Err(e);
            },
        }
        prev = Some(sub.code);
        i += 1;
    }
    assert(model.take(i as int) =~= model);
    Ok(acc)
}

} // verus!
