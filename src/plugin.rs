//! The whole plugin: the file header record, then top-level groups indexed by the
//! record category that each one holds.
use vstd::prelude::*;

use crate::bytes::u32_le;
use crate::common::TypeCode;
use crate::error::Error;
use crate::flags::PluginFlags;
use crate::group::{
    group, group_spec, records_spec, records_view, Group, GroupData, GroupDataModel, GroupModel, GroupType, Label,
};
use crate::record::{file_header_record, record_spec, FileHeaderRecord, RecordModel};

verus! {

/// A decoded plugin. `groups` holds one top-level group per record category.
#[derive(Debug)]
pub struct Plugin {
    pub tes4: FileHeaderRecord,
    pub groups: Vec<Group>,
}

/// What a plugin holds: its header record and a map from record category to group.
pub struct PluginModel {
    pub tes4: RecordModel,
    pub groups: Map<TypeCode, GroupModel>,
}

/// The record category of a top-level group.
pub open spec fn group_code(g: GroupModel) -> TypeCode {
    match g.label {
        Label::RecordType(c) => c,
        _ => arbitrary(),
    }
}

/// The views of a sequence of groups.
pub open spec fn groups_view(v: Seq<Group>) -> Seq<GroupModel> {
    v.map_values(|g: Group| g@)
}

/// The map from category to group that inserting `gs` in order builds: a later group
/// of a category replaces an earlier one.
pub open spec fn category_map(gs: Seq<GroupModel>) -> Map<TypeCode, GroupModel>
    decreases gs.len(),
{
    if gs.len() == 0 {
        Map::empty()
    } else {
        category_map(gs.drop_last()).insert(group_code(gs.last()), gs.last())
    }
}

/// True when every group of `gs` is labelled with a category and no two share one.
pub open spec fn unique_categories(gs: Seq<GroupModel>) -> bool {
    &&& forall|i: int| 0 <= i < gs.len() ==> #[trigger] gs[i].label is RecordType
    &&& forall|i: int, j: int|
        0 <= i < j < gs.len() ==> group_code(#[trigger] gs[i]) != group_code(#[trigger] gs[j])
}

impl View for Plugin {
    type V = PluginModel;

    open spec fn view(&self) -> PluginModel {
        PluginModel { tes4: self.tes4@, groups: category_map(groups_view(self.groups@)) }
    }
}

/// The editor identifiers that the records `rs` carry, in order.
pub open spec fn editor_ids(rs: Seq<RecordModel>) -> Seq<Seq<char>>
    decreases rs.len(),
{
    if rs.len() == 0 {
        Seq::empty()
    } else {
        editor_ids(rs.drop_last()) + match rs.last().header.editor_id {
            Some(e) => seq![e],
            None => Seq::empty(),
        }
    }
}

/// The editor identifiers of the records in the group of category `code` of `groups`;
/// empty where there is no such group or its body is kept as bytes.
pub open spec fn editor_ids_in(groups: Map<TypeCode, GroupModel>, code: TypeCode) -> Seq<
    Seq<char>,
> {
    if groups.contains_key(code) {
        match groups[code].data {
            GroupDataModel::Records(rs) => editor_ids(rs),
            GroupDataModel::Unimplemented(_) => Seq::empty(),
        }
    } else {
        Seq::empty()
    }
}

impl Plugin {
    /// The plugin's groups carry distinct categories.
    pub open spec fn wf(&self) -> bool {
        unique_categories(groups_view(self.groups@))
    }

    /// The top-level group of category `code`, if the plugin has one.
    pub fn group(&self, code: &TypeCode) -> (r: Option<&Group>)
        requires
            self.wf(),
        ensures
            r is Some <==> self@.groups.contains_key(*code),
            r matches Some(g) ==> g@ == self@.groups[*code],
    {
        proof {
            lemma_category_map_lookup(groups_view(self.groups@), *code);
        }
        match find_group(&self.groups, code) {
            Some(j) => Some(&self.groups[j]),
            None => None,
        }
    }

    /// The editor identifiers of the records in the group of category `code`, in file
    /// order; empty where there is no such group or its body is kept as bytes.
    pub fn get_editor_ids_by_code(&self, code: [u8; 4]) -> (r: Vec<String>)
        requires
            self.wf(),
        ensures
            r@.map_values(|s: String| s@) == editor_ids_in(self@.groups, TypeCode(code)),
    {
        let code = TypeCode(code);
        let mut ids: Vec<String> = Vec::new();
        match self.group(&code) {
            Some(g) => match &g.data {
                GroupData::Records(records) => {
                    let ghost rs = records_view(records@);
                    assert(ids@.map_values(|s: String| s@) =~= editor_ids(rs.take(0)));
                    let mut i: usize = 0;
                    while i < records.len()
                        invariant
                            i <= records@.len(),
                            rs == records_view(records@),
                            ids@.map_values(|s: String| s@) == editor_ids(rs.take(i as int)),
                        decreases records@.len() - i,
                    {
                        let ghost before = ids@;
                        assert(rs.take(i + 1).drop_last() =~= rs.take(i as int));
                        assert(rs.take(i + 1).last() == records@[i as int]@);
                        match &records[i].header.editor_id {
                            Some(e) => {
                                ids.push(e.clone());
                                assert(ids@.map_values(|s: String| s@) =~= before.map_values(
                                    |s: String| s@,
                                ) + seq![e@]);
                            },
                            None => {
                                assert(ids@.map_values(|s: String| s@) =~= before.map_values(
                                    |s: String| s@,
                                ) + Seq::<Seq<char>>::empty());
                            },
                        }
                        i += 1;
                    }
                    assert(rs.take(i as int) =~= rs);
                },
                GroupData::Unimplemented(_) => {},
            },
            None => {},
        }
        ids
    }
}

/// The top-level groups that tile all of `s`, in order. Each must be of the top-level
/// kind.
#[verifier::opaque]
pub open spec fn top_groups_spec(s: Seq<u8>) -> Result<Seq<GroupModel>, Error>
    decreases s.len(),
    via top_groups_spec_decreases
{
    if s.len() == 0 {
        Ok(Seq::empty())
    } else {
        match group_spec(s) {
            Err(e) => Err(e),
            Ok((g, n)) => if g.group_type != GroupType::Top {
                Err(Error::NotATopGroup(g.group_type))
            } else {
                match top_groups_spec(s.subrange(n, s.len() as int)) {
                    Err(e) => Err(e),
                    Ok(rest) => Ok(seq![g] + rest),
                }
            },
        }
    }
}

#[via_fn]
proof fn top_groups_spec_decreases(s: Seq<u8>) {
    if s.len() != 0 {
        match group_spec(s) {
            Ok((g, n)) => {
                reveal(group_spec);
                assert(24 <= n <= s.len());
            },
            Err(_) => {},
        }
    }
}

/// The plugin that all of `s` holds: the file header record, then top-level groups up to
/// the end of `s`.
pub open spec fn plugin_spec(s: Seq<u8>) -> Result<PluginModel, Error> {
    match record_spec::<PluginFlags>(s) {
        Err(e) => Err(e),
        Ok((t, n)) => match top_groups_spec(s.subrange(n, s.len() as int)) {
            Err(e) => Err(e),
            Ok(gs) => Ok(PluginModel { tes4: t, groups: category_map(gs) }),
        },
    }
}

/// A record whose header declares a payload longer than the bytes left after it fails
/// the whole decode, whether it is the file header record of a plugin or a record of a
/// group body: no partial plugin or group comes back.
pub proof fn short_record_fails_decode(s: Seq<u8>)
    requires
        24 <= s.len() < 24 + u32_le(s, 4),
    ensures
        plugin_spec(s) is Err,
        records_spec(s) is Err,
{
    reveal(record_spec);
}

proof fn lemma_category_map_replace(v: Seq<GroupModel>, j: int, g: GroupModel)
    requires
        unique_categories(v),
        0 <= j < v.len(),
        group_code(v[j]) == group_code(g),
    ensures
        category_map(v.update(j, g)) == category_map(v).insert(group_code(g), g),
    decreases v.len(),
{
    let w = v.update(j, g);
    if j == v.len() - 1 {
        assert(w.drop_last() =~= v.drop_last());
        assert(category_map(w) =~= category_map(v).insert(group_code(g), g));
    } else {
        let u = v.drop_last();
        assert(unique_categories(u)) by {
            assert forall|a: int, b: int| 0 <= a < b < u.len() implies group_code(u[a])
                != group_code(u[b]) by {
                assert(u[a] == v[a] && u[b] == v[b]);
            }
            assert forall|a: int| 0 <= a < u.len() implies u[a].label is RecordType by {
                assert(u[a] == v[a]);
            }
        }
        lemma_category_map_replace(u, j, g);
        assert(w.drop_last() =~= u.update(j, g));
        assert(group_code(v.last()) != group_code(g)) by {
            assert(group_code(v[j]) != group_code(v[v.len() - 1]));
        }
        assert(category_map(w) =~= category_map(v).insert(group_code(g), g));
    }
}

proof fn lemma_category_map_lookup(v: Seq<GroupModel>, c: TypeCode)
    requires
        unique_categories(v),
    ensures
        forall|j: int|
            0 <= j < v.len() && group_code(#[trigger] v[j]) == c ==> category_map(v).contains_key(
                c,
            ) && category_map(v)[c] == v[j],
        (forall|j: int| 0 <= j < v.len() ==> group_code(#[trigger] v[j]) != c)
            ==> !category_map(v).contains_key(c),
    decreases v.len(),
{
    if v.len() > 0 {
        let u = v.drop_last();
        assert(unique_categories(u)) by {
            assert forall|a: int, b: int| 0 <= a < b < u.len() implies group_code(u[a])
                != group_code(u[b]) by {
                assert(u[a] == v[a] && u[b] == v[b]);
            }
            assert forall|a: int| 0 <= a < u.len() implies u[a].label is RecordType by {
                assert(u[a] == v[a]);
            }
        }
        lemma_category_map_lookup(u, c);
        assert forall|j: int| 0 <= j < v.len() && group_code(#[trigger] v[j]) == c implies
            category_map(v).contains_key(c) && category_map(v)[c] == v[j] by {
            if j < v.len() - 1 {
                assert(u[j] == v[j]);
                assert(group_code(v[j]) != group_code(v[v.len() - 1]));
            }
        }
        if forall|j: int| 0 <= j < v.len() ==> group_code(#[trigger] v[j]) != c {
            assert forall|j: int| 0 <= j < u.len() implies group_code(#[trigger] u[j]) != c by {
                assert(u[j] == v[j]);
            }
            assert(group_code(v[v.len() - 1]) != c);
        }
    }
}

/// The index of the group of category `code` in `groups`, if there is one.
fn find_group(groups: &Vec<Group>, code: &TypeCode) -> (r: Option<usize>)
    requires
        unique_categories(groups_view(groups@)),
    ensures
        r matches Some(j) ==> j < groups@.len() && group_code(groups_view(groups@)[j as int])
            == *code,
        r is None ==> forall|i: int|
            0 <= i < groups@.len() ==> group_code(#[trigger] groups_view(groups@)[i]) != *code,
{
    let ghost v = groups_view(groups@);
    let mut i: usize = 0;
    while i < groups.len()
        invariant
            i <= groups@.len() == v.len(),
            v == groups_view(groups@),
            unique_categories(v),
            forall|k: int| 0 <= k < i ==> group_code(#[trigger] v[k]) != *code,
        decreases groups@.len() - i,
    {
        assert(v[i as int] == groups@[i as int]@);
        assert(v[i as int].label is RecordType);
        let found = match &groups[i].label {
            Label::RecordType(c) => c.same(code),
            _ => false,
        };
        if found {
            return Some(i);
        }
        i += 1;
    }
    None
}

/// Decodes the top-level group at `b[pos..]` and returns its category with it. Fails
/// with `NotATopGroup` when the group is of another kind.
pub fn top_group(b: &[u8], pos: usize) -> (r: Result<(TypeCode, Group, usize), Error>)
    requires
        pos <= b@.len(),
    ensures
        match (r, group_spec(b@.subrange(pos as int, b@.len() as int))) {
            (Ok((c, g, end)), Ok((m, n))) => g@ == m && end == pos + n && m.group_type
                == GroupType::Top && m.label == Label::RecordType(c),
            (Err(e), Ok((m, n))) => m.group_type != GroupType::Top && e == Error::NotATopGroup(
                m.group_type,
            ),
            (Err(e), Err(f)) => e == f,
            _ => false,
        },
        r matches Ok((c, g, end)) ==> end == pos + g.size && end <= b@.len() && g.size
            >= 24,
{
    let (g, end) = group(b, pos)?;
    proof {
        reveal(group_spec);
    }
    match g.group_type {
        GroupType::Top => {},
        _ => return Err(Error::NotATopGroup(g.group_type)),
    }
    match g.label {
        Label::RecordType(c) => Ok((c, g, end)),
        _ => Err(Error::NotATopGroup(g.group_type)),
    }
}

/// Decodes a whole plugin from `b`: the file header record, then top-level groups until
/// `b` is exhausted. A later group of a category replaces an earlier one.
pub fn plugin(b: &[u8]) -> (r: Result<Plugin, Error>)
    ensures
        match (r, plugin_spec(b@)) {
            (Ok(p), Ok(m)) => p@ == m && p.wf(),
            (Err(e), Err(f)) => e == f,
            _ => false,
        },
{
    assert(b@.subrange(0, b@.len() as int) =~= b@);
    let (tes4, mut pos) = file_header_record(b, 0)?;
    let len = b.len();
    let mut groups: Vec<Group> = Vec::new();
    let ghost mut parsed: Seq<GroupModel> = Seq::empty();
    proof {
        reveal(top_groups_spec);
        assert(groups_view(groups@) =~= Seq::<GroupModel>::empty());
        match top_groups_spec(b@.subrange(pos as int, len as int)) {
            Ok(m) => {
                assert(Seq::<GroupModel>::empty() + m =~= m);
            },
            Err(_) => {},
        }
    }
    let ghost start = pos;
    while pos < len
        invariant
            start <= pos <= len == b@.len(),
            match record_spec::<PluginFlags>(b@) {
                Ok((m, n)) => m == tes4@ && n == start,
                Err(_) => false,
            },
            unique_categories(groups_view(groups@)),
            category_map(groups_view(groups@)) == category_map(parsed),
            match top_groups_spec(b@.subrange(pos as int, len as int)) {
                Ok(rest) => top_groups_spec(b@.subrange(start as int, len as int)) == Ok::<
                    Seq<GroupModel>,
                    Error,
                >(parsed + rest),
                Err(e) => top_groups_spec(b@.subrange(start as int, len as int)) == Err::<
                    Seq<GroupModel>,
                    Error,
                >(e),
            },
        decreases len - pos,
    {
        let ghost s = b@.subrange(pos as int, len as int);
        proof {
            reveal(top_groups_spec);
        }
        let (code, g, end) = match top_group(b, pos) {
            Ok(x) => x,
            Err(e) => return Err(e),
        };
        let ghost n = end - pos;
        let ghost gm = g@;
        assert(s.subrange(n, s.len() as int) =~= b@.subrange(end as int, len as int));
        let ghost view_before = groups_view(groups@);
        match find_group(&groups, &code) {
            Some(j) => {
                proof {
                    lemma_category_map_replace(view_before, j as int, gm);
                }
                groups.set(j, g);
                assert(groups_view(groups@) =~= view_before.update(j as int, gm));
                assert(unique_categories(groups_view(groups@))) by {
                    let w = groups_view(groups@);
                    assert forall|a: int, b: int| 0 <= a < b < w.len() implies group_code(w[a])
                        != group_code(w[b]) by {
                        if a != j && b != j {
                            assert(w[a] == view_before[a] && w[b] == view_before[b]);
                        } else if a == j {
                            assert(w[b] == view_before[b]);
                        } else {
                            assert(w[a] == view_before[a]);
                        }
                    }
                    assert forall|a: int| 0 <= a < w.len() implies w[a].label is RecordType by {
                        if a != j {
                            assert(w[a] == view_before[a]);
                        }
                    }
                }
            },
            None => {
                groups.push(g);
                assert(groups_view(groups@) =~= view_before.push(gm));
                assert(groups_view(groups@).drop_last() =~= view_before);
                assert(unique_categories(groups_view(groups@))) by {
                    let w = groups_view(groups@);
                    assert forall|a: int, b: int| 0 <= a < b < w.len() implies group_code(w[a])
                        != group_code(w[b]) by {
                        assert(w[a] == view_before[a]);
                        if b < view_before.len() {
                            assert(w[b] == view_before[b]);
                        }
                    }
                    assert forall|a: int| 0 <= a < w.len() implies w[a].label is RecordType by {
                        if a < view_before.len() {
                            assert(w[a] == view_before[a]);
                        }
                    }
                }
            },
        }
        proof {
            assert(parsed.push(gm).drop_last() =~= parsed);
            match top_groups_spec(s.subrange(n, s.len() as int)) {
                Ok(rest) => {
                    assert(parsed.push(gm) + rest =~= parsed + (seq![gm] + rest));
                },
                Err(_) => {},
            }
            parsed = parsed.push(gm);
        }
        pos = end;
    }
    assert(b@.subrange(pos as int, len as int) =~= Seq::<u8>::empty());
    proof {
        reveal(top_groups_spec);
        assert(parsed + Seq::<GroupModel>::empty() =~= parsed);
    }
    Ok(Plugin { tes4, groups })
}

} // verus!
