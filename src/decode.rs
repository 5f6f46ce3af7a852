use vstd::prelude::*;
use crate::ObjId;
use crate::base::{members_view, OSMObjBase, ObjMeta};
use crate::block::{FormatError, Info, RelationBlock, WayBlock};
use crate::timestamp::TimestampFormat;
use crate::delta::{decode_deltas, running_sums, sums_fit};
use crate::obj_types::{StringNode, StringOSMObj, StringRelation, StringWay};
use crate::object_type::OSMObjectType;
use crate::tags::{keys_unique, tag_map, with_tag};

verus! {

/// The string at index `i` of a string table; index 0 never resolves.
pub open spec fn string_at(table: Seq<String>, i: int) -> Option<Seq<char>> {
    if 1 <= i < table.len() {
        Some(table[i]@)
    } else {
        None
    }
}

/// Index 0 of a string table is never a resolvable key, value or role.
pub proof fn lemma_index_zero_unresolvable(table: Seq<String>)
    ensures
        string_at(table, 0) is None,
{
}

/// Looks up a string; index 0 and indices past the end are refused.
pub fn lookup_string(table: &Vec<String>, i: u32) -> (r: Result<String, FormatError>)
    ensures
        i == 0 ==> r == Err::<String, FormatError>(FormatError::BadStringIndex),
        match r {
            Ok(s) => string_at(table@, i as int) == Some(s@),
            Err(e) => string_at(table@, i as int) is None && e == FormatError::BadStringIndex,
        },
{
    let k = i as usize;
    if k == 0 || k >= table.len() {
        Err(FormatError::BadStringIndex)
    } else {
        Ok(table[k].clone())
    }
}

/// Every index of the list resolves in the table.
pub open spec fn all_resolve(table: Seq<String>, ix: Seq<u32>) -> bool {
    forall|i: int| 0 <= i < ix.len() ==> (#[trigger] string_at(table, ix[i] as int)) is Some
}

/// The tag mapping that parallel key and value indices give, a later pair
/// winning over an earlier one with the same key.
pub open spec fn pairs_map(table: Seq<String>, keys: Seq<u32>, vals: Seq<u32>, n: int) -> Map<
    Seq<char>,
    Seq<char>,
>
    decreases n,
{
    if n <= 0 {
        Map::empty()
    } else {
        pairs_map(table, keys, vals, n - 1).insert(
            string_at(table, keys[n - 1] as int)->Some_0,
            string_at(table, vals[n - 1] as int)->Some_0,
        )
    }
}

/// Where the tags of parallel key and value index lists fail to decode.
pub open spec fn tags_error(table: Seq<String>, keys: Seq<u32>, vals: Seq<u32>) -> Option<
    FormatError,
> {
    if keys.len() != vals.len() {
        Some(FormatError::LengthMismatch)
    } else if !all_resolve(table, keys) || !all_resolve(table, vals) {
        Some(FormatError::BadStringIndex)
    } else {
        None
    }
}

/// Decodes parallel key and value index lists into a tag list.
pub fn decode_tags(table: &Vec<String>, keys: &Vec<u32>, vals: &Vec<u32>) -> (r: Result<
    Vec<(String, String)>,
    FormatError,
>)
    ensures
        match r {
            Ok(t) => tags_error(table@, keys@, vals@) is None && keys_unique(t@) && tag_map(t@)
                == pairs_map(table@, keys@, vals@, keys@.len() as int),
            Err(e) => tags_error(table@, keys@, vals@) == Some(e),
        },
{
    if keys.len() != vals.len() {
        return Err(FormatError::LengthMismatch);
    }
    let mut t: Vec<(String, String)> = Vec::new();
    let mut i: usize = 0;
    proof {
        assert(tag_map(t@) =~= Map::empty());
    }
    while i < keys.len()
        invariant
            keys@.len() == vals@.len(),
            0 <= i <= keys@.len(),
            keys_unique(t@),
            all_resolve(table@, keys@.take(i as int)),
            all_resolve(table@, vals@.take(i as int)),
            tag_map(t@) == pairs_map(table@, keys@, vals@, i as int),
        decreases keys@.len() - i,
    {
        let k = lookup_string(table, keys[i]);
        let v = lookup_string(table, vals[i]);
        match (k, v) {
            (Ok(ks), Ok(vs)) => {
                t = with_tag(&t, ks.as_str(), vs.as_str());
                proof {
                    assert forall|j: int| 0 <= j < i + 1 implies (#[trigger] string_at(
                        table@,
                        keys@.take(i + 1)[j] as int,
                    )) is Some by {
                        if j < i {
                            assert(keys@.take(i + 1)[j] == keys@.take(i as int)[j]);
                        }
                    }
                    assert forall|j: int| 0 <= j < i + 1 implies (#[trigger] string_at(
                        table@,
                        vals@.take(i + 1)[j] as int,
                    )) is Some by {
                        if j < i {
                            assert(vals@.take(i + 1)[j] == vals@.take(i as int)[j]);
                        }
                    }
                }
                i = i + 1;
            },
            _ => {
                proof {
                    if string_at(table@, keys@[i as int] as int) is None {
                        assert(!all_resolve(table@, keys@));
                    } else {
                        assert(!all_resolve(table@, vals@));
                    }
                }
                return Err(FormatError::BadStringIndex);
            },
        }
    }
    proof {
        assert(keys@.take(keys@.len() as int) == keys@);
        assert(vals@.take(vals@.len() as int) == vals@);
    }
    Ok(t)
}

/// The kind that a member code stands for.
pub open spec fn member_kind(code: u32) -> Option<OSMObjectType> {
    if code == 0 {
        Some(OSMObjectType::Node)
    } else if code == 1 {
        Some(OSMObjectType::Way)
    } else if code == 2 {
        Some(OSMObjectType::Relation)
    } else {
        None
    }
}

fn decode_member_kind(code: u32) -> (r: Result<OSMObjectType, FormatError>)
    ensures
        match r {
            Ok(t) => member_kind(code) == Some(t),
            Err(e) => member_kind(code) is None && e == FormatError::BadMemberType,
        },
{
    if code == 0 {
        Ok(OSMObjectType::Node)
    } else if code == 1 {
        Ok(OSMObjectType::Way)
    } else if code == 2 {
        Ok(OSMObjectType::Relation)
    } else {
        Err(FormatError::BadMemberType)
    }
}

/// The user name that a string index gives; 0 gives none.
pub open spec fn user_of(table: Seq<String>, sid: u32) -> Option<Seq<char>> {
    if sid == 0 {
        None
    } else {
        string_at(table, sid as int)
    }
}

/// The user name index of the metadata resolves, or is 0.
pub open spec fn info_ok(table: Seq<String>, info: Info) -> bool {
    info.user_sid == 0 || string_at(table, info.user_sid as int) is Some
}

/// The shared fields of an object decoded from a block.
pub open spec fn info_meta(
    table: Seq<String>,
    id: ObjId,
    info: Info,
    tags: Map<Seq<char>, Seq<char>>,
) -> ObjMeta {
    ObjMeta {
        id,
        version: info.version,
        deleted: info.deleted,
        changeset_id: info.changeset_id,
        timestamp: info.timestamp,
        uid: info.uid,
        user: user_of(table, info.user_sid),
        tags,
    }
}

/// A copy of an optional timestamp.
pub fn copy_timestamp(t: &Option<TimestampFormat>) -> (r: Option<TimestampFormat>)
    ensures
        r == *t,
{
    match t {
        Some(x) => Some(x.duplicate()),
        None => None,
    }
}

/// Resolves the user name of some metadata.
pub fn decode_user(table: &Vec<String>, info: &Info) -> (r: Result<Option<String>, FormatError>)
    ensures
        match r {
            Ok(u) => info_ok(table@, *info) && crate::base::opt_str(u) == user_of(table@, info.user_sid),
            Err(e) => !info_ok(table@, *info) && e == FormatError::BadStringIndex,
        },
{
    if info.user_sid == 0 {
        Ok(None)
    } else {
        let u = lookup_string(table, info.user_sid)?;
        Ok(Some(u))
    }
}

/// Where a line of a block fails to decode.
pub open spec fn way_error(table: Seq<String>, w: WayBlock) -> Option<FormatError> {
    if tags_error(table, w.keys@, w.vals@) is Some {
        tags_error(table, w.keys@, w.vals@)
    } else if !info_ok(table, w.info) {
        Some(FormatError::BadStringIndex)
    } else if !sums_fit(w.refs@) {
        Some(FormatError::OutOfRange)
    } else {
        None
    }
}

/// A line is what a line of a block decodes to: its id, its tags, and the
/// running sums of its point deltas, in their order.
pub open spec fn is_decoded_way(x: StringWay, table: Seq<String>, w: WayBlock) -> bool {
    &&& x.wf()
    &&& x.meta() == info_meta(
        table,
        w.id,
        w.info,
        pairs_map(table, w.keys@, w.vals@, w.keys@.len() as int),
    )
    &&& x.nodes@.len() == w.refs@.len()
    &&& forall|i: int| 0 <= i < w.refs@.len() ==> x.nodes@[i] as int == running_sums(w.refs@)[i]
}

/// Decodes a line: its tags and its point ids, in their order.
pub fn decode_way(table: &Vec<String>, w: &WayBlock) -> (r: Result<StringWay, FormatError>)
    ensures
        match r {
            Ok(x) => way_error(table@, *w) is None && is_decoded_way(x, table@, *w),
            Err(e) => way_error(table@, *w) == Some(e),
        },
{
    let tags = decode_tags(table, &w.keys, &w.vals)?;
    let user = decode_user(table, &w.info)?;
    match decode_deltas(&w.refs) {
        Some(nodes) => {
            let x = StringWay {
                id: w.id,
                version: w.info.version,
                deleted: w.info.deleted,
                changeset_id: w.info.changeset_id,
                timestamp: copy_timestamp(&w.info.timestamp),
                uid: w.info.uid,
                user,
                tags,
                nodes,
            };
            Ok(x)
        },
        None => Err(FormatError::OutOfRange),
    }
}

/// Where a relation of a block fails to decode.
pub open spec fn relation_error(table: Seq<String>, m: RelationBlock) -> Option<FormatError> {
    if tags_error(table, m.keys@, m.vals@) is Some {
        tags_error(table, m.keys@, m.vals@)
    } else if !info_ok(table, m.info) {
        Some(FormatError::BadStringIndex)
    } else if m.roles_sid@.len() != m.memids@.len() || m.types@.len() != m.memids@.len() {
        Some(FormatError::LengthMismatch)
    } else if !sums_fit(m.memids@) {
        Some(FormatError::OutOfRange)
    } else if !all_resolve(table, m.roles_sid@) {
        Some(FormatError::BadStringIndex)
    } else if exists|i: int| 0 <= i < m.types@.len() && (#[trigger] member_kind(m.types@[i])) is None {
        Some(FormatError::BadMemberType)
    } else {
        None
    }
}

/// The members of a relation that decodes.
pub open spec fn relation_members(table: Seq<String>, m: RelationBlock) -> Seq<
    (OSMObjectType, ObjId, Seq<char>),
> {
    Seq::new(
        m.memids@.len(),
        |i: int|
            (
                member_kind(m.types@[i])->Some_0,
                running_sums(m.memids@)[i] as i64,
                string_at(table, m.roles_sid@[i] as int)->Some_0,
            ),
    )
}

/// A relation is what a relation of a block decodes to.
pub open spec fn is_decoded_relation(x: StringRelation, table: Seq<String>, m: RelationBlock) -> bool {
    &&& x.wf()
    &&& x.meta() == info_meta(
        table,
        m.id,
        m.info,
        pairs_map(table, m.keys@, m.vals@, m.keys@.len() as int),
    )
    &&& members_view(x.members@) == relation_members(table, m)
}

/// Decodes a relation: its tags and its members, zipped by position.
pub fn decode_relation(table: &Vec<String>, m: &RelationBlock) -> (r: Result<
    StringRelation,
    FormatError,
>)
    ensures
        match r {
            Ok(x) => relation_error(table@, *m) is None && is_decoded_relation(x, table@, *m),
            Err(e) => relation_error(table@, *m) == Some(e),
        },
{
    let tags = decode_tags(table, &m.keys, &m.vals)?;
    let user = decode_user(table, &m.info)?;
    if m.roles_sid.len() != m.memids.len() || m.types.len() != m.memids.len() {
        return Err(FormatError::LengthMismatch);
    }
    let ids = match decode_deltas(&m.memids) {
        Some(v) => v,
        None => {
            return Err(FormatError::OutOfRange);
        },
    };
    let mut roles: Vec<String> = Vec::new();
    let mut i: usize = 0;
    while i < m.roles_sid.len()
        invariant
            0 <= i <= m.roles_sid@.len(),
            roles@.len() == i,
            sums_fit(m.memids@),
            tags_error(table@, m.keys@, m.vals@) is None,
            info_ok(table@, m.info),
            m.roles_sid@.len() == m.memids@.len(),
            m.types@.len() == m.memids@.len(),
            forall|j: int|
                0 <= j < i ==> string_at(table@, #[trigger] m.roles_sid@[j] as int) == Some(
                    roles@[j]@,
                ),
        decreases m.roles_sid@.len() - i,
    {
        match lookup_string(table, m.roles_sid[i]) {
            Ok(s) => {
                roles.push(s);
                i = i + 1;
            },
            Err(e) => {
                proof {
                    assert(string_at(table@, m.roles_sid@[i as int] as int) is None);
                    assert(!all_resolve(table@, m.roles_sid@));
                }
                return Err(e);
            },
        }
    }
    assert(all_resolve(table@, m.roles_sid@));
    let mut members: Vec<(OSMObjectType, ObjId, String)> = Vec::new();
    let mut j: usize = 0;
    while j < m.types.len()
        invariant
            m.types@.len() == m.memids@.len(),
            m.roles_sid@.len() == m.memids@.len(),
            roles@.len() == m.memids@.len(),
            ids@.len() == m.memids@.len(),
            forall|k: int| 0 <= k < ids@.len() ==> ids@[k] as int == running_sums(m.memids@)[k],
            forall|k: int|
                0 <= k < roles@.len() ==> string_at(table@, #[trigger] m.roles_sid@[k] as int)
                    == Some(roles@[k]@),
            all_resolve(table@, m.roles_sid@),
            sums_fit(m.memids@),
            tags_error(table@, m.keys@, m.vals@) is None,
            info_ok(table@, m.info),
            0 <= j <= m.types@.len(),
            members@.len() == j,
            forall|k: int| 0 <= k < j ==> member_kind(#[trigger] m.types@[k]) is Some,
            forall|k: int|
                0 <= k < j ==> (#[trigger] members_view(members@)[k]) == relation_members(
                    table@,
                    *m,
                )[k],
        decreases m.types@.len() - j,
    {
        match decode_member_kind(m.types[j]) {
            Ok(t) => {
                let ghost prev = members@;
                members.push((t, ids[j], roles[j].clone()));
                proof {
                    assert forall|k: int| 0 <= k < j + 1 implies (#[trigger] members_view(
                        members@,
                    )[k]) == relation_members(table@, *m)[k] by {
                        if k < j {
                            assert(members@[k] == prev[k]);
                            assert(members_view(members@)[k] == members_view(prev)[k]);
                        }
                    }
                }
                j = j + 1;
            },
            Err(e) => {
                proof {
                    assert(member_kind(m.types@[j as int]) is None);
                }
                return Err(e);
            },
        }
    }
    proof {
        assert(members_view(members@) =~= relation_members(table@, *m));
    }
    let x = StringRelation {
        id: m.id,
        version: m.info.version,
        deleted: m.info.deleted,
        changeset_id: m.info.changeset_id,
        timestamp: copy_timestamp(&m.info.timestamp),
        uid: m.info.uid,
        user,
        tags,
        members,
    };
    Ok(x)
}

} // verus!
