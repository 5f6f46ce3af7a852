use vstd::prelude::*;
use crate::base::{ObjMeta, OSMObjBase};
use crate::block::{DenseNodes, Info, RelationBlock, WayBlock};
use crate::decode::{copy_timestamp, pairs_map, string_at, user_of};
use crate::delta::{differences, differences_fit, encode_deltas};
use crate::ObjId;
use crate::obj_types::{StringNode, StringOSMObj, StringRelation, StringWay};
use crate::object_type::OSMObjectType;
use crate::tags::tag_map;

verus! {

/// Why objects could not be encoded.
#[derive(Debug, Clone, Copy, PartialEq, Eq, Structural)]
pub enum EncodeError {
    /// The string table cannot hold another string.
    TableFull,
    /// A difference of successive ids or coordinates leaves the 64-bit range.
    OutOfRange,
    /// A point without a location cannot stand in a dense group.
    MissingLocation,
}

/// No string stands twice in a string table (index 0 aside).
pub open spec fn table_distinct(t: Seq<String>) -> bool {
    forall|a: int, b: int| 1 <= a < b < t.len() ==> (#[trigger] t[a])@ != (#[trigger] t[b])@
}

/// `t` extends `s`: it holds `s` as its start.
pub open spec fn extends(t: Seq<String>, s: Seq<String>) -> bool {
    s.len() <= t.len() && t.subrange(0, s.len() as int) == s
}

/// A string table only grows: what resolved before resolves the same after.
pub proof fn lemma_extends_resolves(t: Seq<String>, s: Seq<String>, i: int)
    requires
        extends(t, s),
        string_at(s, i) is Some,
    ensures
        string_at(t, i) == string_at(s, i),
{
    assert(t[i] == t.subrange(0, s.len() as int)[i]);
}

/// Extending is transitive.
pub proof fn lemma_extends_trans(c: Seq<String>, b: Seq<String>, a: Seq<String>)
    requires
        extends(c, b),
        extends(b, a),
    ensures
        extends(c, a),
{
    assert(c.subrange(0, a.len() as int) =~= b.subrange(0, a.len() as int));
}

/// The index of `s` in the string table: the first index from 1 that holds
/// it, or else a new index at the end, where `s` is added.
pub fn intern(table: &mut Vec<String>, s: &str) -> (r: Option<u32>)
    requires
        old(table)@.len() >= 1,
        table_distinct(old(table)@),
    ensures
        extends(final(table)@, old(table)@),
        table_distinct(final(table)@),
        final(table)@.len() <= old(table)@.len() + 1,
        match r {
            Some(i) => {
                &&& string_at(final(table)@, i as int) == Some(s@)
                &&& forall|j: int| 1 <= j < i && j < old(table)@.len() ==> (#[trigger] old(table)@[j])@ != s@
                &&& (i < old(table)@.len() ==> final(table)@ == old(table)@)
                &&& (i >= old(table)@.len() ==> i == old(table)@.len() && final(table)@.len()
                    == old(table)@.len() + 1)
            },
            None => old(table)@.len() >= u32::MAX && final(table)@ == old(table)@,
        },
{
    let key = s.to_owned();
    let mut i: usize = 1;
    while i < table.len()
        invariant
            1 <= i <= table@.len(),
            table_distinct(table@),
            key@ == s@,
            table@ == old(table)@,
            forall|j: int| 1 <= j < i ==> (#[trigger] table@[j])@ != s@,
        decreases table@.len() - i,
    {
        if table[i] == key {
            if i <= u32::MAX as usize {
                assert(table@.subrange(0, table@.len() as int) == table@);
                return Some(i as u32);
            }
            assert(table@.subrange(0, table@.len() as int) == table@);
            return None;
        }
        i = i + 1;
    }
    assert(table@.subrange(0, table@.len() as int) == table@);
    if table.len() >= u32::MAX as usize {
        return None;
    }
    let ghost before = table@;
    let n = table.len();
    table.push(key);
    assert(table@.subrange(0, before.len() as int) =~= before);
    Some(n as u32)
}

/// Index lists `ks` and `vs` resolve to the keys and values of `tags`.
pub open spec fn indexes_tags(
    table: Seq<String>,
    ks: Seq<u32>,
    vs: Seq<u32>,
    tags: Seq<(String, String)>,
) -> bool {
    &&& ks.len() == tags.len()
    &&& vs.len() == tags.len()
    &&& forall|i: int|
        0 <= i < tags.len() ==> string_at(table, #[trigger] ks[i] as int) == Some(tags[i].0@)
    &&& forall|i: int|
        0 <= i < tags.len() ==> string_at(table, #[trigger] vs[i] as int) == Some(tags[i].1@)
}

/// Index lists that resolve to a tag list give back its mapping.
pub proof fn lemma_pairs_map_of_tags(
    table: Seq<String>,
    ks: Seq<u32>,
    vs: Seq<u32>,
    tags: Seq<(String, String)>,
    n: int,
)
    requires
        indexes_tags(table, ks, vs, tags),
        0 <= n <= tags.len(),
    ensures
        pairs_map(table, ks, vs, n) == tag_map(tags.take(n)),
    decreases n,
{
    if n > 0 {
        lemma_pairs_map_of_tags(table, ks, vs, tags, n - 1);
        assert(tags.take(n).drop_last() == tags.take(n - 1));
    }
}

/// A later table that extends an earlier one keeps the index lists resolving.
pub proof fn lemma_indexes_extend(
    t: Seq<String>,
    s: Seq<String>,
    ks: Seq<u32>,
    vs: Seq<u32>,
    tags: Seq<(String, String)>,
)
    requires
        extends(t, s),
        indexes_tags(s, ks, vs, tags),
    ensures
        indexes_tags(t, ks, vs, tags),
{
    assert forall|i: int| 0 <= i < tags.len() implies string_at(t, #[trigger] ks[i] as int)
        == Some(tags[i].0@) by {
        lemma_extends_resolves(t, s, ks[i] as int);
    }
    assert forall|i: int| 0 <= i < tags.len() implies string_at(t, #[trigger] vs[i] as int)
        == Some(tags[i].1@) by {
        lemma_extends_resolves(t, s, vs[i] as int);
    }
}

/// Interns the keys and values of a tag list, giving their index lists.
pub fn encode_tags(table: &mut Vec<String>, tags: &Vec<(String, String)>) -> (r: Option<
    (Vec<u32>, Vec<u32>),
>)
    requires
        old(table)@.len() >= 1,
        table_distinct(old(table)@),
    ensures
        extends(final(table)@, old(table)@),
        table_distinct(final(table)@),
        final(table)@.len() <= old(table)@.len() + 2 * tags@.len(),
        match r {
            Some(p) => indexes_tags(final(table)@, p.0@, p.1@, tags@),
            None => final(table)@.len() >= u32::MAX,
        },
{
    let ghost start = table@;
    let mut ks: Vec<u32> = Vec::new();
    let mut vs: Vec<u32> = Vec::new();
    let mut i: usize = 0;
    assert(table@.subrange(0, table@.len() as int) == table@);
    while i < tags.len()
        invariant
            0 <= i <= tags@.len(),
            table@.len() >= 1,
            table_distinct(table@),
            start == old(table)@,
            extends(table@, start),
            table@.len() <= start.len() + 2 * i,
            indexes_tags(table@, ks@, vs@, tags@.take(i as int)),
        decreases tags@.len() - i,
    {
        let ghost t0 = table@;
        let k = match intern(table, tags[i].0.as_str()) {
            Some(k) => k,
            None => {
                proof {
                    lemma_extends_trans(table@, t0, start);
                }
                return None;
            },
        };
        let ghost t1 = table@;
        let v = match intern(table, tags[i].1.as_str()) {
            Some(v) => v,
            None => {
                proof {
                    lemma_extends_trans(t1, t0, start);
                    lemma_extends_trans(table@, t1, start);
                }
                return None;
            },
        };
        proof {
            lemma_extends_trans(table@, t1, t0);
            lemma_extends_trans(table@, t0, start);
            lemma_extends_resolves(table@, t1, k as int);
            lemma_indexes_extend(table@, t0, ks@, vs@, tags@.take(i as int));
        }
        ks.push(k);
        vs.push(v);
        proof {
            let tt = tags@.take(i + 1);
            assert forall|j: int| 0 <= j < tt.len() implies string_at(table@, #[trigger] ks@[j] as int)
                == Some(tt[j].0@) by {
                if j < i {
                    assert(tt[j] == tags@.take(i as int)[j]);
                }
            }
            assert forall|j: int| 0 <= j < tt.len() implies string_at(table@, #[trigger] vs@[j] as int)
                == Some(tt[j].1@) by {
                if j < i {
                    assert(tt[j] == tags@.take(i as int)[j]);
                }
            }
        }
        i = i + 1;
    }
    assert(tags@.take(tags@.len() as int) == tags@);
    Some((ks, vs))
}

/// `info` holds the metadata of `meta`, its user name as a string index.
pub open spec fn info_encodes(table: Seq<String>, info: Info, meta: ObjMeta) -> bool {
    &&& info.version == meta.version
    &&& info.deleted == meta.deleted
    &&& info.changeset_id == meta.changeset_id
    &&& info.timestamp == meta.timestamp
    &&& info.uid == meta.uid
    &&& user_of(table, info.user_sid) == meta.user
    &&& crate::decode::info_ok(table, info)
}

/// A later table keeps encoded metadata valid.
pub proof fn lemma_info_extend(t: Seq<String>, s: Seq<String>, info: Info, meta: ObjMeta)
    requires
        extends(t, s),
        info_encodes(s, info, meta),
    ensures
        info_encodes(t, info, meta),
{
    if info.user_sid != 0 {
        lemma_extends_resolves(t, s, info.user_sid as int);
    }
}

/// Encodes the metadata of an object, interning its user name.
pub fn encode_info<T: OSMObjBase>(table: &mut Vec<String>, x: &T) -> (r: Option<Info>)
    requires
        old(table)@.len() >= 1,
        table_distinct(old(table)@),
    ensures
        extends(final(table)@, old(table)@),
        table_distinct(final(table)@),
        final(table)@.len() <= old(table)@.len() + 1,
        match r {
            Some(info) => info_encodes(final(table)@, info, x.meta()),
            None => final(table)@.len() >= u32::MAX,
        },
{
    let user_sid = match x.user() {
        Some(u) => intern(table, u)?,
        None => {
            assert(table@.subrange(0, table@.len() as int) =~= table@);
            0
        },
    };
    Some(
        Info {
            version: x.version(),
            deleted: x.deleted(),
            changeset_id: x.changeset_id(),
            timestamp: copy_timestamp(x.timestamp()),
            uid: x.uid(),
            user_sid,
        },
    )
}

/// How many strings a line can add to the string table.
pub open spec fn way_cost(w: StringWay) -> int {
    2 * w.tags@.len() as int + 1
}

/// How many strings a relation can add to the string table.
pub open spec fn relation_cost(m: StringRelation) -> int {
    2 * m.tags@.len() as int + m.members@.len() as int + 1
}

/// How many strings points can add to the string table.
pub open spec fn nodes_cost(ns: Seq<StringNode>) -> int
    decreases ns.len(),
{
    if ns.len() == 0 {
        0
    } else {
        nodes_cost(ns.drop_last()) + 2 * ns.last().tags@.len() + 1
    }
}

/// The cost of some first points is at most that of all.
pub proof fn lemma_nodes_cost_prefix(ns: Seq<StringNode>, k: int)
    requires
        0 <= k <= ns.len(),
    ensures
        0 <= nodes_cost(ns.take(k)) <= nodes_cost(ns),
    decreases ns.len(),
{
    if ns.len() > 0 {
        if k == ns.len() {
            assert(ns.take(k) == ns);
            lemma_nodes_cost_prefix(ns.drop_last(), k - 1);
        } else {
            assert(ns.drop_last().take(k) == ns.take(k));
            lemma_nodes_cost_prefix(ns.drop_last(), k);
        }
    } else {
        assert(ns.take(k).len() == 0);
    }
}

/// `b` is line `w` encoded against the string table.
pub open spec fn encodes_way(table: Seq<String>, b: WayBlock, w: StringWay) -> bool {
    &&& b.id == w.id
    &&& info_encodes(table, b.info, w.meta())
    &&& indexes_tags(table, b.keys@, b.vals@, w.tags@)
    &&& b.refs@.len() == w.nodes@.len()
    &&& forall|i: int| 0 <= i < w.nodes@.len() ==> b.refs@[i] as int == differences(w.nodes@)[i]
}

/// `b` is relation `m` encoded against the string table.
pub open spec fn encodes_relation(table: Seq<String>, b: RelationBlock, m: StringRelation) -> bool {
    &&& b.id == m.id
    &&& info_encodes(table, b.info, m.meta())
    &&& indexes_tags(table, b.keys@, b.vals@, m.tags@)
    &&& b.memids@.len() == m.members@.len()
    &&& b.roles_sid@.len() == m.members@.len()
    &&& b.types@.len() == m.members@.len()
    &&& forall|i: int|
        0 <= i < m.members@.len() ==> {
            &&& b.memids@[i] as int == differences(member_ids(m.members@))[i]
            &&& string_at(table, b.roles_sid@[i] as int) == Some(m.members@[i].2@)
            &&& b.types@[i] == kind_code(m.members@[i].0)
        }
}

/// A later table keeps an encoded line valid.
pub proof fn lemma_encodes_way_extend(t: Seq<String>, s: Seq<String>, b: WayBlock, w: StringWay)
    requires
        extends(t, s),
        encodes_way(s, b, w),
    ensures
        encodes_way(t, b, w),
{
    lemma_indexes_extend(t, s, b.keys@, b.vals@, w.tags@);
    lemma_info_extend(t, s, b.info, w.meta());
}

/// A later table keeps an encoded relation valid.
pub proof fn lemma_encodes_relation_extend(
    t: Seq<String>,
    s: Seq<String>,
    b: RelationBlock,
    m: StringRelation,
)
    requires
        extends(t, s),
        encodes_relation(s, b, m),
    ensures
        encodes_relation(t, b, m),
{
    lemma_indexes_extend(t, s, b.keys@, b.vals@, m.tags@);
    lemma_info_extend(t, s, b.info, m.meta());
    assert forall|i: int| 0 <= i < m.members@.len() implies string_at(t, b.roles_sid@[i] as int)
        == Some(m.members@[i].2@) by {
        assert(b.types@[i] == kind_code(m.members@[i].0));
        lemma_extends_resolves(t, s, b.roles_sid@[i] as int);
    }
}

/// Encodes a line: its tags as string indices and its point ids as deltas.
pub fn encode_way(table: &mut Vec<String>, w: &StringWay) -> (r: Result<WayBlock, EncodeError>)
    requires
        old(table)@.len() >= 1,
        table_distinct(old(table)@),
    ensures
        extends(final(table)@, old(table)@),
        table_distinct(final(table)@),
        final(table)@.len() <= old(table)@.len() + way_cost(*w),
        match r {
            Ok(b) => encodes_way(final(table)@, b, *w),
            Err(e) => (e == EncodeError::OutOfRange && !differences_fit(w.nodes@)) || (e
                == EncodeError::TableFull && final(table)@.len() >= u32::MAX),
        },
{
    let refs = match encode_deltas(&w.nodes) {
        Some(d) => d,
        None => {
            assert(table@.subrange(0, table@.len() as int) == table@);
            return Err(EncodeError::OutOfRange);
        },
    };
    let (keys, vals) = match encode_tags(table, &w.tags) {
        Some(p) => p,
        None => {
            return Err(EncodeError::TableFull);
        },
    };
    let ghost t0 = old(table)@;
    let ghost t1 = table@;
    match encode_info(table, w) {
        Some(info) => {
            proof {
                lemma_extends_trans(table@, t1, t0);
                lemma_indexes_extend(table@, t1, keys@, vals@, w.tags@);
            }
            Ok(WayBlock { id: w.id, keys, vals, refs, info })
        },
        None => {
            proof {
                lemma_extends_trans(table@, t1, t0);
            }
            Err(EncodeError::TableFull)
        },
    }
}

/// The code of a member kind: 0 point, 1 line, 2 relation.
pub open spec fn kind_code(t: OSMObjectType) -> u32 {
    match t {
        OSMObjectType::Node => 0,
        OSMObjectType::Way => 1,
        OSMObjectType::Relation => 2,
    }
}

fn encode_member_kind(t: OSMObjectType) -> (r: u32)
    ensures
        r == kind_code(t),
{
    match t {
        OSMObjectType::Node => 0,
        OSMObjectType::Way => 1,
        OSMObjectType::Relation => 2,
    }
}

/// The member ids of a relation.
pub open spec fn member_ids(m: Seq<(OSMObjectType, ObjId, String)>) -> Seq<i64> {
    m.map_values(|x: (OSMObjectType, ObjId, String)| x.1)
}

/// Encodes a relation: tags and roles as string indices, member ids as
/// deltas, member kinds as codes, all by position.
pub fn encode_relation(table: &mut Vec<String>, m: &StringRelation) -> (r: Result<
    RelationBlock,
    EncodeError,
>)
    requires
        old(table)@.len() >= 1,
        table_distinct(old(table)@),
    ensures
        extends(final(table)@, old(table)@),
        table_distinct(final(table)@),
        final(table)@.len() <= old(table)@.len() + relation_cost(*m),
        match r {
            Ok(b) => encodes_relation(final(table)@, b, *m),
            Err(e) => (e == EncodeError::OutOfRange && !differences_fit(member_ids(m.members@)))
                || (e == EncodeError::TableFull && final(table)@.len() >= u32::MAX),
        },
{
    let ghost start = table@;
    assert(table@.subrange(0, table@.len() as int) == table@);
    let mut ids: Vec<i64> = Vec::new();
    let mut types: Vec<u32> = Vec::new();
    let mut i: usize = 0;
    while i < m.members.len()
        invariant
            0 <= i <= m.members@.len(),
            ids@.len() == i,
            types@.len() == i,
            forall|j: int| 0 <= j < i ==> ids@[j] == member_ids(m.members@)[j],
            forall|j: int| 0 <= j < i ==> types@[j] == kind_code(m.members@[j].0),
        decreases m.members@.len() - i,
    {
        ids.push(m.members[i].1);
        types.push(encode_member_kind(m.members[i].0));
        i = i + 1;
    }
    assert(ids@ =~= member_ids(m.members@));
    let memids = match encode_deltas(&ids) {
        Some(d) => d,
        None => {
            return Err(EncodeError::OutOfRange);
        },
    };
    let (keys, vals) = match encode_tags(table, &m.tags) {
        Some(p) => p,
        None => {
            return Err(EncodeError::TableFull);
        },
    };
    let ghost t0 = table@;
    assert(table@.subrange(0, table@.len() as int) == table@);
    let mut roles: Vec<u32> = Vec::new();
    let mut j: usize = 0;
    while j < m.members.len()
        invariant
            0 <= j <= m.members@.len(),
            table@.len() >= 1,
            table_distinct(table@),
            start == old(table)@,
            extends(t0, start),
            extends(table@, t0),
            t0.len() <= start.len() + 2 * m.tags@.len(),
            table@.len() <= t0.len() + j,
            roles@.len() == j,
            forall|q: int|
                0 <= q < j ==> string_at(table@, #[trigger] roles@[q] as int) == Some(
                    m.members@[q].2@,
                ),
        decreases m.members@.len() - j,
    {
        let ghost tb = table@;
        match intern(table, m.members[j].2.as_str()) {
            Some(k) => {
                proof {
                    lemma_extends_trans(table@, tb, t0);
                    assert forall|q: int| 0 <= q < j implies string_at(
                        table@,
                        #[trigger] roles@[q] as int,
                    ) == Some(m.members@[q].2@) by {
                        lemma_extends_resolves(table@, tb, roles@[q] as int);
                    }
                }
                roles.push(k);
            },
            None => {
                proof {
                    lemma_extends_trans(table@, t0, start);
                }
                return Err(EncodeError::TableFull);
            },
        }
        j = j + 1;
    }
    let ghost t1 = table@;
    let info = match encode_info(table, m) {
        Some(info) => info,
        None => {
            proof {
                lemma_extends_trans(t1, t0, start);
                lemma_extends_trans(table@, t1, start);
            }
            return Err(EncodeError::TableFull);
        },
    };
    proof {
        lemma_extends_trans(table@, t1, t0);
        lemma_extends_trans(table@, t0, start);
        lemma_indexes_extend(table@, t0, keys@, vals@, m.tags@);
        assert forall|q: int| 0 <= q < m.members@.len() implies string_at(table@, #[trigger] roles@[q] as int)
            == Some(m.members@[q].2@) by {
            lemma_extends_resolves(table@, t1, roles@[q] as int);
        }
    }
    Ok(RelationBlock { id: m.id, keys, vals, roles_sid: roles, memids, types, info })
}

/// From position `p`, the packed list holds the key and value indices of
/// `tags` in turn, then a 0.
pub open spec fn group_at(table: Seq<String>, kv: Seq<u32>, p: int, tags: Seq<(String, String)>) -> bool {
    &&& 0 <= p
    &&& p + 2 * tags.len() + 1 <= kv.len()
    &&& forall|j: int|
        0 <= j < tags.len() ==> string_at(table, #[trigger] kv[p + 2 * j] as int) == Some(
            tags[j].0@,
        ) && string_at(table, kv[p + 2 * j + 1] as int) == Some(tags[j].1@)
    &&& kv[p + 2 * tags.len()] == 0
}

/// A column of the points' ids.
pub open spec fn node_ids_of(ns: Seq<StringNode>) -> Seq<i64> {
    ns.map_values(|n: StringNode| n.id)
}

/// A column of the points' latitudes, in units of 1e-7 degrees.
pub open spec fn lats_of(ns: Seq<StringNode>) -> Seq<i64> {
    ns.map_values(|n: StringNode| n.lat_lon->Some_0.0 as i64)
}

/// A column of the points' longitudes, in units of 1e-7 degrees.
pub open spec fn lons_of(ns: Seq<StringNode>) -> Seq<i64> {
    ns.map_values(|n: StringNode| n.lat_lon->Some_0.1 as i64)
}

/// Every point has a location.
pub open spec fn all_located(ns: Seq<StringNode>) -> bool {
    forall|i: int| 0 <= i < ns.len() ==> (#[trigger] ns[i]).lat_lon is Some
}

/// `d` is the dense group of points `ns` encoded against the string table, at
/// granularity 100 from offset 0.
pub open spec fn encodes_dense(table: Seq<String>, d: DenseNodes, ns: Seq<StringNode>) -> bool {
    &&& all_located(ns)
    &&& d.id@.len() == ns.len() && d.lat@.len() == ns.len() && d.lon@.len() == ns.len()
    &&& forall|i: int|
        0 <= i < ns.len() ==> d.id@[i] as int == differences(node_ids_of(ns))[i] && d.lat@[i] as int
            == differences(lats_of(ns))[i] && d.lon@[i] as int == differences(lons_of(ns))[i]
    &&& exists|st: Seq<int>| group_starts(table, d.keys_vals@, ns, st)
    &&& d.infos@.len() == ns.len()
    &&& forall|i: int| 0 <= i < ns.len() ==> info_encodes(table, #[trigger] d.infos@[i], ns[i].meta())
}

/// `st` gives where each point's tag group starts in the packed list, and
/// each group holds that point's tags.
pub open spec fn group_starts(table: Seq<String>, kv: Seq<u32>, ns: Seq<StringNode>, st: Seq<int>) -> bool {
    &&& st.len() == ns.len() + 1
    &&& st[0] == 0
    &&& st[ns.len() as int] == kv.len()
    &&& forall|i: int|
        0 <= i < ns.len() ==> st[i + 1] == st[i] + 2 * (#[trigger] ns[i]).tags@.len() + 1
            && group_at(table, kv, st[i], ns[i].tags@)
}

/// A later table keeps an encoded dense group valid.
pub proof fn lemma_encodes_dense_extend(t: Seq<String>, s: Seq<String>, d: DenseNodes, ns: Seq<StringNode>)
    requires
        extends(t, s),
        encodes_dense(s, d, ns),
    ensures
        encodes_dense(t, d, ns),
{
    let st = choose|st: Seq<int>| group_starts(s, d.keys_vals@, ns, st);
    let kv = d.keys_vals@;
    assert forall|i: int| 0 <= i < ns.len() implies st[i + 1] == st[i] + 2 * (#[trigger] ns[i]).tags@.len() + 1
        && group_at(t, kv, st[i], ns[i].tags@) by {
        assert(group_at(s, kv, st[i], ns[i].tags@));
        assert forall|m: int| 0 <= m < ns[i].tags@.len() implies string_at(t, #[trigger] kv[st[i] + 2 * m] as int)
            == Some(ns[i].tags@[m].0@) && string_at(t, kv[st[i] + 2 * m + 1] as int) == Some(ns[i].tags@[m].1@) by {
            assert(string_at(s, kv[st[i] + 2 * m] as int) == Some(ns[i].tags@[m].0@));
            lemma_extends_resolves(t, s, kv[st[i] + 2 * m] as int);
            lemma_extends_resolves(t, s, kv[st[i] + 2 * m + 1] as int);
        }
    }
    assert(group_starts(t, kv, ns, st));
    assert forall|i: int| 0 <= i < ns.len() implies info_encodes(t, #[trigger] d.infos@[i], ns[i].meta()) by {
        lemma_info_extend(t, s, d.infos@[i], ns[i].meta());
    }
}

/// Appends the key/value indices of `tags` and a terminating 0.
fn push_group(table: &mut Vec<String>, kv: &mut Vec<u32>, tags: &Vec<(String, String)>) -> (r: bool)
    requires
        old(table)@.len() >= 1,
        table_distinct(old(table)@),
    ensures
        extends(final(table)@, old(table)@),
        table_distinct(final(table)@),
        final(table)@.len() <= old(table)@.len() + 2 * tags@.len(),
        r ==> final(kv)@.subrange(0, old(kv)@.len() as int) == old(kv)@ && final(kv)@.len()
            == old(kv)@.len() + 2 * tags@.len() + 1 && group_at(
            final(table)@,
            final(kv)@,
            old(kv)@.len() as int,
            tags@,
        ),
        !r ==> final(table)@.len() >= u32::MAX,
{
    let ghost k0 = kv@;
    match encode_tags(table, tags) {
        Some(p) => {
            let (ks, vs) = p;
            let mut j: usize = 0;
            while j < ks.len()
                invariant
                    ks@.len() == tags@.len(),
                    vs@.len() == tags@.len(),
                    0 <= j <= ks@.len(),
                    kv@.len() == k0.len() + 2 * j,
                    kv@.subrange(0, k0.len() as int) == k0,
                    forall|q: int| 0 <= q < j ==> kv@[k0.len() + 2 * q] == ks@[q] && kv@[k0.len() + 2 * q + 1] == vs@[q],
                decreases ks@.len() - j,
            {
                let ghost before = kv@;
                kv.push(ks[j]);
                kv.push(vs[j]);
                proof {
                    assert(kv@.subrange(0, k0.len() as int) =~= before.subrange(0, k0.len() as int));
                    assert forall|q: int| 0 <= q < j + 1 implies kv@[k0.len() + 2 * q] == ks@[q] && kv@[k0.len() + 2 * q + 1] == vs@[q] by {
                        if q < j {
                            assert(kv@[k0.len() + 2 * q] == before[k0.len() + 2 * q]);
                            assert(kv@[k0.len() + 2 * q + 1] == before[k0.len() + 2 * q + 1]);
                        }
                    }
                }
                j = j + 1;
            }
            let ghost before = kv@;
            kv.push(0);
            proof {
                assert(kv@.subrange(0, k0.len() as int) =~= before.subrange(0, k0.len() as int));
                assert forall|q: int| 0 <= q < tags@.len() implies string_at(table@, #[trigger] kv@[k0.len() + 2 * q] as int) == Some(
                    tags@[q].0@) && string_at(table@, kv@[k0.len() + 2 * q + 1] as int) == Some(tags@[q].1@) by {
                    assert(kv@[k0.len() + 2 * q] == before[k0.len() + 2 * q]);
                    assert(kv@[k0.len() + 2 * q + 1] == before[k0.len() + 2 * q + 1]);
                    assert(string_at(table@, ks@[q] as int) == Some(tags@[q].0@));
                    assert(string_at(table@, vs@[q] as int) == Some(tags@[q].1@));
                }
            }
            true
        },
        None => false,
    }
}

/// Encodes points into a dense group, coordinates at granularity 100 from
/// offset 0: ids and coordinates as delta columns, tags as packed groups.
pub fn encode_dense(table: &mut Vec<String>, ns: &Vec<StringNode>) -> (r: Result<DenseNodes, EncodeError>)
    requires
        old(table)@.len() >= 1,
        table_distinct(old(table)@),
    ensures
        extends(final(table)@, old(table)@),
        table_distinct(final(table)@),
        final(table)@.len() <= old(table)@.len() + nodes_cost(ns@),
        match r {
            Ok(d) => encodes_dense(final(table)@, d, ns@),
            Err(e) => (e == EncodeError::MissingLocation && !all_located(ns@))
                || (e == EncodeError::OutOfRange && all_located(ns@) && (!differences_fit(node_ids_of(ns@))
                    || !differences_fit(lats_of(ns@)) || !differences_fit(lons_of(ns@))))
                || (e == EncodeError::TableFull && final(table)@.len() >= u32::MAX),
        },
{
    proof {
        lemma_nodes_cost_prefix(ns@, ns@.len() as int);
        assert(ns@.take(0) =~= Seq::<StringNode>::empty());
    }
    assert(table@.subrange(0, table@.len() as int) == table@);
    let mut ids: Vec<i64> = Vec::new();
    let mut lats: Vec<i64> = Vec::new();
    let mut lons: Vec<i64> = Vec::new();
    let mut i: usize = 0;
    while i < ns.len()
        invariant
            0 <= i <= ns@.len(),
            table@ == old(table)@,
            table_distinct(table@),
            nodes_cost(ns@) >= 0,
            ids@.len() == i && lats@.len() == i && lons@.len() == i,
            forall|j: int| 0 <= j < i ==> (#[trigger] ns@[j]).lat_lon is Some,
            forall|j: int| 0 <= j < i ==> ids@[j] == node_ids_of(ns@)[j] && lats@[j] == lats_of(ns@)[j] && lons@[j] == lons_of(ns@)[j],
        decreases ns@.len() - i,
    {
        match ns[i].lat_lon {
            Some(c) => {
                ids.push(ns[i].id);
                lats.push(c.0 as i64);
                lons.push(c.1 as i64);
            },
            None => {
                assert(!all_located(ns@));
                assert(table@.subrange(0, table@.len() as int) == table@);
                return Err(EncodeError::MissingLocation);
            },
        }
        i = i + 1;
    }
    assert(table@.subrange(0, table@.len() as int) == table@);
    assert(ids@ =~= node_ids_of(ns@));
    assert(lats@ =~= lats_of(ns@));
    assert(lons@ =~= lons_of(ns@));
    let did = match encode_deltas(&ids) {
        Some(d) => d,
        None => {
            return Err(EncodeError::OutOfRange);
        },
    };
    let dlat = match encode_deltas(&lats) {
        Some(d) => d,
        None => {
            return Err(EncodeError::OutOfRange);
        },
    };
    let dlon = match encode_deltas(&lons) {
        Some(d) => d,
        None => {
            return Err(EncodeError::OutOfRange);
        },
    };
    let ghost start = table@;
    let mut kv: Vec<u32> = Vec::new();
    let mut infos: Vec<Info> = Vec::new();
    let ghost mut st: Seq<int> = seq![0];
    let mut j: usize = 0;
    while j < ns.len()
        invariant
            0 <= j <= ns@.len(),
            table@.len() >= 1,
            table_distinct(table@),
            start == old(table)@,
            extends(table@, start),
            table@.len() <= start.len() + nodes_cost(ns@.take(j as int)),
            st.len() == j + 1,
            st[0] == 0,
            st[j as int] == kv@.len(),
            infos@.len() == j,
            forall|q: int| 0 <= q < j ==> info_encodes(table@, #[trigger] infos@[q], ns@[q].meta()),
            forall|q: int| 0 <= q < j ==> st[q + 1] == st[q] + 2 * (#[trigger] ns@[q]).tags@.len() + 1
                && group_at(table@, kv@, st[q], ns@[q].tags@),
        decreases ns@.len() - j,
    {
        let ghost tp = table@;
        proof {
            assert(ns@.take(j + 1).drop_last() == ns@.take(j as int));
        }
        let info = match encode_info(table, &ns[j]) {
            Some(info) => info,
            None => {
                proof {
                    lemma_extends_trans(table@, tp, start);
                    lemma_nodes_cost_prefix(ns@, j + 1);
                }
                return Err(EncodeError::TableFull);
            },
        };
        let ghost t0 = table@;
        let ghost k0 = kv@;
        if !push_group(table, &mut kv, &ns[j].tags) {
            proof {
                lemma_extends_trans(t0, tp, start);
                lemma_extends_trans(table@, t0, start);
                lemma_nodes_cost_prefix(ns@, j + 1);
            }
            return Err(EncodeError::TableFull);
        }
        proof {
            lemma_extends_trans(t0, tp, start);
            lemma_extends_trans(table@, t0, start);
            lemma_extends_trans(table@, t0, tp);
            assert forall|q: int| 0 <= q < j implies info_encodes(table@, #[trigger] infos@[q], ns@[q].meta()) by {
                lemma_info_extend(table@, tp, infos@[q], ns@[q].meta());
            }
            lemma_info_extend(table@, t0, info, ns@[j as int].meta());
            assert forall|q: int| 0 <= q < j implies st[q + 1] == st[q] + 2 * (#[trigger] ns@[q]).tags@.len() + 1
                && group_at(table@, kv@, st[q], ns@[q].tags@) by {
                assert(group_at(tp, k0, st[q], ns@[q].tags@));
                assert forall|m: int| 0 <= m < ns@[q].tags@.len() implies string_at(table@, #[trigger] kv@[st[q] + 2 * m] as int) == Some(
                    ns@[q].tags@[m].0@) && string_at(table@, kv@[st[q] + 2 * m + 1] as int) == Some(ns@[q].tags@[m].1@) by {
                    assert(kv@[st[q] + 2 * m] == kv@.subrange(0, k0.len() as int)[st[q] + 2 * m]);
                    assert(kv@[st[q] + 2 * m + 1] == kv@.subrange(0, k0.len() as int)[st[q] + 2 * m + 1]);
                    assert(string_at(tp, k0[st[q] + 2 * m] as int) == Some(ns@[q].tags@[m].0@));
                    lemma_extends_resolves(table@, tp, k0[st[q] + 2 * m] as int);
                    lemma_extends_resolves(table@, tp, k0[st[q] + 2 * m + 1] as int);
                }
                assert(kv@[st[q] + 2 * ns@[q].tags@.len()] == kv@.subrange(0, k0.len() as int)[st[q] + 2 * ns@[q].tags@.len()]);
            }
            st = st.push(kv@.len() as int);
        }
        infos.push(info);
        j = j + 1;
    }
    assert(ns@.take(ns@.len() as int) == ns@);
    let d = DenseNodes { id: did, lat: dlat, lon: dlon, keys_vals: kv, infos };
    assert(group_starts(table@, d.keys_vals@, ns@, st));
    Ok(d)
}

} // verus!
