use vstd::prelude::*;
use crate::base::{members_view, OSMObjBase};
use crate::block::{RelationBlock, WayBlock};
use crate::decode::{
    all_resolve,
    is_decoded_relation,
    is_decoded_way,
    member_kind,

    relation_error,
    relation_members,
    tags_error,
    way_error,
};
use crate::delta::{differences, lemma_delta_round_trip, running_sums};
use crate::encode::{indexes_tags, kind_code, lemma_pairs_map_of_tags, member_ids};
use crate::obj_types::{StringNode, StringOSMObj, StringRelation, StringWay};
use crate::block::{DenseNodes, PrimitiveBlock};
use crate::block_decode::{
    block_error,
    dense_count,
    is_block_object,
    relations_error,
    ways_error,
};
use crate::block_encode::{is_block_encoding, nodes_in, relations_in, ways_in};
use crate::dense::{
    coord_of,
    dense_error,
    fits_i32,
    group_start,
    is_dense_point,
    point_error,
    point_group,
    tag_group,
};
use crate::encode::{
    all_located,
    encodes_dense,
    encodes_relation,
    encodes_way,
    group_at,
    group_starts,
    lats_of,
    lons_of,
    node_ids_of,
};
use crate::object_type::OSMObjectType;

verus! {

proof fn lemma_tags_decode(table: Seq<String>, ks: Seq<u32>, vs: Seq<u32>, tags: Seq<(String, String)>)
    requires
        indexes_tags(table, ks, vs, tags),
    ensures
        tags_error(table, ks, vs) is None,
        crate::decode::pairs_map(table, ks, vs, ks.len() as int) == crate::tags::tag_map(tags),
{
    assert(all_resolve(table, ks));
    assert(all_resolve(table, vs));
    lemma_pairs_map_of_tags(table, ks, vs, tags, tags.len() as int);
    assert(tags.take(tags.len() as int) == tags);
}

/// Round trip of a line: a line, encoded against a string
/// table, decodes from that table to the same line, its points in order.
pub proof fn lemma_way_round_trip(table: Seq<String>, w: StringWay, b: WayBlock)
    requires
        w.wf(),
        encodes_way(table, b, w),
    ensures
        way_error(table, b) is None,
        is_decoded_way(w, table, b),
{
    lemma_tags_decode(table, b.keys@, b.vals@, w.tags@);
    lemma_delta_round_trip(w.nodes@, b.refs@);
}

/// Round trip of a relation: a relation, encoded against a
/// string table, decodes to the same members, kinds, ids and roles by position.
pub proof fn lemma_relation_round_trip(table: Seq<String>, m: StringRelation, b: RelationBlock)
    requires
        m.wf(),
        encodes_relation(table, b, m),
    ensures
        relation_error(table, b) is None,
        is_decoded_relation(m, table, b),
{
    lemma_tags_decode(table, b.keys@, b.vals@, m.tags@);
    let ids = member_ids(m.members@);
    lemma_delta_round_trip(ids, b.memids@);
    assert forall|i: int| 0 <= i < b.roles_sid@.len() implies (#[trigger] crate::decode::string_at(
        table,
        b.roles_sid@[i] as int,
    )) is Some by {
        assert(b.types@[i] == kind_code(m.members@[i].0));
        assert(crate::decode::string_at(table, b.roles_sid@[i] as int) == Some(m.members@[i].2@));
    }
    assert forall|i: int| 0 <= i < b.types@.len() implies (#[trigger] member_kind(b.types@[i])) is Some by {
        assert(b.types@[i] == kind_code(m.members@[i].0));
    }
    assert forall|i: int| 0 <= i < m.members@.len() implies members_view(m.members@)[i]
        == relation_members(table, b)[i] by {
        assert(ids[i] == m.members@[i].1);
        assert(member_kind(kind_code(m.members@[i].0)) == Some(m.members@[i].0));
    }
    assert(members_view(m.members@) =~= relation_members(table, b));
}

/// The key indices of a tag group starting at `p`.
pub open spec fn group_keys(kv: Seq<u32>, p: int, n: int) -> Seq<u32> {
    Seq::new(n as nat, |q: int| kv[p + 2 * q])
}

/// The value indices of a tag group starting at `p`.
pub open spec fn group_vals(kv: Seq<u32>, p: int, n: int) -> Seq<u32> {
    Seq::new(n as nat, |q: int| kv[p + 2 * q + 1])
}

proof fn lemma_tag_group_read(
    table: Seq<String>,
    kv: Seq<u32>,
    p: int,
    tags: Seq<(String, String)>,
    j: int,
)
    requires
        group_at(table, kv, p, tags),
        0 <= j <= tags.len(),
    ensures
        tag_group(kv, p + 2 * j) == Some(
            (
                group_keys(kv, p, tags.len() as int).subrange(j, tags.len() as int),
                group_vals(kv, p, tags.len() as int).subrange(j, tags.len() as int),
                p + 2 * tags.len() + 1,
            ),
        ),
    decreases tags.len() - j,
{
    let n = tags.len() as int;
    let ks = group_keys(kv, p, n);
    let vs = group_vals(kv, p, n);
    if j == n {
        assert(ks.subrange(j, n) =~= Seq::<u32>::empty());
        assert(vs.subrange(j, n) =~= Seq::<u32>::empty());
    } else {
        lemma_tag_group_read(table, kv, p, tags, j + 1);
        assert(crate::decode::string_at(table, kv[p + 2 * j] as int) == Some(tags[j].0@));
        assert(kv[p + 2 * j] != 0);
        assert(p + 2 * (j + 1) == p + 2 * j + 2);
        assert(seq![kv[p + 2 * j]] + ks.subrange(j + 1, n) =~= ks.subrange(j, n));
        assert(seq![kv[p + 2 * j + 1]] + vs.subrange(j + 1, n) =~= vs.subrange(j, n));
    }
}

proof fn lemma_group_tags(table: Seq<String>, kv: Seq<u32>, p: int, tags: Seq<(String, String)>)
    requires
        group_at(table, kv, p, tags),
    ensures
        tag_group(kv, p) == Some(
            (group_keys(kv, p, tags.len() as int), group_vals(kv, p, tags.len() as int), p + 2 * tags.len() + 1),
        ),
        indexes_tags(table, group_keys(kv, p, tags.len() as int), group_vals(kv, p, tags.len() as int), tags),
{
    let n = tags.len() as int;
    lemma_tag_group_read(table, kv, p, tags, 0);
    assert(group_keys(kv, p, n).subrange(0, n) =~= group_keys(kv, p, n));
    assert(group_vals(kv, p, n).subrange(0, n) =~= group_vals(kv, p, n));
    let ks = group_keys(kv, p, n);
    let vs = group_vals(kv, p, n);
    assert forall|i: int| 0 <= i < n implies crate::decode::string_at(table, #[trigger] ks[i] as int) == Some(tags[i].0@) by {
        assert(ks[i] == kv[p + 2 * i]);
    }
    assert forall|i: int| 0 <= i < n implies crate::decode::string_at(table, #[trigger] vs[i] as int) == Some(tags[i].1@) by {
        assert(ks[i] == kv[p + 2 * i]);
        assert(vs[i] == kv[p + 2 * i + 1]);
    }
}

proof fn lemma_group_starts(table: Seq<String>, kv: Seq<u32>, ns: Seq<StringNode>, st: Seq<int>, i: nat)
    requires
        group_starts(table, kv, ns, st),
        i <= ns.len(),
    ensures
        group_start(kv, i) == Some(st[i as int]),
    decreases i,
{
    if i > 0 {
        lemma_group_starts(table, kv, ns, st, (i - 1) as nat);
        let k = (i - 1) as int;
        assert(st[k + 1] == st[k] + 2 * ns[k].tags@.len() + 1 && group_at(table, kv, st[k], ns[k].tags@));
        lemma_group_tags(table, kv, st[k], ns[k].tags@);
    }
}

proof fn lemma_scale_exact(x: int)
    ensures
        coord_of(0, 100, x) == x,
{
    assert((0 + 100 * x) / 100 == x) by (nonlinear_arith);
}

proof fn lemma_dense_points(table: Seq<String>, d: DenseNodes, ns: Seq<StringNode>, i: nat)
    requires
        encodes_dense(table, d, ns),
        forall|k: int| 0 <= k < ns.len() ==> (#[trigger] ns[k]).wf(),
        i <= ns.len(),
    ensures
        sums_fit_all(d),
        point_error(table, 100, 0, 0, d, i) is None,
        forall|k: int| i <= k < ns.len() ==> is_dense_point(#[trigger] ns[k], table, 100, 0, 0, d, k),
    decreases ns.len() - i,
{
    let kv = d.keys_vals@;
    let st = choose|st: Seq<int>| group_starts(table, kv, ns, st);
    lemma_delta_round_trip(node_ids_of(ns), d.id@);
    lemma_delta_round_trip(lats_of(ns), d.lat@);
    lemma_delta_round_trip(lons_of(ns), d.lon@);
    if i < ns.len() {
        lemma_dense_points(table, d, ns, i + 1);
        let k = i as int;
        let x = ns[k];
        assert(st[k + 1] == st[k] + 2 * x.tags@.len() + 1 && group_at(table, kv, st[k], x.tags@));
        lemma_group_starts(table, kv, ns, st, i);
        lemma_group_tags(table, kv, st[k], x.tags@);
        let ks = group_keys(kv, st[k], x.tags@.len() as int);
        let vs = group_vals(kv, st[k], x.tags@.len() as int);
        assert(kv.len() > 0) by {
            lemma_starts_grow(table, kv, ns, st, k + 1);
            lemma_starts_ge_one(table, kv, ns, st, k + 1);
        }
        assert(point_group(kv, i) == Some((ks, vs, st[k] + 2 * x.tags@.len() + 1)));
        lemma_tags_decode(table, ks, vs, x.tags@);
        assert(x.lat_lon is Some);
        lemma_scale_exact(running_sums(d.lat@)[k]);
        lemma_scale_exact(running_sums(d.lon@)[k]);
        assert(running_sums(d.lat@)[k] == lats_of(ns)[k] as int);
        assert(running_sums(d.lon@)[k] == lons_of(ns)[k] as int);
        assert(running_sums(d.id@)[k] == node_ids_of(ns)[k] as int);
        assert(fits_i32(coord_of(0, 100, running_sums(d.lat@)[k])));
        assert(fits_i32(coord_of(0, 100, running_sums(d.lon@)[k])));
        assert(is_dense_point(x, table, 100, 0, 0, d, k));
    }
}

/// Every delta column of a dense group has its running sums in range.
pub open spec fn sums_fit_all(d: DenseNodes) -> bool {
    crate::delta::sums_fit(d.id@) && crate::delta::sums_fit(d.lat@) && crate::delta::sums_fit(d.lon@)
}

proof fn lemma_starts_grow(table: Seq<String>, kv: Seq<u32>, ns: Seq<StringNode>, st: Seq<int>, k: int)
    requires
        group_starts(table, kv, ns, st),
        0 <= k <= ns.len(),
    ensures
        st[k] <= st[ns.len() as int],
    decreases ns.len() - k,
{
    if k < ns.len() {
        lemma_starts_grow(table, kv, ns, st, k + 1);
        assert(st[k + 1] == st[k] + 2 * ns[k].tags@.len() + 1);
    }
}

proof fn lemma_starts_ge_one(table: Seq<String>, kv: Seq<u32>, ns: Seq<StringNode>, st: Seq<int>, k: int)
    requires
        group_starts(table, kv, ns, st),
        1 <= k <= ns.len(),
    ensures
        st[k] >= 1,
    decreases k,
{
    assert(st[k] == st[k - 1] + 2 * ns[k - 1].tags@.len() + 1);
    if k > 1 {
        lemma_starts_ge_one(table, kv, ns, st, k - 1);
    }
}

/// Round trip of dense points: points encoded as a dense group decode to the
/// same ids, locations, tags and metadata, in their order.
pub proof fn lemma_dense_round_trip(table: Seq<String>, d: DenseNodes, ns: Seq<StringNode>)
    requires
        encodes_dense(table, d, ns),
        forall|k: int| 0 <= k < ns.len() ==> (#[trigger] ns[k]).wf(),
    ensures
        dense_error(table, 100, 0, 0, d) is None,
        forall|k: int| 0 <= k < ns.len() ==> is_dense_point(#[trigger] ns[k], table, 100, 0, 0, d, k),
{
    lemma_dense_points(table, d, ns, 0);
}

/// The place of a kind in a block: points, then lines, then relations.
pub open spec fn kind_rank(x: StringOSMObj) -> int {
    match x {
        StringOSMObj::Node(_) => 0,
        StringOSMObj::Way(_) => 1,
        StringOSMObj::Relation(_) => 2,
    }
}

/// The objects come in block order: all points, then all lines, then all
/// relations.
pub open spec fn sorted_by_kind(s: Seq<StringOSMObj>) -> bool {
    forall|i: int, j: int| 0 <= i < j < s.len() ==> kind_rank(#[trigger] s[i]) <= kind_rank(#[trigger] s[j])
}

proof fn lemma_none_above(s: Seq<StringOSMObj>, r: int)
    requires
        forall|j: int| 0 <= j < s.len() ==> kind_rank(#[trigger] s[j]) <= r,
    ensures
        r < 2 ==> relations_in(s).len() == 0,
        r < 1 ==> ways_in(s).len() == 0,
    decreases s.len(),
{
    if s.len() > 0 {
        let t = s.drop_last();
        assert forall|j: int| 0 <= j < t.len() implies kind_rank(#[trigger] t[j]) <= r by {
            assert(t[j] == s[j]);
        }
        lemma_none_above(t, r);
        assert(kind_rank(s[s.len() - 1]) <= r);
    }
}

/// Where each object of a kind-sorted sequence stands among the points, lines
/// and relations that the block encoding separates.
proof fn lemma_partition(s: Seq<StringOSMObj>)
    requires
        sorted_by_kind(s),
    ensures
        s.len() == nodes_in(s).len() + ways_in(s).len() + relations_in(s).len(),
        forall|i: int|
            0 <= i < s.len() ==> #[trigger] s[i] == (if i < nodes_in(s).len() {
                StringOSMObj::Node(nodes_in(s)[i])
            } else if i < nodes_in(s).len() + ways_in(s).len() {
                StringOSMObj::Way(ways_in(s)[i - nodes_in(s).len()])
            } else {
                StringOSMObj::Relation(relations_in(s)[i - nodes_in(s).len() - ways_in(s).len()])
            }),
    decreases s.len(),
{
    if s.len() > 0 {
        let t = s.drop_last();
        let n = s.len() - 1;
        assert(sorted_by_kind(t)) by {
            assert forall|i: int, j: int| 0 <= i < j < t.len() implies kind_rank(#[trigger] t[i]) <= kind_rank(#[trigger] t[j]) by {
                assert(t[i] == s[i] && t[j] == s[j]);
            }
        }
        lemma_partition(t);
        let x = s[n];
        assert forall|j: int| 0 <= j < t.len() implies kind_rank(#[trigger] t[j]) <= kind_rank(x) by {
            assert(t[j] == s[j]);
        }
        lemma_none_above(t, kind_rank(x));
        assert forall|i: int| 0 <= i < s.len() implies #[trigger] s[i] == (if i < nodes_in(s).len() {
            StringOSMObj::Node(nodes_in(s)[i])
        } else if i < nodes_in(s).len() + ways_in(s).len() {
            StringOSMObj::Way(ways_in(s)[i - nodes_in(s).len()])
        } else {
            StringOSMObj::Relation(relations_in(s)[i - nodes_in(s).len() - ways_in(s).len()])
        }) by {
            if i < n {
                assert(s[i] == t[i]);
            }
        }
    }
}

/// Round trip of a block: objects given in block order
/// (points, then lines, then relations), encoded into a block, decode without
/// error to objects that agree with them field for field, in the same order.
pub proof fn lemma_block_round_trip(objs: Seq<StringOSMObj>, b: PrimitiveBlock)
    requires
        is_block_encoding(b, objs),
        sorted_by_kind(objs),
        forall|i: int| 0 <= i < objs.len() ==> (#[trigger] objs[i]).wf(),
    ensures
        block_error(b) is None,
        dense_count(b) + b.ways@.len() + b.relations@.len() == objs.len(),
        forall|i: int| 0 <= i < objs.len() ==> is_block_object(#[trigger] objs[i], b, i),
{
    lemma_partition(objs);
    let t = b.stringtable@;
    let ns = nodes_in(objs);
    let ws = ways_in(objs);
    let rs = relations_in(objs);
    let nd = ns.len() as int;
    let nw = ws.len() as int;
    assert forall|k: int| 0 <= k < ns.len() implies (#[trigger] ns[k]).wf() by {
        assert(objs[k] == StringOSMObj::Node(ns[k]));
        assert(objs[k].wf());
    }
    if b.dense is Some {
        lemma_dense_round_trip(t, b.dense->Some_0, ns);
        assert(dense_count(b) == nd);
    } else {
        assert(dense_count(b) == 0);
    }
    assert forall|k: int| 0 <= k < ws.len() implies way_error(t, #[trigger] b.ways@[k]) is None
        && is_decoded_way(ws[k], t, b.ways@[k]) by {
        assert(objs[nd + k] == StringOSMObj::Way(ws[k]));
        assert(objs[nd + k].wf());
        assert(encodes_way(t, b.ways@[k], ws[k]));
        lemma_way_round_trip(t, ws[k], b.ways@[k]);
    }
    assert forall|k: int| 0 <= k < rs.len() implies relation_error(t, #[trigger] b.relations@[k]) is None
        && is_decoded_relation(rs[k], t, b.relations@[k]) by {
        assert(objs[nd + nw + k] == StringOSMObj::Relation(rs[k]));
        assert(objs[nd + nw + k].wf());
        assert(encodes_relation(t, b.relations@[k], rs[k]));
        lemma_relation_round_trip(t, rs[k], b.relations@[k]);
    }
    lemma_ways_ok(t, b.ways@, 0);
    lemma_relations_ok(t, b.relations@, 0);
}

proof fn lemma_ways_ok(t: Seq<String>, ws: Seq<crate::block::WayBlock>, i: int)
    requires
        0 <= i,
        forall|k: int| 0 <= k < ws.len() ==> way_error(t, #[trigger] ws[k]) is None,
    ensures
        ways_error(t, ws, i) is None,
    decreases ws.len() - i,
{
    if i < ws.len() {
        lemma_ways_ok(t, ws, i + 1);
    }
}

proof fn lemma_relations_ok(t: Seq<String>, rs: Seq<crate::block::RelationBlock>, i: int)
    requires
        0 <= i,
        forall|k: int| 0 <= k < rs.len() ==> relation_error(t, #[trigger] rs[k]) is None,
    ensures
        relations_error(t, rs, i) is None,
    decreases rs.len() - i,
{
    if i < rs.len() {
        lemma_relations_ok(t, rs, i + 1);
    }
}

} // verus!
