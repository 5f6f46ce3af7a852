use vstd::prelude::*;
use crate::block::{PrimitiveBlock, RelationBlock, WayBlock};
use crate::decode::string_at;
use crate::delta::differences_fit;
use crate::encode::{
    table_distinct,
    all_located,
    nodes_cost,
    relation_cost,
    way_cost,
    lemma_nodes_cost_prefix,
    lats_of,
    lons_of,
    member_ids,
    node_ids_of,
    encode_dense,
    encode_relation,
    encode_way,
    encodes_dense,
    encodes_relation,
    encodes_way,
    extends,
    lemma_encodes_dense_extend,
    lemma_encodes_relation_extend,
    lemma_encodes_way_extend,
    lemma_extends_trans,
    EncodeError,
};
use crate::obj_types::{StringNode, StringOSMObj, StringRelation, StringWay};

verus! {

/// The points among the objects, in order.
pub open spec fn nodes_in(s: Seq<StringOSMObj>) -> Seq<StringNode>
    decreases s.len(),
{
    if s.len() == 0 {
        Seq::empty()
    } else {
        match s.last() {
            StringOSMObj::Node(n) => nodes_in(s.drop_last()).push(n),
            _ => nodes_in(s.drop_last()),
        }
    }
}

/// The lines among the objects, in order.
pub open spec fn ways_in(s: Seq<StringOSMObj>) -> Seq<StringWay>
    decreases s.len(),
{
    if s.len() == 0 {
        Seq::empty()
    } else {
        match s.last() {
            StringOSMObj::Way(w) => ways_in(s.drop_last()).push(w),
            _ => ways_in(s.drop_last()),
        }
    }
}

/// The relations among the objects, in order.
pub open spec fn relations_in(s: Seq<StringOSMObj>) -> Seq<StringRelation>
    decreases s.len(),
{
    if s.len() == 0 {
        Seq::empty()
    } else {
        match s.last() {
            StringOSMObj::Relation(r) => relations_in(s.drop_last()).push(r),
            _ => relations_in(s.drop_last()),
        }
    }
}

/// `b` is a block that encodes the objects: its points in a dense group (when
/// there are any), its lines and its relations, each kind in the order given,
/// all against one string table whose index 0 is reserved.
pub open spec fn is_block_encoding(b: PrimitiveBlock, objs: Seq<StringOSMObj>) -> bool {
    &&& b.stringtable@.len() >= 1
    &&& table_distinct(b.stringtable@)
    &&& b.granularity == 100 && b.lat_offset == 0 && b.lon_offset == 0
    &&& (b.dense is Some <==> nodes_in(objs).len() > 0)
    &&& (b.dense is Some ==> encodes_dense(b.stringtable@, b.dense->Some_0, nodes_in(objs)))
    &&& b.ways@.len() == ways_in(objs).len()
    &&& forall|i: int|
        0 <= i < b.ways@.len() ==> encodes_way(b.stringtable@, #[trigger] b.ways@[i], ways_in(objs)[i])
    &&& b.relations@.len() == relations_in(objs).len()
    &&& forall|i: int|
        0 <= i < b.relations@.len() ==> encodes_relation(
            b.stringtable@,
            #[trigger] b.relations@[i],
            relations_in(objs)[i],
        )
}

/// How many strings lines can add to the string table.
pub open spec fn ways_cost(ws: Seq<StringWay>) -> int
    decreases ws.len(),
{
    if ws.len() == 0 {
        0
    } else {
        ways_cost(ws.drop_last()) + way_cost(ws.last())
    }
}

/// How many strings relations can add to the string table.
pub open spec fn relations_cost(rs: Seq<StringRelation>) -> int
    decreases rs.len(),
{
    if rs.len() == 0 {
        0
    } else {
        relations_cost(rs.drop_last()) + relation_cost(rs.last())
    }
}

/// An upper bound on the strings that encoding the objects interns: keys,
/// values, roles and user names.
pub open spec fn strings_needed(objs: Seq<StringOSMObj>) -> int {
    nodes_cost(nodes_in(objs)) + ways_cost(ways_in(objs)) + relations_cost(relations_in(objs))
}

proof fn lemma_ways_cost_prefix(ws: Seq<StringWay>, k: int)
    requires
        0 <= k <= ws.len(),
    ensures
        0 <= ways_cost(ws.take(k)) <= ways_cost(ws),
    decreases ws.len(),
{
    if ws.len() > 0 {
        if k == ws.len() {
            assert(ws.take(k) == ws);
            lemma_ways_cost_prefix(ws.drop_last(), k - 1);
        } else {
            assert(ws.drop_last().take(k) == ws.take(k));
            lemma_ways_cost_prefix(ws.drop_last(), k);
        }
    } else {
        assert(ws.take(k).len() == 0);
    }
}

proof fn lemma_relations_cost_prefix(rs: Seq<StringRelation>, k: int)
    requires
        0 <= k <= rs.len(),
    ensures
        0 <= relations_cost(rs.take(k)) <= relations_cost(rs),
    decreases rs.len(),
{
    if rs.len() > 0 {
        if k == rs.len() {
            assert(rs.take(k) == rs);
            lemma_relations_cost_prefix(rs.drop_last(), k - 1);
        } else {
            assert(rs.drop_last().take(k) == rs.take(k));
            lemma_relations_cost_prefix(rs.drop_last(), k);
        }
    } else {
        assert(rs.take(k).len() == 0);
    }
}

/// Every successive difference of ids and coordinates that the encoding
/// takes fits in 64 bits.
pub open spec fn encodable(objs: Seq<StringOSMObj>) -> bool {
    &&& differences_fit(node_ids_of(nodes_in(objs)))
    &&& differences_fit(lats_of(nodes_in(objs)))
    &&& differences_fit(lons_of(nodes_in(objs)))
    &&& forall|i: int| 0 <= i < ways_in(objs).len() ==> differences_fit(#[trigger] ways_in(objs)[i].nodes@)
    &&& forall|i: int|
        0 <= i < relations_in(objs).len() ==> differences_fit(member_ids(#[trigger] relations_in(objs)[i].members@))
}

/// Encoding the objects can fail with `e`: the string table would overflow,
/// a point has no location, or a difference leaves the 64-bit range.
pub open spec fn encode_error(objs: Seq<StringOSMObj>, e: EncodeError) -> bool {
    ||| (e == EncodeError::TableFull && 1 + strings_needed(objs) >= u32::MAX)
    ||| (e == EncodeError::MissingLocation && !all_located(nodes_in(objs)))
    ||| (e == EncodeError::OutOfRange && !encodable(objs))
}

/// Encodes objects into one block: its points in a dense group (when there
/// are any), its lines and its relations, each kind in the order given, all
/// against one string table whose index 0 is reserved.
pub fn encode_block(objs_in: Vec<StringOSMObj>) -> (r: Result<PrimitiveBlock, EncodeError>)
    ensures
        match r {
            Ok(b) => is_block_encoding(b, objs_in@),
            Err(e) => encode_error(objs_in@, e),
        },
{
    let ghost all = objs_in@;
    let mut objs = objs_in;
    let n = objs.len();
    let mut nodes: Vec<StringNode> = Vec::new();
    let mut ways: Vec<StringWay> = Vec::new();
    let mut rels: Vec<StringRelation> = Vec::new();
    let mut i: usize = 0;
    while i < n
        invariant
            n == all.len(),
            0 <= i <= n,
            objs@ == all.subrange(i as int, n as int),
            nodes@ == nodes_in(all.take(i as int)),
            ways@ == ways_in(all.take(i as int)),
            rels@ == relations_in(all.take(i as int)),
        decreases n - i,
    {
        let x = objs.remove(0);
        proof {
            assert(x == all[i as int]);
            assert(objs@ =~= all.subrange(i + 1, n as int));
            assert(all.take(i + 1).drop_last() == all.take(i as int));
        }
        match x {
            StringOSMObj::Node(p) => nodes.push(p),
            StringOSMObj::Way(w) => ways.push(w),
            StringOSMObj::Relation(m) => rels.push(m),
        }
        i = i + 1;
    }
    assert(all.take(n as int) == all);
    let mut table: Vec<String> = Vec::new();
    table.push(String::new());
    proof {
        lemma_nodes_cost_prefix(nodes@, nodes@.len() as int);
        lemma_ways_cost_prefix(ways@, ways@.len() as int);
        lemma_relations_cost_prefix(rels@, rels@.len() as int);
        assert(ways@.take(0) =~= Seq::<StringWay>::empty());
        assert(rels@.take(0) =~= Seq::<StringRelation>::empty());
        assert(nodes@.take(nodes@.len() as int) == nodes@);
    }
    let dense = if nodes.len() > 0 {
        match encode_dense(&mut table, &nodes) {
            Ok(d) => Some(d),
            Err(e) => {
                return Err(e);
            },
        }
    } else {
        None
    };
    let mut wbs: Vec<WayBlock> = Vec::new();
    let mut j: usize = 0;
    while j < ways.len()
        invariant
            table@.len() >= 1,
            table_distinct(table@),
            dense is Some ==> encodes_dense(table@, dense->Some_0, nodes@),
            all == objs_in@,
            nodes@ == nodes_in(all),
            ways@ == ways_in(all),
            rels@ == relations_in(all),
            (dense is Some <==> nodes@.len() > 0),
            0 <= j <= ways@.len(),
            nodes_cost(nodes@) >= 0 && ways_cost(ways@) >= 0 && relations_cost(rels@) >= 0,
            table@.len() <= 1 + nodes_cost(nodes@) + ways_cost(ways@.take(j as int)),
            wbs@.len() == j,
            forall|q: int| 0 <= q < j ==> encodes_way(table@, #[trigger] wbs@[q], ways@[q]),
        decreases ways@.len() - j,
    {
        let ghost t0 = table@;
        proof {
            assert(ways@.take(j + 1).drop_last() == ways@.take(j as int));
            lemma_ways_cost_prefix(ways@, j + 1);
        }
        let wb = match encode_way(&mut table, &ways[j]) {
            Ok(wb) => wb,
            Err(e) => {
                proof {
                    if e == EncodeError::OutOfRange {
                        assert(!differences_fit(ways_in(all)[j as int].nodes@));
                    }
                }
                return Err(e);
            },
        };
        proof {
            assert forall|q: int| 0 <= q < j implies encodes_way(table@, #[trigger] wbs@[q], ways@[q]) by {
                lemma_encodes_way_extend(table@, t0, wbs@[q], ways@[q]);
            }
            if dense is Some {
                lemma_encodes_dense_extend(table@, t0, dense->Some_0, nodes@);
            }
        }
        wbs.push(wb);
        j = j + 1;
    }
    assert(ways@.take(ways@.len() as int) == ways@);
    let mut rbs: Vec<RelationBlock> = Vec::new();
    let mut k: usize = 0;
    while k < rels.len()
        invariant
            table@.len() >= 1,
            table_distinct(table@),
            dense is Some ==> encodes_dense(table@, dense->Some_0, nodes@),
            all == objs_in@,
            nodes@ == nodes_in(all),
            ways@ == ways_in(all),
            rels@ == relations_in(all),
            (dense is Some <==> nodes@.len() > 0),
            0 <= k <= rels@.len(),
            nodes_cost(nodes@) >= 0 && ways_cost(ways@) >= 0 && relations_cost(rels@) >= 0,
            table@.len() <= 1 + nodes_cost(nodes@) + ways_cost(ways@) + relations_cost(rels@.take(k as int)),
            rbs@.len() == k,
            wbs@.len() == ways@.len(),
            forall|q: int| 0 <= q < ways@.len() ==> encodes_way(table@, #[trigger] wbs@[q], ways@[q]),
            forall|q: int| 0 <= q < k ==> encodes_relation(table@, #[trigger] rbs@[q], rels@[q]),
        decreases rels@.len() - k,
    {
        let ghost t0 = table@;
        proof {
            assert(rels@.take(k + 1).drop_last() == rels@.take(k as int));
            lemma_relations_cost_prefix(rels@, k + 1);
        }
        let rb = match encode_relation(&mut table, &rels[k]) {
            Ok(rb) => rb,
            Err(e) => {
                proof {
                    if e == EncodeError::OutOfRange {
                        assert(!differences_fit(member_ids(relations_in(all)[k as int].members@)));
                    }
                }
                return Err(e);
            },
        };
        proof {
            assert forall|q: int| 0 <= q < k implies encodes_relation(table@, #[trigger] rbs@[q], rels@[q]) by {
                lemma_encodes_relation_extend(table@, t0, rbs@[q], rels@[q]);
            }
            assert forall|q: int| 0 <= q < ways@.len() implies encodes_way(table@, #[trigger] wbs@[q], ways@[q]) by {
                lemma_encodes_way_extend(table@, t0, wbs@[q], ways@[q]);
            }
            if dense is Some {
                lemma_encodes_dense_extend(table@, t0, dense->Some_0, nodes@);
            }
        }
        rbs.push(rb);
        k = k + 1;
    }
    Ok(PrimitiveBlock {
        stringtable: table,
        granularity: 100,
        lat_offset: 0,
        lon_offset: 0,
        dense,
        ways: wbs,
        relations: rbs,
    })
}

} // verus!
