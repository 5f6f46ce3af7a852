use vstd::prelude::*;
use crate::block::{FormatError, PrimitiveBlock, RelationBlock, WayBlock};
use crate::decode::{
    decode_relation,
    decode_way,
    is_decoded_relation,
    is_decoded_way,
    relation_error,
    way_error,
};
use crate::dense::{decode_dense, dense_error, is_dense_point};
use crate::obj_types::StringOSMObj;

verus! {

/// The number of points in a block's dense group.
pub open spec fn dense_count(b: PrimitiveBlock) -> int {
    match b.dense {
        Some(d) => d.id@.len() as int,
        None => 0,
    }
}

/// The first error among the lines of a block, from line `i` onwards.
pub open spec fn ways_error(table: Seq<String>, ws: Seq<WayBlock>, i: int) -> Option<FormatError>
    decreases ws.len() - i,
{
    if i < 0 || i >= ws.len() {
        None
    } else if way_error(table, ws[i]) is Some {
        way_error(table, ws[i])
    } else {
        ways_error(table, ws, i + 1)
    }
}

/// The first error among the relations of a block, from relation `i` onwards.
pub open spec fn relations_error(table: Seq<String>, rs: Seq<RelationBlock>, i: int) -> Option<
    FormatError,
>
    decreases rs.len() - i,
{
    if i < 0 || i >= rs.len() {
        None
    } else if relation_error(table, rs[i]) is Some {
        relation_error(table, rs[i])
    } else {
        relations_error(table, rs, i + 1)
    }
}

/// Where a block fails to decode: its points first, then its lines, then its
/// relations.
pub open spec fn block_error(b: PrimitiveBlock) -> Option<FormatError> {
    let t = b.stringtable@;
    let de = match b.dense {
        Some(d) => dense_error(t, b.granularity, b.lat_offset, b.lon_offset, d),
        None => None,
    };
    if de is Some {
        de
    } else if ways_error(t, b.ways@, 0) is Some {
        ways_error(t, b.ways@, 0)
    } else {
        relations_error(t, b.relations@, 0)
    }
}

/// Object `i` of a decoded block is what the block's groups give at that
/// place: its points, then its lines, then its relations, each in array order.
pub open spec fn is_block_object(x: StringOSMObj, b: PrimitiveBlock, i: int) -> bool {
    let nd = dense_count(b);
    let nw = b.ways@.len() as int;
    let t = b.stringtable@;
    if i < nd {
        match x {
            StringOSMObj::Node(n) => is_dense_point(
                n,
                t,
                b.granularity,
                b.lat_offset,
                b.lon_offset,
                b.dense->Some_0,
                i,
            ),
            _ => false,
        }
    } else if i < nd + nw {
        match x {
            StringOSMObj::Way(w) => is_decoded_way(w, t, b.ways@[i - nd]),
            _ => false,
        }
    } else {
        match x {
            StringOSMObj::Relation(r) => is_decoded_relation(r, t, b.relations@[i - nd - nw]),
            _ => false,
        }
    }
}

/// Decodes a block into its objects; no object is returned from a block that
/// fails.
pub fn decode_block(b: &PrimitiveBlock) -> (r: Result<Vec<StringOSMObj>, FormatError>)
    ensures
        match r {
            Ok(v) => block_error(*b) is None && v@.len() == dense_count(*b) + b.ways@.len()
                + b.relations@.len() && forall|i: int|
                0 <= i < v@.len() ==> is_block_object(#[trigger] v@[i], *b, i),
            Err(e) => block_error(*b) == Some(e),
        },
{
    let mut out: Vec<StringOSMObj> = Vec::new();
    match &b.dense {
        Some(d) => {
            let mut pts = decode_dense(
                &b.stringtable,
                b.granularity,
                b.lat_offset,
                b.lon_offset,
                d,
            )?;
            let ghost all = pts@;
            let n = pts.len();
            let mut i: usize = 0;
            while i < n
                invariant
                    b.dense == Some(*d),
                    n == d.id@.len(),
                    all.len() == n,
                    pts@ == all.subrange(i as int, n as int),
                    forall|k: int|
                        0 <= k < all.len() ==> is_dense_point(
                            #[trigger] all[k],
                            b.stringtable@,
                            b.granularity,
                            b.lat_offset,
                            b.lon_offset,
                            *d,
                            k,
                        ),
                    0 <= i <= n,
                    out@.len() == i,
                    forall|k: int| 0 <= k < i ==> is_block_object(#[trigger] out@[k], *b, k),
                decreases n - i,
            {
                let x = pts.remove(0);
                proof {
                    assert(x == all[i as int]);
                    assert(pts@ =~= all.subrange(i + 1, n as int));
                }
                out.push(StringOSMObj::Node(x));
                i = i + 1;
            }
        },
        None => {},
    }
    let nd = out.len();
    let mut j: usize = 0;
    while j < b.ways.len()
        invariant
            nd == dense_count(*b),
            0 <= j <= b.ways@.len(),
            out@.len() == nd + j,
            forall|k: int| 0 <= k < nd + j ==> is_block_object(#[trigger] out@[k], *b, k),
            block_error(*b) == (if ways_error(b.stringtable@, b.ways@, j as int) is Some {
                ways_error(b.stringtable@, b.ways@, j as int)
            } else {
                relations_error(b.stringtable@, b.relations@, 0)
            }),
        decreases b.ways@.len() - j,
    {
        let w = decode_way(&b.stringtable, &b.ways[j])?;
        out.push(StringOSMObj::Way(w));
        j = j + 1;
    }
    let nw = out.len();
    let mut k: usize = 0;
    while k < b.relations.len()
        invariant
            nd == dense_count(*b),
            nw == nd + b.ways@.len(),
            0 <= k <= b.relations@.len(),
            out@.len() == nw + k,
            forall|q: int| 0 <= q < nw + k ==> is_block_object(#[trigger] out@[q], *b, q),
            block_error(*b) == relations_error(b.stringtable@, b.relations@, k as int),
        decreases b.relations@.len() - k,
    {
        let m = decode_relation(&b.stringtable, &b.relations[k])?;
        out.push(StringOSMObj::Relation(m));
        k = k + 1;
    }
    Ok(out)
}

} // verus!
