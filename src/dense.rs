use vstd::prelude::*;
use crate::base::{OSMObjBase, ObjMeta};
use crate::block::{DenseNodes, FormatError, Info};
use crate::decode::{
    copy_timestamp,
    decode_tags,
    decode_user,
    info_meta,
    info_ok,
    pairs_map,
    tags_error,
};
use crate::delta::{decode_deltas, running_sums, sums_fit};
use crate::obj_types::StringNode;

verus! {

/// A coordinate in units of 1e-7 degrees, from a raw column value:
/// `(offset + granularity * raw)` nanodegrees, rounded down.
pub open spec fn coord_of(offset: int, granularity: int, raw: int) -> int {
    (offset + granularity * raw) / 100
}

/// A value fits in a signed 32-bit integer.
pub open spec fn fits_i32(x: int) -> bool {
    i32::MIN <= x <= i32::MAX
}

/// Converts a raw column value to a coordinate in units of 1e-7 degrees;
/// `None` where it leaves the 32-bit range.
pub fn scale_coord(offset: i64, granularity: i32, raw: i64) -> (r: Option<i32>)
    ensures
        match r {
            Some(c) => c as int == coord_of(offset as int, granularity as int, raw as int),
            None => !fits_i32(coord_of(offset as int, granularity as int, raw as int)),
        },
{
    let g = granularity as i128;
    let x = raw as i128;
    proof {
        assert(-0x8000_0000 * 0x8000_0000_0000_0000 <= g * x <= 0x8000_0000 * 0x8000_0000_0000_0000)
            by (nonlinear_arith)
            requires
                -0x8000_0000 <= g <= 0x7fff_ffff,
                -0x8000_0000_0000_0000 <= x <= 0x7fff_ffff_ffff_ffff,
        ;
    }
    let n: i128 = offset as i128 + g * x;
    let q: i128 = if n >= 0 {
        n / 100
    } else {
        let p: i128 = -n + 99;
        let q0: i128 = p / 100;
        proof {
            let ni = n as int;
            assert(-(((-ni) + 99) / 100) == ni / 100) by (nonlinear_arith)
                requires
                    ni < 0,
            ;
        }
        -q0
    };
    if q < i32::MIN as i128 || q > i32::MAX as i128 {
        None
    } else {
        Some(q as i32)
    }
}

/// The key and value indices of one point's tags in the packed list, read from
/// `pos` up to and including the terminating 0, with the position after it;
/// `None` where the list ends before the terminator or inside a pair.
pub open spec fn tag_group(kv: Seq<u32>, pos: int) -> Option<(Seq<u32>, Seq<u32>, int)>
    decreases kv.len() - pos,
{
    if pos < 0 || pos >= kv.len() {
        None
    } else if kv[pos] == 0 {
        Some((Seq::empty(), Seq::empty(), pos + 1))
    } else if pos + 1 >= kv.len() {
        None
    } else {
        match tag_group(kv, pos + 2) {
            Some(g) => Some((seq![kv[pos]] + g.0, seq![kv[pos + 1]] + g.1, g.2)),
            None => None,
        }
    }
}

/// Reads one point's tag group from the packed list.
fn read_tag_group(kv: &Vec<u32>, pos: usize) -> (r: Option<(Vec<u32>, Vec<u32>, usize)>)
    ensures
        match r {
            Some(g) => tag_group(kv@, pos as int) == Some((g.0@, g.1@, g.2 as int)),
            None => tag_group(kv@, pos as int) is None,
        },
    decreases kv@.len() - pos,
{
    if pos >= kv.len() {
        None
    } else if kv[pos] == 0 {
        let ks: Vec<u32> = Vec::new();
        let vs: Vec<u32> = Vec::new();
        proof {
            assert(ks@ =~= Seq::<u32>::empty());
            assert(vs@ =~= Seq::<u32>::empty());
        }
        Some((ks, vs, pos + 1))
    } else if pos + 1 >= kv.len() {
        None
    } else {
        match read_tag_group(kv, pos + 2) {
            Some(g) => {
                let (mut ks, mut vs, end) = g;
                let ghost (k0, v0) = (ks@, vs@);
                ks.insert(0, kv[pos]);
                vs.insert(0, kv[pos + 1]);
                proof {
                    assert(ks@ =~= seq![kv@[pos as int]] + k0);
                    assert(vs@ =~= seq![kv@[pos as int + 1]] + v0);
                }
                Some((ks, vs, end))
            },
            None => None,
        }
    }
}

/// Where the tag group of point `i` starts, when the groups before it are whole.
pub open spec fn group_start(kv: Seq<u32>, i: nat) -> Option<int>
    decreases i,
{
    if i == 0 {
        Some(0)
    } else {
        match group_start(kv, (i - 1) as nat) {
            Some(p) => match tag_group(kv, p) {
                Some(g) => Some(g.2),
                None => None,
            },
            None => None,
        }
    }
}

/// The tag group of point `i`; an empty packed list gives every point none.
pub open spec fn point_group(kv: Seq<u32>, i: nat) -> Option<(Seq<u32>, Seq<u32>, int)> {
    if kv.len() == 0 {
        Some((Seq::empty(), Seq::empty(), 0))
    } else {
        match group_start(kv, i) {
            Some(p) => tag_group(kv, p),
            None => None,
        }
    }
}

/// Metadata that sets nothing.
pub open spec fn no_info() -> Info {
    Info {
        version: None,
        deleted: false,
        changeset_id: None,
        timestamp: None,
        uid: None,
        user_sid: 0,
    }
}

/// The metadata of point `i` of a dense group.
pub open spec fn dense_info(d: DenseNodes, i: int) -> Info {
    if d.infos@.len() == 0 {
        no_info()
    } else {
        d.infos@[i]
    }
}

/// Where the dense points of a block fail to decode, checking points in order.
pub open spec fn dense_error(
    table: Seq<String>,
    granularity: i32,
    lat_offset: i64,
    lon_offset: i64,
    d: DenseNodes,
) -> Option<FormatError> {
    if d.lat@.len() != d.id@.len() || d.lon@.len() != d.id@.len() || (d.infos@.len() != 0
        && d.infos@.len() != d.id@.len()) {
        Some(FormatError::LengthMismatch)
    } else if !sums_fit(d.id@) || !sums_fit(d.lat@) || !sums_fit(d.lon@) {
        Some(FormatError::OutOfRange)
    } else {
        point_error(table, granularity, lat_offset, lon_offset, d, 0)
    }
}

/// The first error among points `i` onwards.
pub open spec fn point_error(
    table: Seq<String>,
    granularity: i32,
    lat_offset: i64,
    lon_offset: i64,
    d: DenseNodes,
    i: nat,
) -> Option<FormatError>
    decreases d.id@.len() - i,
{
    if i >= d.id@.len() {
        None
    } else if !fits_i32(
        coord_of(lat_offset as int, granularity as int, running_sums(d.lat@)[i as int]),
    ) || !fits_i32(
        coord_of(lon_offset as int, granularity as int, running_sums(d.lon@)[i as int]),
    ) {
        Some(FormatError::OutOfRange)
    } else if point_group(d.keys_vals@, i) is None {
        Some(FormatError::LengthMismatch)
    } else if tags_error(
        table,
        point_group(d.keys_vals@, i)->Some_0.0,
        point_group(d.keys_vals@, i)->Some_0.1,
    ) is Some {
        tags_error(
            table,
            point_group(d.keys_vals@, i)->Some_0.0,
            point_group(d.keys_vals@, i)->Some_0.1,
        )
    } else if !info_ok(table, dense_info(d, i as int)) {
        Some(FormatError::BadStringIndex)
    } else {
        point_error(table, granularity, lat_offset, lon_offset, d, i + 1)
    }
}

/// Point `i` of a dense group that decodes is exactly what its columns and its
/// tag group give.
pub open spec fn is_dense_point(
    x: StringNode,
    table: Seq<String>,
    granularity: i32,
    lat_offset: i64,
    lon_offset: i64,
    d: DenseNodes,
    i: int,
) -> bool {
    let g = point_group(d.keys_vals@, i as nat)->Some_0;
    &&& x.wf()
    &&& x.meta() == info_meta(
        table,
        running_sums(d.id@)[i] as i64,
        dense_info(d, i),
        pairs_map(table, g.0, g.1, g.0.len() as int),
    )
    &&& x.lat_lon == Some(
        (
            coord_of(lat_offset as int, granularity as int, running_sums(d.lat@)[i]) as i32,
            coord_of(lon_offset as int, granularity as int, running_sums(d.lon@)[i]) as i32,
        ),
    )
}

/// Decodes a dense group: one point per column entry, in column order.
pub fn decode_dense(
    table: &Vec<String>,
    granularity: i32,
    lat_offset: i64,
    lon_offset: i64,
    d: &DenseNodes,
) -> (r: Result<Vec<StringNode>, FormatError>)
    ensures
        match r {
            Ok(v) => dense_error(table@, granularity, lat_offset, lon_offset, *d) is None
                && v@.len() == d.id@.len() && forall|i: int|
                0 <= i < v@.len() ==> is_dense_point(
                    #[trigger] v@[i],
                    table@,
                    granularity,
                    lat_offset,
                    lon_offset,
                    *d,
                    i,
                ),
            Err(e) => dense_error(table@, granularity, lat_offset, lon_offset, *d) == Some(e),
        },
{
    if d.lat.len() != d.id.len() || d.lon.len() != d.id.len() || (d.infos.len() != 0
        && d.infos.len() != d.id.len()) {
        return Err(FormatError::LengthMismatch);
    }
    let ids = match decode_deltas(&d.id) {
        Some(v) => v,
        None => {
            return Err(FormatError::OutOfRange);
        },
    };
    let lats = match decode_deltas(&d.lat) {
        Some(v) => v,
        None => {
            return Err(FormatError::OutOfRange);
        },
    };
    let lons = match decode_deltas(&d.lon) {
        Some(v) => v,
        None => {
            return Err(FormatError::OutOfRange);
        },
    };
    let packed = d.keys_vals.len() > 0;
    let mut pos: usize = 0;
    let mut out: Vec<StringNode> = Vec::new();
    let mut i: usize = 0;
    while i < ids.len()
        invariant
            ids@.len() == d.id@.len(),
            lats@.len() == d.id@.len(),
            lons@.len() == d.id@.len(),
            d.lat@.len() == d.id@.len(),
            d.lon@.len() == d.id@.len(),
            d.infos@.len() == 0 || d.infos@.len() == d.id@.len(),
            sums_fit(d.id@),
            sums_fit(d.lat@),
            sums_fit(d.lon@),
            packed == (d.keys_vals@.len() > 0),
            forall|k: int| 0 <= k < ids@.len() ==> ids@[k] as int == running_sums(d.id@)[k],
            forall|k: int| 0 <= k < lats@.len() ==> lats@[k] as int == running_sums(d.lat@)[k],
            forall|k: int| 0 <= k < lons@.len() ==> lons@[k] as int == running_sums(d.lon@)[k],
            0 <= i <= ids@.len(),
            packed ==> group_start(d.keys_vals@, i as nat) == Some(pos as int),
            out@.len() == i,
            forall|k: int|
                0 <= k < i ==> is_dense_point(
                    #[trigger] out@[k],
                    table@,
                    granularity,
                    lat_offset,
                    lon_offset,
                    *d,
                    k,
                ),
            dense_error(table@, granularity, lat_offset, lon_offset, *d) == point_error(
                table@,
                granularity,
                lat_offset,
                lon_offset,
                *d,
                i as nat,
            ),
        decreases ids@.len() - i,
    {
        let lat = match scale_coord(lat_offset, granularity, lats[i]) {
            Some(c) => c,
            None => {
                return Err(FormatError::OutOfRange);
            },
        };
        let lon = match scale_coord(lon_offset, granularity, lons[i]) {
            Some(c) => c,
            None => {
                return Err(FormatError::OutOfRange);
            },
        };
        let (ks, vs) = if packed {
            match read_tag_group(&d.keys_vals, pos) {
                Some(g) => {
                    let (ks, vs, end) = g;
                    pos = end;
                    (ks, vs)
                },
                None => {
                    return Err(FormatError::LengthMismatch);
                },
            }
        } else {
            (Vec::new(), Vec::new())
        };
        proof {
            if !packed {
                assert(ks@ =~= Seq::<u32>::empty());
                assert(vs@ =~= Seq::<u32>::empty());
            }
            assert(point_group(d.keys_vals@, i as nat) == Some((ks@, vs@, point_group(d.keys_vals@, i as nat)->Some_0.2)));
        }
        let tags = decode_tags(table, &ks, &vs)?;
        let x = if d.infos.len() == 0 {
            let mut x = StringNode::new(ids[i]);
            x.tags = tags;
            x.lat_lon = Some((lat, lon));
            x
        } else {
            let info = &d.infos[i];
            let user = decode_user(table, info)?;
            StringNode {
                id: ids[i],
                version: info.version,
                deleted: info.deleted,
                changeset_id: info.changeset_id,
                timestamp: copy_timestamp(&info.timestamp),
                uid: info.uid,
                user,
                tags,
                lat_lon: Some((lat, lon)),
            }
        };
        out.push(x);
        i = i + 1;
    }
    Ok(out)
}

} // verus!
