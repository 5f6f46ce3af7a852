use osmio::base::{Node, OSMObjBase, Relation, Way};
use osmio::block::{DenseNodes, FormatError, Info, PrimitiveBlock, RelationBlock, WayBlock};
use osmio::timestamp::TimestampFormat;
use osmio::block_decode::decode_block;
use osmio::block_encode::encode_block;
use osmio::decode::{decode_relation, decode_tags, decode_way, lookup_string};
use osmio::delta::{decode_deltas, encode_deltas};
use osmio::dense::{decode_dense, scale_coord};
use osmio::encode::{intern, EncodeError};
use osmio::object_type::OSMObjectType;
use osmio::obj_types::{StringNode, StringOSMObj, StringRelation, StringWay};

fn table(words: &[&str]) -> Vec<String> {
    let mut t = vec![String::new()];
    for w in words {
        t.push(w.to_string());
    }
    t
}

fn no_info() -> Info {
    Info { version: None, deleted: false, changeset_id: None, timestamp: None, uid: None, user_sid: 0 }
}

fn empty_block(t: Vec<String>) -> PrimitiveBlock {
    PrimitiveBlock {
        stringtable: t,
        granularity: 100,
        lat_offset: 0,
        lon_offset: 0,
        dense: None,
        ways: vec![],
        relations: vec![],
    }
}

#[test]
fn delta_reconstruction_seeded_at_zero() {
    assert_eq!(decode_deltas(&vec![5, -2, 100]), Some(vec![5, 3, 103]));
    assert_eq!(decode_deltas(&vec![]), Some(vec![]));
    assert_eq!(encode_deltas(&vec![5, 3, 103]), Some(vec![5, -2, 100]));
    assert_eq!(decode_deltas(&vec![i64::MAX, 1]), None);
    assert_eq!(encode_deltas(&vec![i64::MIN, -1]), Some(vec![i64::MIN, i64::MAX]));
    assert_eq!(encode_deltas(&vec![i64::MIN, i64::MAX]), None);
    assert_eq!(encode_deltas(&vec![-1, i64::MAX]), None);
}

#[test]
fn dense_points_decode_ids_and_coordinates() {
    let t = table(&["amenity", "cafe"]);
    let d = DenseNodes {
        id: vec![5, -2, 100],
        lat: vec![515074000, 10, -20],
        lon: vec![-1278000, 0, 5],
        keys_vals: vec![0, 1, 2, 0, 0],
        infos: vec![],
    };
    let pts = decode_dense(&t, 100, 0, 0, &d).unwrap();
    let ids: Vec<i64> = pts.iter().map(|p| p.id()).collect();
    assert_eq!(ids, vec![5, 3, 103]);
    assert_eq!(pts[0].lat_lon, Some((515074000, -1278000)));
    assert_eq!(pts[1].lat_lon, Some((515074010, -1278000)));
    assert_eq!(pts[2].lat_lon, Some((515073990, -1277995)));
    assert_eq!(pts[0].num_tags(), 0);
    assert_eq!(pts[1].tag("amenity"), Some("cafe"));
    assert_eq!(pts[2].num_tags(), 0);
}

#[test]
fn dense_points_without_packed_tags() {
    let t = table(&[]);
    let d = DenseNodes { id: vec![1, 1], lat: vec![0, 0], lon: vec![0, 0], keys_vals: vec![], infos: vec![] };
    let pts = decode_dense(&t, 100, 0, 0, &d).unwrap();
    assert_eq!(pts.len(), 2);
    assert_eq!(pts[1].id(), 2);
}

#[test]
fn dense_errors() {
    let t = table(&["k"]);
    let short = DenseNodes { id: vec![1, 1], lat: vec![0], lon: vec![0, 0], keys_vals: vec![], infos: vec![] };
    assert_eq!(decode_dense(&t, 100, 0, 0, &short), Err(FormatError::LengthMismatch));
    let unterminated = DenseNodes { id: vec![1], lat: vec![0], lon: vec![0], keys_vals: vec![1, 1], infos: vec![] };
    assert_eq!(decode_dense(&t, 100, 0, 0, &unterminated), Err(FormatError::LengthMismatch));
    let far = DenseNodes { id: vec![1], lat: vec![i64::MAX], lon: vec![0], keys_vals: vec![], infos: vec![] };
    assert_eq!(decode_dense(&t, 100, 0, 0, &far), Err(FormatError::OutOfRange));
}

#[test]
fn coordinate_scaling_formula() {
    assert_eq!(scale_coord(0, 100, 515074000), Some(515074000));
    assert_eq!(scale_coord(1000, 1000, 3), Some(40));
    assert_eq!(scale_coord(0, 1, -150), Some(-2));
    assert_eq!(scale_coord(0, 100, i64::MAX), None);
}

#[test]
fn coordinate_scaling_round_trip() {
    let (lat, lon) = (51.5074_f64, -0.1278_f64);
    let mut n = StringNode::new(1);
    n.lat_lon = Some(((lat * 1e7).round() as i32, (lon * 1e7).round() as i32));
    let b = encode_block(vec![StringOSMObj::Node(n)]).unwrap();
    let back = decode_block(&b).unwrap();
    let (la, lo) = back[0].as_node_ref_lat_lon();
    assert!((la as f64 / 1e7 - lat).abs() <= 1e-7);
    assert!((lo as f64 / 1e7 - lon).abs() <= 1e-7);
}

trait LatLonOf {
    fn as_node_ref_lat_lon(&self) -> (i32, i32);
}

impl LatLonOf for StringOSMObj {
    fn as_node_ref_lat_lon(&self) -> (i32, i32) {
        match self {
            StringOSMObj::Node(n) => n.lat_lon.unwrap(),
            _ => panic!("not a point"),
        }
    }
}

#[test]
fn string_index_zero_never_resolves() {
    let t = table(&["a"]);
    assert_eq!(lookup_string(&t, 0), Err(FormatError::BadStringIndex));
    assert_eq!(lookup_string(&t, 1), Ok("a".to_string()));
    assert_eq!(lookup_string(&t, 2), Err(FormatError::BadStringIndex));
    assert_eq!(decode_tags(&t, &vec![0], &vec![1]), Err(FormatError::BadStringIndex));
}

#[test]
fn tag_arrays_must_be_parallel() {
    let t = table(&["a", "b"]);
    assert_eq!(decode_tags(&t, &vec![1, 2], &vec![1]), Err(FormatError::LengthMismatch));
    let tags = decode_tags(&t, &vec![1, 1], &vec![1, 2]).unwrap();
    assert_eq!(tags, vec![("a".to_string(), "b".to_string())]);
}

#[test]
fn relation_length_mismatch() {
    let t = table(&["outer", "inner", "x"]);
    let m = RelationBlock {
        id: 1,
        keys: vec![],
        vals: vec![],
        roles_sid: vec![1, 2, 3],
        memids: vec![10, 5],
        types: vec![1, 1],
        info: no_info(),
    };
    assert_eq!(decode_relation(&t, &m), Err(FormatError::LengthMismatch));
}

#[test]
fn relation_bad_member_kind() {
    let t = table(&["outer"]);
    let m = RelationBlock {
        id: 1,
        keys: vec![],
        vals: vec![],
        roles_sid: vec![1],
        memids: vec![10],
        types: vec![3],
        info: no_info(),
    };
    assert_eq!(decode_relation(&t, &m), Err(FormatError::BadMemberType));
}

#[test]
fn relation_decodes_members_by_position() {
    let t = table(&["outer", "", "type", "multipolygon"]);
    let m = RelationBlock {
        id: 8,
        keys: vec![3],
        vals: vec![4],
        roles_sid: vec![1, 2],
        memids: vec![10, -3],
        types: vec![1, 0],
        info: no_info(),
    };
    let r = decode_relation(&t, &m).unwrap();
    assert_eq!(
        r.members,
        vec![(OSMObjectType::Way, 10, "outer".to_string()), (OSMObjectType::Node, 7, String::new())]
    );
    assert_eq!(r.tag("type"), Some("multipolygon"));
}

#[test]
fn way_order_preserved() {
    let mut w = StringWay::new(2);
    w.set_nodes(vec![10, 20, 15]);
    let b = encode_block(vec![StringOSMObj::Way(w.clone())]).unwrap();
    assert_eq!(b.ways[0].refs, vec![10, 10, -5]);
    let back = decode_way(&b.stringtable, &b.ways[0]).unwrap();
    assert_eq!(back.nodes(), &vec![10, 20, 15]);
    assert_eq!(back, w);
}

#[test]
fn way_with_bad_index_is_refused() {
    let t = table(&["a"]);
    let w = WayBlock { id: 1, keys: vec![1], vals: vec![5], refs: vec![], info: no_info() };
    assert_eq!(decode_way(&t, &w), Err(FormatError::BadStringIndex));
    let b = PrimitiveBlock { ways: vec![w], ..empty_block(t) };
    assert_eq!(decode_block(&b), Err(FormatError::BadStringIndex));
}

#[test]
fn round_trip_mixed_objects() {
    let mut n1 = StringNode::new(100);
    n1.set_lat_lon(Some((10, -20)));
    n1.set_tag("amenity", "bench");
    let mut n2 = StringNode::new(90);
    n2.set_lat_lon(Some((-900000000, 1800000000)));
    let mut w = StringWay::new(5);
    w.set_nodes(vec![100, 90, 100]);
    w.set_tag("highway", "path");
    w.set_tag("name", "");
    let w2 = StringWay::new(6);
    let mut r = StringRelation::new(1);
    r.set_members(vec![
        (OSMObjectType::Way, 5, "outer".to_string()),
        (OSMObjectType::Node, 100, String::new()),
        (OSMObjectType::Relation, 1, "outer".to_string()),
    ]);
    r.set_tag("type", "multipolygon");
    let objs = vec![
        StringOSMObj::Node(n1),
        StringOSMObj::Node(n2),
        StringOSMObj::Way(w),
        StringOSMObj::Way(w2),
        StringOSMObj::Relation(r),
    ];
    let b = encode_block(objs.clone()).unwrap();
    assert_eq!(b.stringtable[0], "");
    assert_eq!(decode_block(&b).unwrap(), objs);
}

#[test]
fn encoding_needs_point_locations() {
    let n = StringNode::new(1);
    assert_eq!(encode_block(vec![StringOSMObj::Node(n)]).err(), Some(EncodeError::MissingLocation));
}

#[test]
fn encoding_refuses_overflowing_differences() {
    let mut w = StringWay::new(1);
    w.set_nodes(vec![-1, i64::MAX]);
    assert_eq!(encode_block(vec![StringOSMObj::Way(w)]).err(), Some(EncodeError::OutOfRange));
}

#[test]
fn interning_reuses_indices() {
    let mut t = vec![String::new()];
    assert_eq!(intern(&mut t, "a"), Some(1));
    assert_eq!(intern(&mut t, "b"), Some(2));
    assert_eq!(intern(&mut t, "a"), Some(1));
    assert_eq!(intern(&mut t, ""), Some(3));
    assert_eq!(t.len(), 4);
}

#[test]
fn round_trip_with_metadata() {
    let mut n = StringNode::new(3);
    n.set_lat_lon(Some((1, 2)));
    n.set_version(Some(2));
    n.set_uid(Some(77));
    n.set_user(Some("bob"));
    n.set_changeset_id(Some(1000));
    n.set_timestamp(Some(TimestampFormat::EpochNunber(1511172000)));
    let mut w = StringWay::new(4);
    w.set_nodes(vec![3]);
    w.set_deleted(true);
    w.set_user(Some("bob"));
    w.set_version(Some(1));
    let mut r = StringRelation::new(5);
    r.set_timestamp(Some(TimestampFormat::ISOString("2020-01-01T00:00:00Z".to_string())));
    r.set_user(Some(""));
    let objs = vec![StringOSMObj::Node(n), StringOSMObj::Way(w), StringOSMObj::Relation(r)];
    let b = encode_block(objs.clone()).unwrap();
    let back = decode_block(&b).unwrap();
    assert_eq!(back, objs);
    assert_eq!(back[0].user(), Some("bob"));
    assert_eq!(back[1].deleted(), true);
    assert_eq!(back[2].user(), Some(""));
}

#[test]
fn user_index_must_resolve() {
    let t = table(&["a"]);
    let info = Info { user_sid: 9, ..no_info() };
    let w = WayBlock { id: 1, keys: vec![], vals: vec![], refs: vec![], info };
    assert_eq!(decode_way(&t, &w), Err(FormatError::BadStringIndex));
    let d = DenseNodes { id: vec![1], lat: vec![0], lon: vec![0], keys_vals: vec![], infos: vec![no_info(), no_info()] };
    assert_eq!(decode_dense(&t, 100, 0, 0, &d), Err(FormatError::LengthMismatch));
}
