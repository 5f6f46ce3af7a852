use osmio::base::OSMObjBase;
use osmio::block::{DenseNodes, FormatError, Info, PrimitiveBlock, WayBlock};
use osmio::block_encode::encode_block;
use osmio::obj_types::{StringNode, StringOSMObj, StringWay};
use osmio::reader::{BlockReader, OSMReader};
use osmio::writer::OSMWriter;
use osmio::writer::BlockWriter;

fn way(id: i64) -> StringOSMObj {
    StringOSMObj::Way(StringWay::new(id))
}

fn bad_block() -> PrimitiveBlock {
    let info = Info { version: None, deleted: false, changeset_id: None, timestamp: None, uid: None, user_sid: 0 };
    PrimitiveBlock {
        stringtable: vec![String::new()],
        granularity: 100,
        lat_offset: 0,
        lon_offset: 0,
        dense: None,
        ways: vec![WayBlock { id: 1, keys: vec![1], vals: vec![], refs: vec![], info }],
        relations: vec![],
    }
}

#[test]
fn reader_yields_in_block_order() {
    let b1 = encode_block(vec![way(1), way(2)]).unwrap();
    let empty = encode_block(vec![]).unwrap();
    let b2 = encode_block(vec![way(3)]).unwrap();
    let mut r = BlockReader::new(vec![b1, empty, b2]);
    let mut ids = vec![];
    while let Some(o) = r.next().unwrap() {
        ids.push(o.id());
    }
    assert_eq!(ids, vec![1, 2, 3]);
    assert_eq!(r.next(), Ok(None));
}

#[test]
fn reader_reports_corrupt_block_after_good_ones() {
    let b1 = encode_block(vec![way(1)]).unwrap();
    let mut r = BlockReader::new(vec![b1, bad_block()]);
    assert_eq!(r.next().unwrap().map(|o| o.id()), Some(1));
    assert_eq!(r.next(), Err(FormatError::LengthMismatch));
}

#[test]
fn sorted_hint_changes_nothing_read() {
    let mut n = StringNode::new(5);
    n.lat_lon = Some((0, 0));
    let b = encode_block(vec![StringOSMObj::Node(n), way(6)]).unwrap();
    let mut r = BlockReader::new(vec![b.clone()]);
    assert!(!r.get_sorted_assumption());
    r.assume_sorted();
    assert!(r.get_sorted_assumption());
    let sorted: Vec<i64> = r.objects().0.iter().map(|o| o.id()).collect();
    let mut u = BlockReader::new(vec![b]);
    u.assume_unsorted();
    let unsorted: Vec<i64> = u.objects().0.iter().map(|o| o.id()).collect();
    assert_eq!(sorted, vec![5, 6]);
    assert_eq!(sorted, unsorted);
}

#[test]
fn writer_from_iter_closes() {
    let w = BlockWriter::from_iter(2, vec![way(1), way(2), way(3)]).unwrap();
    assert!(!w.is_open());
    let blocks = w.into_inner();
    assert_eq!(blocks.len(), 2);
    let mut r = BlockReader::new(blocks);
    let ids: Vec<i64> = r.objects().0.iter().map(|o| o.id()).collect();
    assert_eq!(ids, vec![1, 2, 3]);
}

fn write_all<W: OSMWriter>(w: &mut W, objs: Vec<StringOSMObj>) -> Result<(), osmio::writer::OSMWriteError> {
    for o in objs {
        w.write_obj(o)?;
    }
    w.close()
}

#[test]
fn writer_through_trait() {
    let mut w = BlockWriter::new(10);
    write_all(&mut w, vec![way(1), way(2)]).unwrap();
    assert!(!OSMWriter::is_open(&w));
    assert_eq!(
        OSMWriter::write_obj(&mut w, way(3)),
        Err(osmio::writer::OSMWriteError::AlreadyClosed)
    );
    assert_eq!(w.into_inner().len(), 1);
}

#[test]
fn writer_reports_encoding_failure() {
    let mut w = BlockWriter::new(1);
    let r = w.write_obj(StringOSMObj::Node(StringNode::new(1)));
    assert_eq!(r, Err(osmio::writer::OSMWriteError::Encode(osmio::encode::EncodeError::MissingLocation)));
    assert!(w.is_open());
    assert_eq!(w.blocks().len(), 0);
}

#[test]
fn mixed_kinds_come_back_in_written_order() {
    let mut n1 = StringNode::new(10);
    n1.lat_lon = Some((1, 1));
    let mut n2 = StringNode::new(11);
    n2.lat_lon = Some((2, 2));
    let es = vec![way(1), StringOSMObj::Node(n1), way(2), StringOSMObj::Node(n2), way(3)];
    let w = BlockWriter::from_iter(100, es.clone()).unwrap();
    let blocks = w.into_inner();
    assert_eq!(blocks.len(), 3);
    let mut r = BlockReader::new(blocks);
    let (got, err) = r.objects();
    assert_eq!(err, None);
    assert_eq!(got, es);
}

#[test]
fn objects_keeps_earlier_blocks_on_error() {
    let b1 = encode_block(vec![way(1), way(2)]).unwrap();
    let mut r = BlockReader::new(vec![b1, bad_block(), encode_block(vec![way(3)]).unwrap()]);
    let (got, err) = r.objects();
    assert_eq!(got.iter().map(|o| o.id()).collect::<Vec<_>>(), vec![1, 2]);
    assert_eq!(err, Some(FormatError::LengthMismatch));
}

#[test]
fn from_iter_reports_unencodable_objects() {
    let r = BlockWriter::from_iter(2, vec![way(1), StringOSMObj::Node(StringNode::new(2))]);
    assert_eq!(r.err(), Some(osmio::writer::OSMWriteError::Encode(osmio::encode::EncodeError::MissingLocation)));
}

#[test]
fn dense_points_through_reader() {
    let b = PrimitiveBlock {
        stringtable: vec![String::new(), "k1".to_string(), "v1".to_string(), "k2".to_string(), "v2".to_string()],
        granularity: 100,
        lat_offset: 0,
        lon_offset: 0,
        dense: Some(DenseNodes {
            id: vec![5, -2, 100],
            lat: vec![0, 0, 0],
            lon: vec![0, 0, 0],
            keys_vals: vec![1, 2, 0, 0, 3, 4, 0],
            infos: vec![],
        }),
        ways: vec![],
        relations: vec![],
    };
    let mut r = BlockReader::new(vec![b]);
    let p0 = r.next().unwrap().unwrap();
    let p1 = r.next().unwrap().unwrap();
    let p2 = r.next().unwrap().unwrap();
    assert_eq!(r.next(), Ok(None));
    assert_eq!([p0.id(), p1.id(), p2.id()], [5, 3, 103]);
    assert_eq!(p0.tag("k1"), Some("v1"));
    assert_eq!(p1.num_tags(), 0);
    assert_eq!(p2.tag("k2"), Some("v2"));
    assert_eq!(p2.version(), None);
    assert_eq!(p2.user(), None);
}
