use osmio::base::{Node, OSMObj, OSMObjBase, Relation, Way};
use osmio::object_type::OSMObjectType;
use osmio::obj_types::{StringNode, StringOSMObj, StringRelation, StringWay};
use osmio::timestamp::TimestampFormat;

#[test]
fn object_type_codes_and_names() {
    assert_eq!(OSMObjectType::try_from('n'), Ok(OSMObjectType::Node));
    assert_eq!(OSMObjectType::try_from('w'), Ok(OSMObjectType::Way));
    assert_eq!(OSMObjectType::try_from('r'), Ok(OSMObjectType::Relation));
    assert_eq!(OSMObjectType::try_from('x'), Err("Cannot convert x to OSMObjectType".to_string()));
    assert_eq!(OSMObjectType::from_str("node"), Ok(OSMObjectType::Node));
    assert_eq!(OSMObjectType::from_str("w"), Ok(OSMObjectType::Way));
    assert_eq!(OSMObjectType::from_str("rel"), Ok(OSMObjectType::Relation));
    assert_eq!(OSMObjectType::from_str("relation"), Ok(OSMObjectType::Relation));
    assert_eq!(OSMObjectType::from_str("nodes"), Err("Cannot convert nodes to OSMObjectType".to_string()));
    assert!(OSMObjectType::from_str("").is_err());
    assert_eq!(OSMObjectType::Way.code(), 'w');
    assert_eq!(OSMObjectType::Relation.name(), "relation");
}

#[test]
fn timestamp_conversions() {
    let t = TimestampFormat::from_str("2017-11-20T10:00:00Z").unwrap();
    assert_eq!(t.to_epoch_number(), 1511172000);
    let e = TimestampFormat::from(1511172000);
    assert_eq!(e.to_iso_string(), "2017-11-20T10:00:00Z");
    assert_eq!(e.try_iso_string(), Some("2017-11-20T10:00:00Z".to_string()));
    assert_eq!(TimestampFormat::from_str("not a date"), Err("invalid date".to_string()));
    let bad = TimestampFormat::ISOString("not a date".to_string());
    assert_eq!(bad.try_epoch_number(), None);
}

#[test]
fn timestamp_equality_by_instant() {
    let a = TimestampFormat::ISOString("2017-11-20T10:00:00Z".to_string());
    let b = TimestampFormat::EpochNunber(1511172000);
    let c = TimestampFormat::ISOString("2017-11-20T12:00:00+02:00".to_string());
    assert_eq!(a, b);
    assert_eq!(a, c);
    assert!(TimestampFormat::EpochNunber(1) < b);
    assert!(a > TimestampFormat::EpochNunber(5));
    assert_ne!(a, TimestampFormat::EpochNunber(1511172001));
}

#[test]
fn node_defaults_and_tags() {
    let mut n = StringNode::new(7);
    assert_eq!(n.id(), 7);
    assert_eq!(n.version(), None);
    assert!(!n.deleted());
    assert!(n.untagged());
    assert!(!n.has_lat_lon());
    n.set_tag("highway", "bus_stop");
    n.set_tag("name", "Main");
    n.set_tag("name", "High");
    assert_eq!(n.num_tags(), 2);
    assert_eq!(n.tag("name"), Some("High"));
    assert!(n.tagged());
    n.unset_tag("highway");
    assert_eq!(n.tag("highway"), None);
    assert_eq!(n.num_tags(), 1);
    n.set_lat_lon(Some((515074000, -1278000)));
    assert_eq!(n.lat_lon(), Some((515074000, -1278000)));
}

#[test]
fn strip_metadata_clears_three_fields() {
    let mut w = StringWay::new(3);
    w.set_uid(Some(12));
    w.set_user(Some("alice"));
    w.set_changeset_id(Some(99));
    w.set_version(Some(4));
    w.strip_metadata();
    assert_eq!(w.uid(), None);
    assert_eq!(w.user(), None);
    assert_eq!(w.changeset_id(), None);
    assert_eq!(w.version(), Some(4));
}

#[test]
fn set_nodes_and_members_replace() {
    let mut w = StringWay::new(1);
    w.set_nodes(vec![1, 2, 3]);
    w.set_nodes(vec![10, 20, 15]);
    assert_eq!(w.nodes(), &vec![10, 20, 15]);
    assert_eq!(w.num_nodes(), 3);
    assert_eq!(w.node(2), Some(15));
    assert_eq!(w.node(3), None);
    let mut r = StringRelation::new(2);
    r.set_members(vec![(OSMObjectType::Node, 5, "a".to_string())]);
    r.set_members(vec![(OSMObjectType::Way, 6, String::new())]);
    assert_eq!(r.members(), &vec![(OSMObjectType::Way, 6, String::new())]);
}

#[test]
fn downcasts_return_none_on_other_kinds() {
    let o = StringOSMObj::from(StringWay::new(4));
    assert!(o.is_way());
    assert!(!o.is_node());
    assert_eq!(o.object_type(), OSMObjectType::Way);
    assert!(o.as_node().is_none());
    assert!(o.as_relation().is_none());
    assert_eq!(o.as_way().map(|w| w.id()), Some(4));
    assert!(o.clone().into_node().is_none());
    assert_eq!(o.into_way().map(|w| w.id()), Some(4));
    let mut r = StringOSMObj::from(StringRelation::new(9));
    r.set_tag("type", "route");
    assert_eq!(r.tag("type"), Some("route"));
    assert_eq!(r.id(), 9);
}

#[test]
fn library_version() {
    assert_eq!(osmio::version(), "0.1.0");
}
