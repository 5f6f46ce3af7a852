use vstd::prelude::*;
use crate::ObjId;
use crate::base::{members_view, opt_str, ObjMeta, OSMObjBase, Node, Way, Relation, OSMObj};
use crate::object_type::OSMObjectType;
use crate::tags::{keys_unique, lookup_tag, tag_map, with_tag, without_tag};
use crate::timestamp::TimestampFormat;

verus! {
/// A point held with owned strings.
#[derive(Debug, Clone, PartialEq)]
pub struct StringNode {
    pub id: ObjId,
    pub version: Option<u32>,
    pub deleted: bool,
    pub changeset_id: Option<u32>,
    pub timestamp: Option<TimestampFormat>,
    pub uid: Option<u32>,
    pub user: Option<String>,
    pub tags: Vec<(String, String)>,
    pub lat_lon: Option<(i32, i32)>,
}

impl StringNode {
    /// An object with the given id and every other field unset or empty.
    pub fn new(id: ObjId) -> (r: StringNode)
        ensures
            r.wf(),
            r.meta() == (ObjMeta {
                id,
                version: None,
                deleted: false,
                changeset_id: None,
                timestamp: None,
                uid: None,
                user: None,
                tags: Map::empty(),
            }),
            r.lat_lon is None,
    {
        let r = StringNode {
            id,
            version: None,
            deleted: false,
            changeset_id: None,
            timestamp: None,
            uid: None,
            user: None,
            tags: Vec::new(),
            lat_lon: None,
        };
        proof {
            assert(tag_map(r.tags@) =~= Map::empty());
        }
        r
    }
}

impl OSMObjBase for StringNode {
    open spec fn meta(&self) -> ObjMeta {
        ObjMeta {
            id: self.id,
            version: self.version,
            deleted: self.deleted,
            changeset_id: self.changeset_id,
            timestamp: self.timestamp,
            uid: self.uid,
            user: opt_str(self.user),
            tags: tag_map(self.tags@),
        }
    }

    open spec fn wf(&self) -> bool {
        keys_unique(self.tags@)
    }

    fn id(&self) -> (r: ObjId) {
        self.id
    }

    fn set_id(&mut self, val: ObjId)
        ensures
            final(self).lat_lon == old(self).lat_lon,
    {
        self.id = val;
    }

    fn version(&self) -> (r: Option<u32>) {
        self.version
    }

    fn set_version(&mut self, val: Option<u32>)
        ensures
            final(self).lat_lon == old(self).lat_lon,
    {
        self.version = val;
    }

    fn deleted(&self) -> (r: bool) {
        self.deleted
    }

    fn set_deleted(&mut self, val: bool)
        ensures
            final(self).lat_lon == old(self).lat_lon,
    {
        self.deleted = val;
    }

    fn changeset_id(&self) -> (r: Option<u32>) {
        self.changeset_id
    }

    fn set_changeset_id(&mut self, val: Option<u32>)
        ensures
            final(self).lat_lon == old(self).lat_lon,
    {
        self.changeset_id = val;
    }

    fn uid(&self) -> (r: Option<u32>) {
        self.uid
    }

    fn set_uid(&mut self, val: Option<u32>)
        ensures
            final(self).lat_lon == old(self).lat_lon,
    {
        self.uid = val;
    }

    fn timestamp(&self) -> (r: &Option<TimestampFormat>) {
        &self.timestamp
    }

    fn set_timestamp(&mut self, val: Option<TimestampFormat>)
        ensures
            final(self).lat_lon == old(self).lat_lon,
    {
        self.timestamp = val;
    }

    fn user(&self) -> (r: Option<&str>) {
        match &self.user {
            Some(s) => Some(s.as_str()),
            None => None,
        }
    }

    fn set_user(&mut self, val: Option<&str>)
        ensures
            final(self).lat_lon == old(self).lat_lon,
    {
        self.user = match val {
            Some(s) => Some(s.to_owned()),
            None => None,
        };
    }

    fn tags(&self) -> (r: &Vec<(String, String)>) {
        &self.tags
    }

    fn tag(&self, key: &str) -> (r: Option<&str>) {
        lookup_tag(&self.tags, key)
    }

    fn set_tag(&mut self, key: &str, value: &str)
        ensures
            final(self).lat_lon == old(self).lat_lon,
    {
        self.tags = with_tag(&self.tags, key, value);
    }

    fn unset_tag(&mut self, key: &str)
        ensures
            final(self).lat_lon == old(self).lat_lon,
    {
        self.tags = without_tag(&self.tags, key);
    }

    fn strip_metadata(&mut self)
        ensures
            final(self).lat_lon == old(self).lat_lon,
    {
        self.set_uid(None);
        self.set_user(None);
        self.set_changeset_id(None);
    }
}
/// A line held with owned strings.
#[derive(Debug, Clone, PartialEq)]
pub struct StringWay {
    pub id: ObjId,
    pub version: Option<u32>,
    pub deleted: bool,
    pub changeset_id: Option<u32>,
    pub timestamp: Option<TimestampFormat>,
    pub uid: Option<u32>,
    pub user: Option<String>,
    pub tags: Vec<(String, String)>,
    pub nodes: Vec<ObjId>,
}

impl StringWay {
    /// An object with the given id and every other field unset or empty.
    pub fn new(id: ObjId) -> (r: StringWay)
        ensures
            r.wf(),
            r.meta() == (ObjMeta {
                id,
                version: None,
                deleted: false,
                changeset_id: None,
                timestamp: None,
                uid: None,
                user: None,
                tags: Map::empty(),
            }),
            r.nodes@.len() == 0,
    {
        let r = StringWay {
            id,
            version: None,
            deleted: false,
            changeset_id: None,
            timestamp: None,
            uid: None,
            user: None,
            tags: Vec::new(),
            nodes: Vec::new(),
        };
        proof {
            assert(tag_map(r.tags@) =~= Map::empty());
        }
        r
    }
}

impl OSMObjBase for StringWay {
    open spec fn meta(&self) -> ObjMeta {
        ObjMeta {
            id: self.id,
            version: self.version,
            deleted: self.deleted,
            changeset_id: self.changeset_id,
            timestamp: self.timestamp,
            uid: self.uid,
            user: opt_str(self.user),
            tags: tag_map(self.tags@),
        }
    }

    open spec fn wf(&self) -> bool {
        keys_unique(self.tags@)
    }

    fn id(&self) -> (r: ObjId) {
        self.id
    }

    fn set_id(&mut self, val: ObjId)
        ensures
            final(self).nodes == old(self).nodes,
    {
        self.id = val;
    }

    fn version(&self) -> (r: Option<u32>) {
        self.version
    }

    fn set_version(&mut self, val: Option<u32>)
        ensures
            final(self).nodes == old(self).nodes,
    {
        self.version = val;
    }

    fn deleted(&self) -> (r: bool) {
        self.deleted
    }

    fn set_deleted(&mut self, val: bool)
        ensures
            final(self).nodes == old(self).nodes,
    {
        self.deleted = val;
    }

    fn changeset_id(&self) -> (r: Option<u32>) {
        self.changeset_id
    }

    fn set_changeset_id(&mut self, val: Option<u32>)
        ensures
            final(self).nodes == old(self).nodes,
    {
        self.changeset_id = val;
    }

    fn uid(&self) -> (r: Option<u32>) {
        self.uid
    }

    fn set_uid(&mut self, val: Option<u32>)
        ensures
            final(self).nodes == old(self).nodes,
    {
        self.uid = val;
    }

    fn timestamp(&self) -> (r: &Option<TimestampFormat>) {
        &self.timestamp
    }

    fn set_timestamp(&mut self, val: Option<TimestampFormat>)
        ensures
            final(self).nodes == old(self).nodes,
    {
        self.timestamp = val;
    }

    fn user(&self) -> (r: Option<&str>) {
        match &self.user {
            Some(s) => Some(s.as_str()),
            None => None,
        }
    }

    fn set_user(&mut self, val: Option<&str>)
        ensures
            final(self).nodes == old(self).nodes,
    {
        self.user = match val {
            Some(s) => Some(s.to_owned()),
            None => None,
        };
    }

    fn tags(&self) -> (r: &Vec<(String, String)>) {
        &self.tags
    }

    fn tag(&self, key: &str) -> (r: Option<&str>) {
        lookup_tag(&self.tags, key)
    }

    fn set_tag(&mut self, key: &str, value: &str)
        ensures
            final(self).nodes == old(self).nodes,
    {
        self.tags = with_tag(&self.tags, key, value);
    }

    fn unset_tag(&mut self, key: &str)
        ensures
            final(self).nodes == old(self).nodes,
    {
        self.tags = without_tag(&self.tags, key);
    }

    fn strip_metadata(&mut self)
        ensures
            final(self).nodes == old(self).nodes,
    {
        self.set_uid(None);
        self.set_user(None);
        self.set_changeset_id(None);
    }
}
/// A relation held with owned strings.
#[derive(Debug, Clone, PartialEq)]
pub struct StringRelation {
    pub id: ObjId,
    pub version: Option<u32>,
    pub deleted: bool,
    pub changeset_id: Option<u32>,
    pub timestamp: Option<TimestampFormat>,
    pub uid: Option<u32>,
    pub user: Option<String>,
    pub tags: Vec<(String, String)>,
    pub members: Vec<(OSMObjectType, ObjId, String)>,
}

impl StringRelation {
    /// An object with the given id and every other field unset or empty.
    pub fn new(id: ObjId) -> (r: StringRelation)
        ensures
            r.wf(),
            r.meta() == (ObjMeta {
                id,
                version: None,
                deleted: false,
                changeset_id: None,
                timestamp: None,
                uid: None,
                user: None,
                tags: Map::empty(),
            }),
            r.members@.len() == 0,
    {
        let r = StringRelation {
            id,
            version: None,
            deleted: false,
            changeset_id: None,
            timestamp: None,
            uid: None,
            user: None,
            tags: Vec::new(),
            members: Vec::new(),
        };
        proof {
            assert(tag_map(r.tags@) =~= Map::empty());
        }
        r
    }
}

impl OSMObjBase for StringRelation {
    open spec fn meta(&self) -> ObjMeta {
        ObjMeta {
            id: self.id,
            version: self.version,
            deleted: self.deleted,
            changeset_id: self.changeset_id,
            timestamp: self.timestamp,
            uid: self.uid,
            user: opt_str(self.user),
            tags: tag_map(self.tags@),
        }
    }

    open spec fn wf(&self) -> bool {
        keys_unique(self.tags@)
    }

    fn id(&self) -> (r: ObjId) {
        self.id
    }

    fn set_id(&mut self, val: ObjId)
        ensures
            final(self).members == old(self).members,
    {
        self.id = val;
    }

    fn version(&self) -> (r: Option<u32>) {
        self.version
    }

    fn set_version(&mut self, val: Option<u32>)
        ensures
            final(self).members == old(self).members,
    {
        self.version = val;
    }

    fn deleted(&self) -> (r: bool) {
        self.deleted
    }

    fn set_deleted(&mut self, val: bool)
        ensures
            final(self).members == old(self).members,
    {
        self.deleted = val;
    }

    fn changeset_id(&self) -> (r: Option<u32>) {
        self.changeset_id
    }

    fn set_changeset_id(&mut self, val: Option<u32>)
        ensures
            final(self).members == old(self).members,
    {
        self.changeset_id = val;
    }

    fn uid(&self) -> (r: Option<u32>) {
        self.uid
    }

    fn set_uid(&mut self, val: Option<u32>)
        ensures
            final(self).members == old(self).members,
    {
        self.uid = val;
    }

    fn timestamp(&self) -> (r: &Option<TimestampFormat>) {
        &self.timestamp
    }

    fn set_timestamp(&mut self, val: Option<TimestampFormat>)
        ensures
            final(self).members == old(self).members,
    {
        self.timestamp = val;
    }

    fn user(&self) -> (r: Option<&str>) {
        match &self.user {
            Some(s) => Some(s.as_str()),
            None => None,
        }
    }

    fn set_user(&mut self, val: Option<&str>)
        ensures
            final(self).members == old(self).members,
    {
        self.user = match val {
            Some(s) => Some(s.to_owned()),
            None => None,
        };
    }

    fn tags(&self) -> (r: &Vec<(String, String)>) {
        &self.tags
    }

    fn tag(&self, key: &str) -> (r: Option<&str>) {
        lookup_tag(&self.tags, key)
    }

    fn set_tag(&mut self, key: &str, value: &str)
        ensures
            final(self).members == old(self).members,
    {
        self.tags = with_tag(&self.tags, key, value);
    }

    fn unset_tag(&mut self, key: &str)
        ensures
            final(self).members == old(self).members,
    {
        self.tags = without_tag(&self.tags, key);
    }

    fn strip_metadata(&mut self)
        ensures
            final(self).members == old(self).members,
    {
        self.set_uid(None);
        self.set_user(None);
        self.set_changeset_id(None);
    }
}
impl Node for StringNode {
    open spec fn location(&self) -> Option<(i32, i32)> {
        self.lat_lon
    }

    fn lat_lon(&self) -> (r: Option<(i32, i32)>) {
        self.lat_lon
    }

    fn set_lat_lon(&mut self, loc: Option<(i32, i32)>) {
        self.lat_lon = loc;
    }
}

impl Way for StringWay {
    open spec fn node_ids(&self) -> Seq<ObjId> {
        self.nodes@
    }

    fn nodes(&self) -> (r: &Vec<ObjId>) {
        &self.nodes
    }

    fn num_nodes(&self) -> (r: usize) {
        self.nodes.len()
    }

    fn node(&self, idx: usize) -> (r: Option<ObjId>) {
        if idx < self.nodes.len() {
            Some(self.nodes[idx])
        } else {
            None
        }
    }

    fn set_nodes(&mut self, nodes: Vec<ObjId>) {
        self.nodes = nodes;
    }
}

impl Relation for StringRelation {
    open spec fn member_list(&self) -> Seq<(OSMObjectType, ObjId, Seq<char>)> {
        members_view(self.members@)
    }

    fn members(&self) -> (r: &Vec<(OSMObjectType, ObjId, String)>) {
        &self.members
    }

    fn set_members(&mut self, members: Vec<(OSMObjectType, ObjId, String)>) {
        self.members = members;
    }
}
/// Two objects are of the same kind and hold the same location, point list
/// or member list.
pub open spec fn same_payload(a: StringOSMObj, b: StringOSMObj) -> bool {
    match (a, b) {
        (StringOSMObj::Node(x), StringOSMObj::Node(y)) => x.lat_lon == y.lat_lon,
        (StringOSMObj::Way(x), StringOSMObj::Way(y)) => x.nodes == y.nodes,
        (StringOSMObj::Relation(x), StringOSMObj::Relation(y)) => x.members == y.members,
        _ => false,
    }
}

/// An object of any kind, held with owned strings.
#[derive(Debug, Clone, PartialEq)]
pub enum StringOSMObj {
    Node(StringNode),
    Way(StringWay),
    Relation(StringRelation),
}

impl From<StringNode> for StringOSMObj {
    fn from(x: StringNode) -> (r: StringOSMObj) {
        StringOSMObj::Node(x)
    }
}

impl vstd::std_specs::convert::FromSpecImpl<StringNode> for StringOSMObj {
    open spec fn obeys_from_spec() -> bool {
        true
    }

    open spec fn from_spec(x: StringNode) -> StringOSMObj {
        StringOSMObj::Node(x)
    }
}

impl From<StringWay> for StringOSMObj {
    fn from(x: StringWay) -> (r: StringOSMObj) {
        StringOSMObj::Way(x)
    }
}

impl vstd::std_specs::convert::FromSpecImpl<StringWay> for StringOSMObj {
    open spec fn obeys_from_spec() -> bool {
        true
    }

    open spec fn from_spec(x: StringWay) -> StringOSMObj {
        StringOSMObj::Way(x)
    }
}

impl From<StringRelation> for StringOSMObj {
    fn from(x: StringRelation) -> (r: StringOSMObj) {
        StringOSMObj::Relation(x)
    }
}

impl vstd::std_specs::convert::FromSpecImpl<StringRelation> for StringOSMObj {
    open spec fn obeys_from_spec() -> bool {
        true
    }

    open spec fn from_spec(x: StringRelation) -> StringOSMObj {
        StringOSMObj::Relation(x)
    }
}

impl OSMObjBase for StringOSMObj {
    open spec fn meta(&self) -> ObjMeta {
        match self {
            StringOSMObj::Node(x) => x.meta(),
            StringOSMObj::Way(x) => x.meta(),
            StringOSMObj::Relation(x) => x.meta(),
        }
    }

    open spec fn wf(&self) -> bool {
        match self {
            StringOSMObj::Node(x) => x.wf(),
            StringOSMObj::Way(x) => x.wf(),
            StringOSMObj::Relation(x) => x.wf(),
        }
    }

    fn id(&self) -> (r: ObjId) {
        match self {
            StringOSMObj::Node(x) => x.id(),
            StringOSMObj::Way(x) => x.id(),
            StringOSMObj::Relation(x) => x.id(),
        }
    }

    fn set_id(&mut self, val: ObjId)
        ensures
            same_payload(*old(self), *final(self)),
    {
        match self {
            StringOSMObj::Node(x) => x.set_id(val),
            StringOSMObj::Way(x) => x.set_id(val),
            StringOSMObj::Relation(x) => x.set_id(val),
        }
    }

    fn version(&self) -> (r: Option<u32>) {
        match self {
            StringOSMObj::Node(x) => x.version(),
            StringOSMObj::Way(x) => x.version(),
            StringOSMObj::Relation(x) => x.version(),
        }
    }

    fn set_version(&mut self, val: Option<u32>)
        ensures
            same_payload(*old(self), *final(self)),
    {
        match self {
            StringOSMObj::Node(x) => x.set_version(val),
            StringOSMObj::Way(x) => x.set_version(val),
            StringOSMObj::Relation(x) => x.set_version(val),
        }
    }

    fn deleted(&self) -> (r: bool) {
        match self {
            StringOSMObj::Node(x) => x.deleted(),
            StringOSMObj::Way(x) => x.deleted(),
            StringOSMObj::Relation(x) => x.deleted(),
        }
    }

    fn set_deleted(&mut self, val: bool)
        ensures
            same_payload(*old(self), *final(self)),
    {
        match self {
            StringOSMObj::Node(x) => x.set_deleted(val),
            StringOSMObj::Way(x) => x.set_deleted(val),
            StringOSMObj::Relation(x) => x.set_deleted(val),
        }
    }

    fn changeset_id(&self) -> (r: Option<u32>) {
        match self {
            StringOSMObj::Node(x) => x.changeset_id(),
            StringOSMObj::Way(x) => x.changeset_id(),
            StringOSMObj::Relation(x) => x.changeset_id(),
        }
    }

    fn set_changeset_id(&mut self, val: Option<u32>)
        ensures
            same_payload(*old(self), *final(self)),
    {
        match self {
            StringOSMObj::Node(x) => x.set_changeset_id(val),
            StringOSMObj::Way(x) => x.set_changeset_id(val),
            StringOSMObj::Relation(x) => x.set_changeset_id(val),
        }
    }

    fn uid(&self) -> (r: Option<u32>) {
        match self {
            StringOSMObj::Node(x) => x.uid(),
            StringOSMObj::Way(x) => x.uid(),
            StringOSMObj::Relation(x) => x.uid(),
        }
    }

    fn set_uid(&mut self, val: Option<u32>)
        ensures
            same_payload(*old(self), *final(self)),
    {
        match self {
            StringOSMObj::Node(x) => x.set_uid(val),
            StringOSMObj::Way(x) => x.set_uid(val),
            StringOSMObj::Relation(x) => x.set_uid(val),
        }
    }

    fn timestamp(&self) -> (r: &Option<TimestampFormat>) {
        match self {
            StringOSMObj::Node(x) => x.timestamp(),
            StringOSMObj::Way(x) => x.timestamp(),
            StringOSMObj::Relation(x) => x.timestamp(),
        }
    }

    fn set_timestamp(&mut self, val: Option<TimestampFormat>)
        ensures
            same_payload(*old(self), *final(self)),
    {
        match self {
            StringOSMObj::Node(x) => x.set_timestamp(val),
            StringOSMObj::Way(x) => x.set_timestamp(val),
            StringOSMObj::Relation(x) => x.set_timestamp(val),
        }
    }

    fn user(&self) -> (r: Option<&str>) {
        match self {
            StringOSMObj::Node(x) => x.user(),
            StringOSMObj::Way(x) => x.user(),
            StringOSMObj::Relation(x) => x.user(),
        }
    }

    fn set_user(&mut self, val: Option<&str>)
        ensures
            same_payload(*old(self), *final(self)),
    {
        match self {
            StringOSMObj::Node(x) => x.set_user(val),
            StringOSMObj::Way(x) => x.set_user(val),
            StringOSMObj::Relation(x) => x.set_user(val),
        }
    }

    fn tags(&self) -> (r: &Vec<(String, String)>) {
        match self {
            StringOSMObj::Node(x) => x.tags(),
            StringOSMObj::Way(x) => x.tags(),
            StringOSMObj::Relation(x) => x.tags(),
        }
    }

    fn tag(&self, key: &str) -> (r: Option<&str>) {
        match self {
            StringOSMObj::Node(x) => x.tag(key),
            StringOSMObj::Way(x) => x.tag(key),
            StringOSMObj::Relation(x) => x.tag(key),
        }
    }

    fn set_tag(&mut self, key: &str, value: &str)
        ensures
            same_payload(*old(self), *final(self)),
    {
        match self {
            StringOSMObj::Node(x) => x.set_tag(key, value),
            StringOSMObj::Way(x) => x.set_tag(key, value),
            StringOSMObj::Relation(x) => x.set_tag(key, value),
        }
    }

    fn unset_tag(&mut self, key: &str)
        ensures
            same_payload(*old(self), *final(self)),
    {
        match self {
            StringOSMObj::Node(x) => x.unset_tag(key),
            StringOSMObj::Way(x) => x.unset_tag(key),
            StringOSMObj::Relation(x) => x.unset_tag(key),
        }
    }

    fn strip_metadata(&mut self)
        ensures
            same_payload(*old(self), *final(self)),
    {
        self.set_uid(None);
        self.set_user(None);
        self.set_changeset_id(None);
    }
}

impl OSMObj for StringOSMObj {
    type Node = StringNode;
    type Way = StringWay;
    type Relation = StringRelation;

    open spec fn kind(&self) -> OSMObjectType {
        match self {
            StringOSMObj::Node(_) => OSMObjectType::Node,
            StringOSMObj::Way(_) => OSMObjectType::Way,
            StringOSMObj::Relation(_) => OSMObjectType::Relation,
        }
    }

    fn object_type(&self) -> (r: OSMObjectType) {
        match self {
            StringOSMObj::Node(_) => OSMObjectType::Node,
            StringOSMObj::Way(_) => OSMObjectType::Way,
            StringOSMObj::Relation(_) => OSMObjectType::Relation,
        }
    }

    fn into_node(self) -> (r: Option<StringNode>)
        ensures
            r == (match self {
                StringOSMObj::Node(x) => Some(x),
                _ => None,
            }),
    {
        match self {
            StringOSMObj::Node(x) => Some(x),
            _ => None,
        }
    }

    fn as_node(&self) -> (r: Option<&StringNode>)
        ensures
            r == (match self {
                StringOSMObj::Node(x) => Some(x),
                _ => None,
            }),
    {
        match self {
            StringOSMObj::Node(x) => Some(x),
            _ => None,
        }
    }

    fn into_way(self) -> (r: Option<StringWay>)
        ensures
            r == (match self {
                StringOSMObj::Way(x) => Some(x),
                _ => None,
            }),
    {
        match self {
            StringOSMObj::Way(x) => Some(x),
            _ => None,
        }
    }

    fn as_way(&self) -> (r: Option<&StringWay>)
        ensures
            r == (match self {
                StringOSMObj::Way(x) => Some(x),
                _ => None,
            }),
    {
        match self {
            StringOSMObj::Way(x) => Some(x),
            _ => None,
        }
    }

    fn into_relation(self) -> (r: Option<StringRelation>)
        ensures
            r == (match self {
                StringOSMObj::Relation(x) => Some(x),
                _ => None,
            }),
    {
        match self {
            StringOSMObj::Relation(x) => Some(x),
            _ => None,
        }
    }

    fn as_relation(&self) -> (r: Option<&StringRelation>)
        ensures
            r == (match self {
                StringOSMObj::Relation(x) => Some(x),
                _ => None,
            }),
    {
        match self {
            StringOSMObj::Relation(x) => Some(x),
            _ => None,
        }
    }
}

} // verus!
