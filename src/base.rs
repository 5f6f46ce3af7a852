use vstd::prelude::*;
use crate::ObjId;
use crate::object_type::OSMObjectType;
use crate::timestamp::TimestampFormat;

verus! {

/// What every object holds, whatever its kind and representation.
pub struct ObjMeta {
    pub id: ObjId,
    pub version: Option<u32>,
    pub deleted: bool,
    pub changeset_id: Option<u32>,
    pub timestamp: Option<TimestampFormat>,
    pub uid: Option<u32>,
    pub user: Option<Seq<char>>,
    pub tags: Map<Seq<char>, Seq<char>>,
}

/// The view of an optional text.
pub open spec fn opt_str(s: Option<String>) -> Option<Seq<char>> {
    match s {
        Some(t) => Some(t@),
        None => None,
    }
}

/// The view of a list of relation members.
pub open spec fn members_view(s: Seq<(OSMObjectType, ObjId, String)>) -> Seq<
    (OSMObjectType, ObjId, Seq<char>),
> {
    s.map_values(|m: (OSMObjectType, ObjId, String)| (m.0, m.1, m.2@))
}

/// The metadata fields and tags that all objects share.
pub trait OSMObjBase: Sized {
    /// The object's shared fields.
    spec fn meta(&self) -> ObjMeta;

    /// The object's internal invariant holds.
    spec fn wf(&self) -> bool;

    fn id(&self) -> (r: ObjId)
        ensures
            r == self.meta().id,
    ;

    fn set_id(&mut self, val: ObjId)
        requires
            old(self).wf(),
        ensures
            final(self).wf(),
            final(self).meta() == (ObjMeta { id: val, ..old(self).meta() }),
    ;

    fn version(&self) -> (r: Option<u32>)
        ensures
            r == self.meta().version,
    ;

    fn set_version(&mut self, val: Option<u32>)
        requires
            old(self).wf(),
        ensures
            final(self).wf(),
            final(self).meta() == (ObjMeta { version: val, ..old(self).meta() }),
    ;

    fn deleted(&self) -> (r: bool)
        ensures
            r == self.meta().deleted,
    ;

    fn set_deleted(&mut self, val: bool)
        requires
            old(self).wf(),
        ensures
            final(self).wf(),
            final(self).meta() == (ObjMeta { deleted: val, ..old(self).meta() }),
    ;

    fn changeset_id(&self) -> (r: Option<u32>)
        ensures
            r == self.meta().changeset_id,
    ;

    fn set_changeset_id(&mut self, val: Option<u32>)
        requires
            old(self).wf(),
        ensures
            final(self).wf(),
            final(self).meta() == (ObjMeta { changeset_id: val, ..old(self).meta() }),
    ;

    fn timestamp(&self) -> (r: &Option<TimestampFormat>)
        ensures
            *r == self.meta().timestamp,
    ;

    fn set_timestamp(&mut self, val: Option<TimestampFormat>)
        requires
            old(self).wf(),
        ensures
            final(self).wf(),
            final(self).meta() == (ObjMeta { timestamp: val, ..old(self).meta() }),
    ;

    fn uid(&self) -> (r: Option<u32>)
        ensures
            r == self.meta().uid,
    ;

    fn set_uid(&mut self, val: Option<u32>)
        requires
            old(self).wf(),
        ensures
            final(self).wf(),
            final(self).meta() == (ObjMeta { uid: val, ..old(self).meta() }),
    ;

    fn user(&self) -> (r: Option<&str>)
        ensures
            match r {
                Some(s) => self.meta().user == Some(s@),
                None => self.meta().user is None,
            },
    ;

    fn set_user(&mut self, val: Option<&str>)
        requires
            old(self).wf(),
        ensures
            final(self).wf(),
            final(self).meta() == (ObjMeta {
                user: match val {
                    Some(s) => Some(s@),
                    None => None,
                },
                ..old(self).meta()
            }),
    ;

    /// The tags, each key once.
    fn tags(&self) -> (r: &Vec<(String, String)>)
        requires
            self.wf(),
        ensures
            crate::tags::keys_unique(r@),
            crate::tags::tag_map(r@) == self.meta().tags,
    ;

    /// The value under `key`, if the object has that tag.
    fn tag(&self, key: &str) -> (r: Option<&str>)
        requires
            self.wf(),
        ensures
            match r {
                Some(v) => self.meta().tags.contains_key(key@) && self.meta().tags[key@] == v@,
                None => !self.meta().tags.contains_key(key@),
            },
    ;

    fn has_tag(&self, key: &str) -> (r: bool)
        requires
            self.wf(),
        ensures
            r == self.meta().tags.contains_key(key@),
    {
        self.tag(key).is_some()
    }

    fn num_tags(&self) -> (r: usize)
        requires
            self.wf(),
        ensures
            r == self.meta().tags.len(),
    {
        let t = self.tags();
        proof {
            crate::tags::lemma_tag_map_len(t@);
        }
        t.len()
    }

    /// True iff this object has tags.
    fn tagged(&self) -> (r: bool)
        requires
            self.wf(),
        ensures
            r == (self.meta().tags.len() > 0),
    {
        !self.untagged()
    }

    /// True iff this object has no tags.
    fn untagged(&self) -> (r: bool)
        requires
            self.wf(),
        ensures
            r == (self.meta().tags.len() == 0),
    {
        self.num_tags() == 0
    }

    /// Sets the tag `key` to `value`, replacing any earlier value.
    fn set_tag(&mut self, key: &str, value: &str)
        requires
            old(self).wf(),
        ensures
            final(self).wf(),
            final(self).meta() == (ObjMeta {
                tags: old(self).meta().tags.insert(key@, value@),
                ..old(self).meta()
            }),
    ;

    /// Removes the tag `key`, if there is one.
    fn unset_tag(&mut self, key: &str)
        requires
            old(self).wf(),
        ensures
            final(self).wf(),
            final(self).meta() == (ObjMeta { tags: old(self).meta().tags.remove(key@), ..old(self).meta() }),
    ;

    /// Clears the user id, user name and changeset id together.
    fn strip_metadata(&mut self)
        requires
            old(self).wf(),
        ensures
            final(self).wf(),
            final(self).meta() == (ObjMeta {
                uid: None,
                user: None,
                changeset_id: None,
                ..old(self).meta()
            }),
    {
        self.set_uid(None);
        self.set_user(None);
        self.set_changeset_id(None);
    }
}

/// A point, with its location in units of 1e-7 degrees (latitude, longitude).
pub trait Node: OSMObjBase {
    spec fn location(&self) -> Option<(i32, i32)>;

    fn lat_lon(&self) -> (r: Option<(i32, i32)>)
        ensures
            r == self.location(),
    ;

    fn has_lat_lon(&self) -> (r: bool)
        ensures
            r == self.location() is Some,
    {
        self.lat_lon().is_some()
    }

    fn set_lat_lon(&mut self, loc: Option<(i32, i32)>)
        requires
            old(self).wf(),
        ensures
            final(self).wf(),
            final(self).meta() == old(self).meta(),
            final(self).location() == loc,
    ;
}

/// A line through an ordered list of points.
pub trait Way: OSMObjBase {
    spec fn node_ids(&self) -> Seq<ObjId>;

    fn nodes(&self) -> (r: &Vec<ObjId>)
        ensures
            r@ == self.node_ids(),
    ;

    fn num_nodes(&self) -> (r: usize)
        ensures
            r == self.node_ids().len(),
    ;

    fn node(&self, idx: usize) -> (r: Option<ObjId>)
        ensures
            match r {
                Some(n) => idx < self.node_ids().len() && n == self.node_ids()[idx as int],
                None => idx >= self.node_ids().len(),
            },
    ;

    /// Replaces the whole list of points.
    fn set_nodes(&mut self, nodes: Vec<ObjId>)
        requires
            old(self).wf(),
        ensures
            final(self).wf(),
            final(self).meta() == old(self).meta(),
            final(self).node_ids() == nodes@,
    ;
}

/// A relation: an ordered list of (kind, id, role) members.
pub trait Relation: OSMObjBase {
    spec fn member_list(&self) -> Seq<(OSMObjectType, ObjId, Seq<char>)>;

    fn members(&self) -> (r: &Vec<(OSMObjectType, ObjId, String)>)
        ensures
            members_view(r@) == self.member_list(),
    ;

    /// Replaces the whole list of members.
    fn set_members(&mut self, members: Vec<(OSMObjectType, ObjId, String)>)
        requires
            old(self).wf(),
        ensures
            final(self).wf(),
            final(self).meta() == old(self).meta(),
            final(self).member_list() == members_view(members@),
    ;
}

/// An object of any of the three kinds.
pub trait OSMObj: OSMObjBase {
    type Node: Node;
    type Way: Way;
    type Relation: Relation;

    spec fn kind(&self) -> OSMObjectType;

    fn object_type(&self) -> (r: OSMObjectType)
        ensures
            r == self.kind(),
    ;

    fn into_node(self) -> (r: Option<Self::Node>)
        ensures
            r is Some <==> self.kind() == OSMObjectType::Node,
    ;

    fn into_way(self) -> (r: Option<Self::Way>)
        ensures
            r is Some <==> self.kind() == OSMObjectType::Way,
    ;

    fn into_relation(self) -> (r: Option<Self::Relation>)
        ensures
            r is Some <==> self.kind() == OSMObjectType::Relation,
    ;

    fn as_node(&self) -> (r: Option<&Self::Node>)
        ensures
            r is Some <==> self.kind() == OSMObjectType::Node,
    ;

    fn as_way(&self) -> (r: Option<&Self::Way>)
        ensures
            r is Some <==> self.kind() == OSMObjectType::Way,
    ;

    fn as_relation(&self) -> (r: Option<&Self::Relation>)
        ensures
            r is Some <==> self.kind() == OSMObjectType::Relation,
    ;

    fn is_node(&self) -> (r: bool)
        ensures
            r == (self.kind() == OSMObjectType::Node),
    {
        self.object_type() == OSMObjectType::Node
    }

    fn is_way(&self) -> (r: bool)
        ensures
            r == (self.kind() == OSMObjectType::Way),
    {
        self.object_type() == OSMObjectType::Way
    }

    fn is_relation(&self) -> (r: bool)
        ensures
            r == (self.kind() == OSMObjectType::Relation),
    {
        self.object_type() == OSMObjectType::Relation
    }
}

} // verus!
