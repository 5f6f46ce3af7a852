//! Read and write OpenStreetMap data: the object model and the compact
//! binary block codec.
use vstd::prelude::*;

pub mod timestamp;
pub mod tags;
pub mod object_type;
pub mod base;
pub mod obj_types;
pub mod delta;
pub mod wire;
pub mod block;
pub mod decode;
pub mod dense;
pub mod block_decode;
pub mod encode;
pub mod round_trip;
pub mod block_encode;
pub mod frame;
pub mod writer;
pub mod reader;

pub use base::{ObjMeta, OSMObjBase, Node, Way, Relation, OSMObj};
pub use object_type::OSMObjectType;
pub use timestamp::TimestampFormat;
pub use obj_types::{StringNode, StringWay, StringRelation, StringOSMObj};

verus! {

/// Identifier of an object.
pub type ObjId = i64;

/// The version string of this library.
pub fn version() -> (r: &'static str)
    ensures
        r@ == "0.1.0"@,
{
    "0.1.0"
}

} // verus!
