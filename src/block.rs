use vstd::prelude::*;
use crate::ObjId;
use crate::timestamp::TimestampFormat;

verus! {

/// The metadata of one object as it stands in a block.
#[derive(Debug, Clone)]
pub struct Info {
    pub version: Option<u32>,
    pub deleted: bool,
    pub changeset_id: Option<u32>,
    pub timestamp: Option<TimestampFormat>,
    pub uid: Option<u32>,
    /// String index of the user name; 0 when there is none.
    pub user_sid: u32,
}

/// Points packed in columns, each column delta coded.
#[derive(Debug, Clone)]
pub struct DenseNodes {
    pub id: Vec<i64>,
    pub lat: Vec<i64>,
    pub lon: Vec<i64>,
    /// Key and value string indices, pairs for each point in turn, a 0 ending
    /// each point's tags.
    pub keys_vals: Vec<u32>,
    /// The metadata of each point, in column order; empty when the points
    /// carry none.
    pub infos: Vec<Info>,
}

/// A line as it stands in a block.
#[derive(Debug, Clone)]
pub struct WayBlock {
    pub id: ObjId,
    pub keys: Vec<u32>,
    pub vals: Vec<u32>,
    /// Delta coded ids of the points.
    pub refs: Vec<i64>,
    pub info: Info,
}

/// A relation as it stands in a block.
#[derive(Debug, Clone)]
pub struct RelationBlock {
    pub id: ObjId,
    pub keys: Vec<u32>,
    pub vals: Vec<u32>,
    pub roles_sid: Vec<u32>,
    /// Delta coded ids of the members.
    pub memids: Vec<i64>,
    /// Kind code of each member: 0 point, 1 line, 2 relation.
    pub types: Vec<u32>,
    pub info: Info,
}

/// One block of the binary encoding: a string table and its groups.
#[derive(Debug, Clone)]
pub struct PrimitiveBlock {
    /// Index 0 is reserved and never refers to a string.
    pub stringtable: Vec<String>,
    /// Size of a coordinate unit, in nanodegrees.
    pub granularity: i32,
    pub lat_offset: i64,
    pub lon_offset: i64,
    pub dense: Option<DenseNodes>,
    pub ways: Vec<WayBlock>,
    pub relations: Vec<RelationBlock>,
}

/// Why a block could not be decoded.
#[derive(Debug, Clone, Copy, PartialEq, Eq, Structural)]
pub enum FormatError {
    /// A string index is 0 or past the end of the string table.
    BadStringIndex,
    /// Arrays that must be parallel differ in length.
    LengthMismatch,
    /// A member kind code other than 0, 1 or 2.
    BadMemberType,
    /// A running sum or a coordinate leaves its integer range.
    OutOfRange,
}

} // verus!
