//! The shapes of what the service answers, as plain values. Field names on
//! the wire belong to the transport layer.
use vstd::prelude::*;

verus! {

/// What a collection holds.
#[derive(Clone, Copy, Debug, PartialEq, Eq, Structural)]
pub enum ContentKind {
    Recipe,
}

/// What a collection is for.
#[derive(Clone, Copy, Debug, PartialEq, Eq, Structural)]
pub enum CollectionKind {
    Saved,
    Cooked,
    RecentlyViewed,
    UserCreated,
}

/// A point in time, as nanoseconds since the Unix epoch (UTC).
#[derive(Clone, Copy, Debug, PartialEq, Eq, Structural)]
pub struct Timestamp {
    pub unix_nanos: i128,
}

/// One page of a collection's recipe ids.
#[derive(Debug)]
pub struct CollectionContentResponse {
    pub content: Vec<String>,
    pub content_type: ContentKind,
    pub last_modified: Option<Timestamp>,
}

/// One collection in the list of a user's collections.
#[derive(Debug)]
pub struct CollectionResponse {
    pub id: String,
    pub collection_type: CollectionKind,
    pub last_modified: Timestamp,
}

/// The list of a user's collections.
#[derive(Debug)]
pub struct CollectionsResponse {
    pub collections: Vec<CollectionResponse>,
}

} // verus!
