//! An in-memory store of recipe collections for a mock recipe-collection
//! API: seeded from a fixed profile, read page by page, and changed by
//! adding ids (adjacent duplicates collapsed) or removing them (every
//! occurrence).
pub mod fixture;
pub mod handlers;
pub mod models;
pub mod pagination;
pub mod policy;
pub mod store;
