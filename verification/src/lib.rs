//! The roster of a room's supporters, gathered page by page from a listing
//! service and rendered as lines of text.

pub mod aggregator;
pub mod error;
pub mod handler;
pub mod laws;
pub mod roster;
pub mod upstream;
