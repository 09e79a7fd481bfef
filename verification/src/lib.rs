//! Core of an interactive directory browser: a navigation-and-search state
//! machine over a listing of directory entries.
//!
//! The listing is always shown with two synthetic rows on top — row 0 ascends
//! to the parent directory, row 1 refreshes the current one — so real entries
//! occupy rows `2..(2 + len)`. The library owns selection movement,
//! incremental substring search with its target set and recovery anchor, and
//! the decision part of traversal; an unverified front end performs the
//! filesystem reads and the rendering and hands plain values back.

pub mod browser;
pub mod laws;
pub mod listing;
pub mod search;
pub mod text;
