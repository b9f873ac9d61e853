//! Vote aggregation for a shared setlist: a vote store with a per-voter quota,
//! ordered tallies, identity tokens, the decisions of a live viewer connection,
//! and the HTML fragments that present them.

pub mod database;
pub mod errors;
pub mod vote;
pub mod tally;
pub mod identity;
pub mod viewer;
pub mod view;
pub mod page;
pub mod vote_results;
pub mod setlist;
pub mod develop;
