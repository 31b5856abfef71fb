//! A verified clipboard-history engine.
//!
//! The engine keeps a bounded, deduplicated, ordered in-memory history of
//! copied text, decides on every poll tick whether an observed clipboard
//! value is a genuinely new external copy (suppressing the echo of the
//! engine's own clipboard writes), and persists user favorites in a small
//! relational store.

pub mod commands;
pub mod errors;
pub mod favorites;
pub mod history;
pub mod laws;
pub mod poller;
