//! Turns raw filesystem change notifications into a normalized stream of
//! created / modified / removed messages, filtered by glob rules and diffed
//! against a store of last-known metadata.
pub mod filter;
pub mod metadata;
pub mod handler;
