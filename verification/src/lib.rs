//! Fetch-and-hydrate pipeline for kill events: link parsing, paging, the
//! response cache, detail hydration, name resolution and record assembly.
//!
//! The library never performs I/O. It decides what to request next and what
//! to do with each reply; the caller carries the requests out.

pub mod assemble;
pub mod cache;
pub mod error;
pub mod hydrate;
pub mod instant;
pub mod link;
pub mod models;
pub mod names;
pub mod paging;
pub mod pipeline;
pub mod text;
