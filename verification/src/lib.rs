//! Verified core of a Weibo timeline archiver.
//!
//! The library holds the logic of the archiver: parsing the API's timestamp
//! format, deterministic naming of archive directories and files, resolving
//! video links, rendering the per-post text manifest, planning the per-post
//! download steps, the pagination state machine, and the bounded-concurrency
//! admission gate. All I/O stays outside the library: callers fetch pages,
//! create directories and download bytes exactly as the step lists and state
//! machines here direct them to.

pub mod datetime;
pub mod fetch;
pub mod manifest;
pub mod naming;
pub mod orchestrator;
pub mod plan;
pub mod post;
pub mod text;
pub mod video;
