//! Incremental, resumable code review of a development branch against a
//! target branch.
//!
//! The library is the decision core of the tool: it validates partial-review
//! boundaries, plans the backend operations that prepare a review branch,
//! decides what an approval commits and discards, parses the backend's diff
//! summaries, and recognises review sessions from branch names. Everything
//! that touches the outside world (the version-control subprocess, the
//! terminal) lives outside the library and only feeds plain values in.

pub mod approve;
pub mod backend;
pub mod range;
pub mod review;
pub mod session;
pub mod status;
pub mod text;
