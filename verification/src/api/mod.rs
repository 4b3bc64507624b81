//! Answers of the HTTP API that need no state.
pub mod versions;
