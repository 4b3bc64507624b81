//! Verified core of the chat backend: permission masks, channel and role
//! ordering, configuration assembly, input validation and token generation.
pub mod api;
pub mod config;
pub mod crypto;
pub mod error;
pub mod objects;
pub mod structs;
pub mod utils;
pub mod web_url;
