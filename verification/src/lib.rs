//! Verified core of a Git remote helper that keeps repositories on storage
//! services: URL and parameter handling, credential resolution decisions,
//! the remote-helper line protocol and the push/fetch session logic.

pub mod text;
pub mod strmap;
pub mod protocol;
pub mod config;
pub mod credentials;
pub mod storage;
pub mod helper;
pub mod operator;
