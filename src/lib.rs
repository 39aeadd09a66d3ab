//! Identity-token verification: claim checks and policy, token framing, the
//! step function of signature-checked verification, and the signing-key cache.
//! Beside it, the link-shortening domain that the verified identities act on.

pub mod text;
pub mod claims;
pub mod token;
pub mod signed;
pub mod keys;
pub mod laws;
pub mod model;
pub mod repository;
pub mod memory_repo;
pub mod groups;
pub mod sort;
pub mod clicks;
pub mod audit;
pub mod service;
pub mod base62;
pub mod slug;
pub mod validate;
pub mod http_common;
pub mod config;
pub mod storage;
