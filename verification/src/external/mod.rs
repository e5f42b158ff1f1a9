//! Calls into the libraries that this crate builds on.
//!
//! Each function here makes one such call. What it states about the call is
//! taken on trust; everything else in the crate is proved from it.

pub mod encoding;
pub mod headers;
pub mod json;
pub mod jwt;
pub mod request;
