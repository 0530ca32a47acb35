//! Protective wrapper logic for a destructive file-removal command:
//! glob-to-regex translation, pattern matchers over absolutized paths,
//! and the argument-filtering policy.

pub mod filter;
pub mod glob;
pub mod matcher;
pub mod strutil;
