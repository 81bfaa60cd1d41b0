//! Filesystem snapshot indexing and comparison.
//!
//! The crate indexes filesystem trees into content-addressed metadata
//! records ([`fs_node::FsNode`]) and compares two such indexes over a
//! shared virtual-path namespace, producing a classified, ordered change
//! report.

pub mod apperror;
pub mod attrs;
pub mod balancer;
pub mod compare;
pub mod delta;
pub mod fs_node;
pub mod hashing;
pub mod indexer;
pub mod paths;
pub mod perms;
pub mod pool;
pub mod report;
pub mod strutil;

use vstd::prelude::*;

verus! {

} // verus!
