//! Secure file shredding: the decisions of a multi-pass parallel overwrite
//! of one file, and of the shredding of a whole directory tree.
//!
//! The library holds the logic: parameter validation, the partition of a file
//! into per-worker byte ranges, and the two state machines that say which
//! filesystem operation comes next. Whoever drives them performs the
//! operations and reports each outcome back.
use vstd::prelude::*;

pub mod chunk;
pub mod engine;
pub mod errors;
pub mod random;
pub mod walker;

verus! {

} // verus!
