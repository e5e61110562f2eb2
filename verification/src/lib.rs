//! Record-management backend for a small academic-tracking application.
//!
//! Four entity kinds — students, lectures, attendance records, and messages —
//! are stored in durable key-value maps keyed by identifiers drawn from one
//! shared, monotonically increasing counter. Every record is serialized with
//! the crate's own length-prefixed codec, proved to round-trip exactly, and
//! must fit a fixed per-record size ceiling.

use vstd::prelude::*;

pub mod backend;
pub mod codec;
pub mod laws;
pub mod model;
pub mod stable;
pub mod text;

verus! {

/// Ceiling on the serialized size of a single record, in bytes.
pub const MAX_RECORD_BYTES: usize = 2048;

/// Recoverable failures of the record-management operations.
///
/// `NotFound` reports an absent key or an unmet cross-entity existence
/// precondition; `InvalidInput` an empty required text field or a failed
/// authorization check; `TooLarge` a record whose serialized form would
/// exceed the per-record size ceiling.
#[derive(Debug)]
pub enum Error {
    NotFound { msg: String },
    InvalidInput { msg: String },
    TooLarge { msg: String },
}

} // verus!
