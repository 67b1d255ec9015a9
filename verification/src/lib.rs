//! In-memory log buffers rendered to delimited text.
//!
//! Two independent subsystems share the same shape: a buffer accumulates
//! immutable entries in append order and renders them to one text blob,
//! one line per entry. The `custom` module holds free-form title/context
//! entries; the `structured` module holds program-event entries (variable
//! assignments, calls, control flow). Timestamps are relative to a start
//! instant fixed at buffer construction; instants are injected by the
//! caller as plain nanosecond counts, so rendering is deterministic.

use vstd::prelude::*;

pub mod custom;
pub mod render;
pub mod structured;

verus! {

/// The ways an operation of this crate can fail.
#[derive(Clone, Copy, Debug, PartialEq, Eq, Structural)]
pub enum LogError {
    /// A structured entry was requested with a tag outside the closed set.
    InvalidKind,
    /// An entry's capture time precedes the buffer's start time, so no
    /// relative timestamp can be rendered for it.
    ClockSkew,
}

} // verus!
