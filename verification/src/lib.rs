//! Generator of layout cross-validation tests for translated native
//! declarations.
//!
//! While a binding translator walks a set of native header declarations it
//! reports, as events, every header it read, every type it translated and
//! every field of such a type.  This crate records those events in a
//! registry and, once the registry is frozen, deterministically renders one
//! verification unit per retained type: a test asserting that the size,
//! alignment and per-field offsets the target language computes agree with
//! the values the native compiler produces for the same declaration.

use vstd::prelude::*;

pub mod builder;
pub mod cfgu;
pub mod gen;
pub mod laws;
pub mod matcher;
pub mod model;
pub mod names;
pub mod text;

verus! {

/// The error kinds of this crate.  `InvalidPattern` is returned when an
/// exclusion pattern does not compile; `IoError` and `FormatError` arise
/// only while persisting the generated program and are reported by the
/// code that owns the output target.
#[derive(Clone, Copy, Debug, PartialEq, Eq, Structural)]
pub enum Error {
    InvalidPattern,
    IoError,
    FormatError,
}

} // verus!
