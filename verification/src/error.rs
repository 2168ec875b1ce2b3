//! The ways in which assembling or preparing the summary can fail.

use vstd::prelude::*;
use crate::probe::ProbeKind;

verus! {

/// A failure of the pipeline. Every one of them is fatal to the run: nothing
/// is rendered once one has occurred.
#[derive(Debug, PartialEq, Eq)]
pub enum InfoError {
    /// A probe was handed over out of turn: `expected` is the kind whose turn
    /// it was, if any was still to come.
    OutOfOrder { expected: Option<ProbeKind>, found: ProbeKind },
    /// The probes are not all constructed yet: `missing` is the next to come.
    Incomplete { missing: ProbeKind },
    /// The override template exists but could not be read.
    Read { path: String, cause: String },
    /// The template could not be expanded.
    Render { cause: String },
    /// The regex engine refused the control-sequence pattern.
    Pattern,
    /// The rendered text is too large for its size to be counted.
    Overflow,
}

} // verus!
