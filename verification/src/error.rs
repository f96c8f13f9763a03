//! Classified failures of the date engine. Each kind has a distinct
//! propagation contract; all are surfaced immediately to the caller, never
//! retried, and carry no partial state.

use vstd::prelude::*;

verus! {

/// The error classes of the engine.
#[derive(Clone, Copy, PartialEq, Eq, Structural, Debug)]
pub enum TemporalError {
    /// Wrong category of input: a value of a kind the operation cannot
    /// accept at all.
    TypeError,
    /// The value has the right shape but is semantically invalid: a
    /// calendar-invalid date under the reject policy, a date outside the
    /// supported range, an unrecognized calendar identifier, an unrecognized
    /// overflow option value, or malformed date text.
    RangeError,
    /// A specification-mandated behavior this engine does not yet provide,
    /// kept structurally distinct from genuine violations.
    NotImplemented,
}

} // verus!
