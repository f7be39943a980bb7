use vstd::prelude::*;

verus! {

/// Why a numeric operation could not produce a value of its target type.
#[derive(Clone, Copy, Debug, PartialEq, Eq, Structural)]
pub enum NumericError {
    /// The source value of a cast has no counterpart in the destination type.
    CastFailure,
    /// The exact result of an arithmetic operation lies outside the type.
    Overflow,
    /// A quotient was asked for with zero as the divisor.
    DivisionByZero,
}

/// Why a connection between two blocks was refused.
#[derive(Clone, Copy, Debug, PartialEq, Eq, Structural)]
pub enum WiringError {
    /// The output slot is not below the producer's output width.
    OutOfRange,
    /// The producer or the consumer index names no registered block.
    UnknownBlock,
    /// A block has already been stepped; the wiring is frozen from then on.
    SimulationStarted,
}

/// Why a run stopped before the clock could pass the stop time.
#[derive(Clone, Copy, Debug, PartialEq, Eq, Structural)]
pub enum RunError {
    /// The block at `block` was due, and its step failed with `error`.
    Step { block: usize, error: NumericError },
    /// The step budget was spent while a block was still due.
    StepLimit,
}

} // verus!
