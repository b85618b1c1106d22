//! Failure kinds surfaced by the driver.

use vstd::prelude::*;

verus! {

/// Why a driver operation failed.
#[derive(Debug, Clone, Copy, PartialEq, Eq, Structural)]
pub enum IgbError {
    /// A DMA allocation could not be satisfied.
    NoMemory,
    /// A register did not reach the awaited value within its poll budget.
    Timeout,
}

} // verus!
