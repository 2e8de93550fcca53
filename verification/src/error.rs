//! The error taxonomy of the library.

use vstd::prelude::*;

verus! {

/// Every recoverable failure the library reports.
///
/// `MalformedInstruction` carries the offending text or binary word; it is
/// raised by the loaders and never reaches the machine.  `StepBudgetExceeded`
/// means a program ran past the configured step budget; search strategies
/// treat it as "not equivalent".  `InvalidOperand` marks an operand outside
/// the configured memory size at construction time.
#[derive(Debug, Clone, PartialEq, Eq)]
pub enum SuperrError {
    MalformedInstruction(String),
    StepBudgetExceeded,
    InvalidOperand,
}

} // verus!
