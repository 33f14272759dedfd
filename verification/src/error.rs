use vstd::prelude::*;

verus! {

/// Why an operation was refused. A refused operation leaves the platform as it was.
#[derive(Clone, Copy, Debug, PartialEq, Eq, Structural)]
pub enum Error {
    /// A referenced id or account is absent.
    NotFound,
    /// The caller is not the owner, not enrolled, or lacks the role the operation needs.
    Unauthorized,
    /// The item is already in the state the operation would lead to, or has left the
    /// state the operation starts from.
    AlreadyInTerminalState,
    /// The record that the operation would create is already there.
    AlreadyExists,
    /// Less was attached to a checkout than the carted courses cost.
    InsufficientPayment,
    /// A quiz submission does not have as many questions as the quiz.
    ArityMismatch,
    /// A record that must exist for the operation is missing from the store.
    IntegrityViolation,
    /// An id counter, an attempt counter or a price sum would leave its integer range.
    CapacityExceeded,
}

} // verus!
