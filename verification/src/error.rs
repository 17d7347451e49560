//! Errors a fuzz test reports.
use vstd::prelude::*;

verus! {

#[verifier::external_type_specification]
#[verifier::external_body]
pub struct ExTransactionError(solana_sdk::transaction::TransactionError);

/// Why a fuzzing iteration stopped.
#[derive(Debug)]
pub enum FuzzingError {
    /// A custom error code.
    Custom(u32),
    /// A custom message.
    CustomMessage(String),
    /// The runtime did not execute a transaction.
    TransactionFailed(solana_sdk::transaction::TransactionError),
}

impl FuzzingError {
    /// An error carrying a message.
    pub fn with_message(message: &str) -> (r: Self)
        ensures
            r matches FuzzingError::CustomMessage(m) && m@ == message@,
    {
        FuzzingError::CustomMessage(message.to_string())
    }
}

/// Raised when an invariant a fuzz test states does not hold; tells such
/// failures apart from unexpected panics.
#[derive(Debug)]
pub struct InvariantViolation(pub String);

} // verus!
