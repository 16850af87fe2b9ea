//! Transfers that carry a sanitised description.

use vstd::prelude::*;

use crate::sanitizer::{description_verdict, sanitize_description, SharedError};

verus! {

/// The record of an executed transfer, published once it is accepted.
#[derive(Debug)]
pub struct TransferExecuted {
    pub from: String,
    pub to: String,
    pub amount: i128,
    pub description: Vec<u8>,
}

/// Transfers with a description.
pub struct TransferContract;

impl TransferContract {
    /// Executes a transfer of `amount` from `from` to `to` and records its
    /// description, after checking the description: a description that is
    /// too long or holds a character that is not allowed is refused.
    pub fn execute_transfer(from: String, to: String, amount: i128, description: Vec<u8>) -> (r: Result<TransferExecuted, SharedError>)
        ensures
            match description_verdict(description@) {
                Err(e) => r == Err::<TransferExecuted, SharedError>(e),
                Ok(_) => r matches Ok(t) && t.from == from && t.to == to && t.amount == amount
                    && t.description@ == description@,
            },
    {
        match sanitize_description(description.as_slice()) {
            Err(e) => Err(e),
            Ok(()) => Ok(TransferExecuted { from, to, amount, description }),
        }
    }
}

} // verus!
