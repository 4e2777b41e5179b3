//! Calls of the function under test: what both runners have in common.
use crate::fuzzer::error::Error;
use crate::runner::move_value::TransactionArgument;
use vstd::prelude::*;

verus! {

use crate::mutator::types::FuzzerValue;
use crate::runner::chain::AccountAddress;
use crate::runner::move_value::MoveValueView;
use crate::runner::stateless_runner::aptos_runner_utils::{move_values, reference_counts};

/// What a call is made with.
pub struct PreparedCall {
    pub function: String,
    pub args: Vec<TransactionArgument>,
}

/// How a call ends.
pub struct CallOutcome {
    /// The changes made by the call are committed.
    pub apply_write_set: bool,
    /// The gas used, or what went wrong.
    pub result: Result<u64, Error>,
}

/// The result of a call in mathematical terms.
pub open spec fn result_view(result: Result<u64, Error>) -> Result<u64, Seq<char>> {
    match result {
        Ok(gas_used) => Ok(gas_used),
        Err(error) => Err(error@),
    }
}

/// `values` are the Move values of `inputs`, with some address for each reference.
pub open spec fn are_values_of(values: Seq<MoveValueView>, inputs: Seq<FuzzerValue>) -> bool {
    exists|addresses: Seq<AccountAddress>|
        addresses.len() == reference_counts(inputs) && values == #[trigger] move_values(
            inputs,
            addresses,
            0,
        )
}

} // verus!
