pub mod mint_detail_laws;
pub mod registry;
pub mod registry_laws;
pub mod usdcx_mint_helper;
pub mod usdcx_mint_laws;

use crate::mutator::types::FuzzerType;
use crate::runner::chain::AccountAddress;
use vstd::prelude::*;

verus! {

/// Contract-specific help for functions that random inputs alone never reach. A
/// helper may supply the arguments of the contract's `initialize` function and
/// may turn raw fuzz inputs into well-formed ones.
pub trait AptosHelper {
    /// The serialized arguments of `initialize`, or `None` where the contract
    /// needs no initialization.
    fn initialize_args(&self, admin: &AccountAddress) -> (args: Option<Vec<Vec<u8>>>)
        default_ensures
            args is None,
    {
        None
    }

    /// The inputs to use in place of `inputs`, or `None` to use them as they are.
    fn transform_inputs(&self, inputs: &Vec<FuzzerType>) -> (transformed: Option<Vec<FuzzerType>>)
        default_ensures
            transformed is None,
    {
        None
    }
}

} // verus!
