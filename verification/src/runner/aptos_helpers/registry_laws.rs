//! What holds of the helpers of a configuration.
use crate::external::codec::byte_lists;
use crate::mutator::types::FuzzerValue;
use crate::runner::aptos_helpers::registry::{
    call_lists, function_key, initialize_calls, known_helper, mentions, AssignedHelpersView,
    HelperView,
};
use crate::runner::aptos_helpers::usdcx_mint_helper::{derived_secret, raw_public_key};
use crate::runner::stateless_runner::aptos_runner_utils::{all_convertible, all_short};
use crate::runner::table::StringTable;
use vstd::prelude::*;

verus! {

/// A function is configured by its module's name, two colons, and its own name.
pub proof fn law_key_of_a_function(module: Seq<char>, function: Seq<char>)
    ensures
        function_key(module, function).len() == module.len() + 2 + function.len(),
        function_key(module, function).take(module.len() as int) == module,
        function_key(module, function)[module.len() as int] == ':',
        function_key(module, function)[module.len() + 1int] == ':',
        function_key(module, function).skip(module.len() + 2int) == function,
{
    reveal_strlit("::");
    assert(function_key(module, function).take(module.len() as int) =~= module);
    assert(function_key(module, function).skip(module.len() + 2int) =~= function);
}

/// The registry knows one name. What it stands for has the key of the seed, the seed
/// itself and the domain zero; only a seed without a key leads to nothing.
pub proof fn law_known_names(name: Seq<char>, seed: u64)
    ensures
        name != "usdcx_mint_v1"@ ==> known_helper(name, seed) is None,
        name == "usdcx_mint_v1"@ ==> (known_helper(name, seed) is Some <==> derived_secret(
            seed,
        ) is Some),
        known_helper(name, seed) matches Some(HelperView::UsdcxMint(helper)) ==> {
            &&& helper.seed == seed
            &&& derived_secret(seed) == Some(helper.secret)
            &&& helper.public_key == raw_public_key(helper.secret)
            &&& helper.domain == 0
        },
{
}

/// A name is mentioned where some function is configured to use it.
pub proof fn law_mentioned_names(assignments: &StringTable<String>, key: Seq<char>)
    requires
        assignments@.contains_key(key),
    ensures
        mentions(assignments, assignments@[key]@),
{
    assignments.lemma_same_length();
    let i = assignments.names().index_of(key);
    assert(assignments.values()[i]@ == assignments@[key]@);
}

/// A function uses the minting helper exactly where the configuration says so by the
/// helper's name, given that the seed has a key.
pub proof fn law_who_uses_the_helper(
    helpers: AssignedHelpersView,
    assignments: &StringTable<String>,
    seed: u64,
    module: Seq<char>,
    function: Seq<char>,
)
    requires
        helpers.well_formed(),
        helpers.configured(assignments, seed),
    ensures
        ({
            let key = function_key(module, function);
            let used = helpers.helper_for(module, function);
            &&& used is Some <==> {
                &&& assignments@.contains_key(key)
                &&& assignments@[key]@ == "usdcx_mint_v1"@
                &&& derived_secret(seed) is Some
            }
            &&& used matches Some(HelperView::UsdcxMint(helper)) ==> {
                &&& helper.seed == seed
                &&& derived_secret(seed) == Some(helper.secret)
                &&& helper.public_key == raw_public_key(helper.secret)
                &&& helper.domain == 0
            }
        }),
{
    let key = function_key(module, function);
    if assignments@.contains_key(key) {
        let name = assignments@[key]@;
        law_mentioned_names(assignments, key);
        assert(helpers.assignments[key] == name);
        assert(helpers.names.contains(name) <==> known_helper(name, seed) is Some);
        if helpers.names.contains(name) {
            let i = helpers.names.index_of(name);
            assert(helpers.names[i] == name);
        }
    }
}

/// Inputs are changed by the helper of their function and by nothing else. What a
/// helper makes of its own is accepted whatever the inputs are.
pub proof fn law_helpers_change_inputs(
    helpers: AssignedHelpersView,
    module: Seq<char>,
    function: Seq<char>,
    inputs: Seq<FuzzerValue>,
)
    ensures
        helpers.helper_for(module, function) is None ==> {
            &&& helpers.adjusted(module, function, inputs) == inputs
            &&& helpers.accepts(module, function, inputs) <==> all_convertible(inputs) && all_short(
                inputs,
            )
        },
        helpers.helper_for(module, function) matches Some(HelperView::UsdcxMint(helper)) ==> {
            &&& helpers.adjusted(module, function, inputs) == helper.mint_inputs(inputs)
            &&& helpers.accepts(module, function, inputs)
        },
{
}

/// Helpers ask for their calls of `initialize` one after the other.
pub proof fn law_initialize_calls_append(
    first: Seq<HelperView>,
    second: Seq<HelperView>,
    admin: Seq<u8>,
)
    ensures
        initialize_calls(first + second, admin) == initialize_calls(first, admin)
            + initialize_calls(second, admin),
    decreases second.len(),
{
    if second.len() == 0 {
        assert(first + second =~= first);
        assert(initialize_calls(first, admin) + initialize_calls(second, admin)
            =~= initialize_calls(first, admin));
    } else {
        law_initialize_calls_append(first, second.drop_last(), admin);
        assert((first + second).drop_last() =~= first + second.drop_last());
        assert((first + second).last() == second.last());
        assert(initialize_calls(first + second, admin) =~= initialize_calls(first, admin)
            + initialize_calls(second, admin));
    }
}

/// The minting helper asks for one call, with its own arguments.
pub proof fn law_initialize_call_of_a_helper(helper: HelperView, admin: Seq<u8>)
    ensures
        helper matches HelperView::UsdcxMint(mint) ==> initialize_calls(seq![helper], admin)
            == seq![mint.initialize_args(admin)],
        initialize_calls(Seq::empty(), admin).len() == 0,
{
    let one = seq![helper];
    assert(one.drop_last() =~= Seq::<HelperView>::empty());
    assert(initialize_calls(Seq::empty(), admin) =~= Seq::<Seq<Seq<u8>>>::empty());
    if let HelperView::UsdcxMint(mint) = helper {
        assert(initialize_calls(one, admin) =~= seq![mint.initialize_args(admin)]);
    }
}

/// Lists of bytes are read item by item.
pub proof fn law_byte_lists_are_read_item_by_item(
    items: Seq<Vec<u8>>,
    calls: Seq<Vec<Vec<u8>>>,
)
    ensures
        byte_lists(items).len() == items.len(),
        forall|i: int| 0 <= i < items.len() ==> #[trigger] byte_lists(items)[i] == items[i]@,
        call_lists(calls).len() == calls.len(),
        forall|i: int|
            0 <= i < calls.len() ==> #[trigger] call_lists(calls)[i] == byte_lists(calls[i]@),
{
}

} // verus!
