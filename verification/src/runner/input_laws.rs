//! What holds of inputs on their way from a function's signature to the chain.
use crate::external::codec::bytes_encoding;
use crate::external::random::seeded_words;
use crate::mutator::types::FuzzerValue;
use crate::runner::aptos_helpers::registry::{
    function_key, known_helper, mentions, AssignedHelpersView, HelperView,
};
use crate::runner::aptos_helpers::usdcx_mint_helper::{
    bytes_value, input_bytes, mint_input_values, mixed_seed, UsdcxMintHelperView,
};
use crate::runner::aptos_helpers::usdcx_mint_laws::{
    law_drawn_intents_are_well_formed, law_payload_length,
};
use crate::runner::call::are_values_of;
use crate::runner::chain::AccountAddress;
use crate::runner::move_model::{MoveType, PrimitiveType};
use crate::runner::move_value::{MoveValueView, TransactionArgumentView};
use crate::runner::stateful_runner::aptos_runner::{stateful_argument_of, stateful_arguments_of};
use crate::runner::stateless_runner::aptos_runner_utils::{
    all_convertible, argument_of, arguments_of, byte_values, call_inputs, convertible,
    initial_value, is_signer, move_value, move_values, reference_count, reference_counts,
};
use crate::runner::table::StringTable;
use vstd::prelude::*;

verus! {

/// The chain supplies signers: a signer among the parameters of a function, at
/// whatever place, changes nothing about its inputs.
pub proof fn law_signers_are_no_inputs(before: Seq<MoveType>, signer: MoveType, after: Seq<MoveType>)
    requires
        is_signer(signer),
    ensures
        call_inputs(before + seq![signer] + after) == call_inputs(before + after),
{
    let keep = |parameter: MoveType| !is_signer(parameter);
    Seq::filter_distributes_over_add(before + seq![signer], after, keep);
    Seq::filter_distributes_over_add(before, seq![signer], keep);
    Seq::filter_distributes_over_add(before, after, keep);
    assert(seq![signer].filter(keep) =~= Seq::empty()) by {
        reveal(Seq::filter);
        assert(seq![signer].drop_last() =~= Seq::empty());
        assert(Seq::<MoveType>::empty().filter(keep) =~= Seq::empty());
    }
    assert((before + seq![signer] + after).filter(keep) =~= (before + after).filter(keep));
}

/// A function without signers has one input for each parameter, in order.
pub proof fn law_other_parameters_are_inputs(parameters: Seq<MoveType>)
    requires
        forall|i: int| 0 <= i < parameters.len() ==> !is_signer(#[trigger] parameters[i]),
    ensures
        call_inputs(parameters).len() == parameters.len(),
        forall|i: int|
            0 <= i < parameters.len() ==> #[trigger] call_inputs(parameters)[i] == initial_value(
                parameters[i],
            ),
{
    let keep = |parameter: MoveType| !is_signer(parameter);
    lemma_filter_keeps_all(parameters, keep);
}

proof fn lemma_filter_keeps_all(parameters: Seq<MoveType>, keep: spec_fn(MoveType) -> bool)
    requires
        forall|i: int| 0 <= i < parameters.len() ==> keep(#[trigger] parameters[i]),
    ensures
        parameters.filter(keep) == parameters,
    decreases parameters.len(),
{
    reveal(Seq::filter);
    if parameters.len() > 0 {
        let shorter = parameters.drop_last();
        assert forall|i: int| 0 <= i < shorter.len() implies keep(#[trigger] shorter[i]) by {
            assert(keep(parameters[i]));
        }
        lemma_filter_keeps_all(shorter, keep);
        assert(shorter.push(parameters.last()) =~= parameters);
    }
}

/// A type that is or holds, outside references, an address or a signer.
pub open spec fn holds_address(move_type: MoveType) -> bool
    decreases move_type,
{
    match move_type {
        MoveType::Primitive(PrimitiveType::Address) => true,
        MoveType::Primitive(PrimitiveType::Signer) => true,
        MoveType::Vector(inner) => holds_address(*inner),
        _ => false,
    }
}

/// The input that a type starts from has a Move value exactly where the type holds
/// no address.
pub proof fn law_initial_inputs_are_convertible(move_type: MoveType)
    ensures
        convertible(initial_value(move_type)) == !holds_address(move_type),
    decreases move_type,
{
    match move_type {
        MoveType::Vector(inner) => {
            law_initial_inputs_are_convertible(*inner);
            let item = initial_value(*inner);
            assert(seq![item].drop_last() =~= Seq::empty());
            assert(all_convertible(seq![item]) == (all_convertible(Seq::empty()) && convertible(
                item,
            )));
        },
        MoveType::Struct => {
            let field = FuzzerValue::U64(0);
            assert(seq![field].drop_last() =~= Seq::empty());
            assert(all_convertible(seq![field]) == (all_convertible(Seq::empty()) && convertible(
                field,
            )));
            assert(convertible(field));
        },
        _ => {},
    }
}

/// Every input has its Move value, in order.
pub proof fn law_one_value_for_each_input(
    inputs: Seq<FuzzerValue>,
    addresses: Seq<AccountAddress>,
    from: nat,
)
    ensures
        move_values(inputs, addresses, from).len() == inputs.len(),
        forall|i: int|
            0 <= i < inputs.len() ==> #[trigger] move_values(inputs, addresses, from)[i]
                == move_value(inputs[i], addresses, from + reference_counts(inputs.take(i))),
    decreases inputs.len(),
{
    if inputs.len() > 0 {
        let shorter = inputs.drop_last();
        law_one_value_for_each_input(shorter, addresses, from);
        assert forall|i: int| 0 <= i < inputs.len() implies #[trigger] move_values(
            inputs,
            addresses,
            from,
        )[i] == move_value(inputs[i], addresses, from + reference_counts(inputs.take(i))) by {
            if i < shorter.len() {
                assert(shorter.take(i) =~= inputs.take(i));
                assert(move_values(shorter, addresses, from)[i] == move_values(
                    inputs,
                    addresses,
                    from,
                )[i]);
            } else {
                assert(inputs.take(i) =~= shorter);
            }
        }
    }
}

/// Inputs without references leave nothing to chance: their Move values do not
/// depend on the addresses that are drawn.
pub proof fn law_chance_enters_through_references(
    inputs: Seq<FuzzerValue>,
    one: Seq<AccountAddress>,
    other: Seq<AccountAddress>,
    from: nat,
    other_from: nat,
)
    requires
        reference_counts(inputs) == 0,
    ensures
        move_values(inputs, one, from) == move_values(inputs, other, other_from),
    decreases inputs, 0nat,
{
    if inputs.len() > 0 {
        law_chance_enters_through_references(inputs.drop_last(), one, other, from, other_from);
        lemma_value_without_references(
            inputs.last(),
            one,
            other,
            from + reference_counts(inputs.drop_last()),
            other_from + reference_counts(inputs.drop_last()),
        );
    }
}

proof fn lemma_value_without_references(
    input: FuzzerValue,
    one: Seq<AccountAddress>,
    other: Seq<AccountAddress>,
    from: nat,
    other_from: nat,
)
    requires
        reference_count(input) == 0,
    ensures
        move_value(input, one, from) == move_value(input, other, other_from),
    decreases input, 1nat,
{
    match input {
        FuzzerValue::Vector(_, items) => {
            law_chance_enters_through_references(items, one, other, from, other_from);
        },
        FuzzerValue::Struct(fields) => {
            law_chance_enters_through_references(fields, one, other, from, other_from);
        },
        _ => {},
    }
}

/// Calls with state take numbers of 16 and 32 bits that calls without state leave
/// out; otherwise the two agree.
pub proof fn law_runners_agree_on_values(value: MoveValueView)
    ensures
        !(value is U16 || value is U32) ==> stateful_argument_of(value) == argument_of(value),
        value is U16 || value is U32 ==> argument_of(value) is None && stateful_argument_of(
            value,
        ) is Some,
{
}

/// Where there are no such numbers, both runners call with the same arguments.
pub proof fn law_runners_agree(values: Seq<MoveValueView>)
    requires
        forall|i: int|
            0 <= i < values.len() ==> !(#[trigger] values[i] is U16) && !(values[i] is U32),
    ensures
        stateful_arguments_of(values) == arguments_of(values),
    decreases values.len(),
{
    if values.len() > 0 {
        let shorter = values.drop_last();
        assert forall|i: int| 0 <= i < shorter.len() implies !(#[trigger] shorter[i] is U16) && !(
        shorter[i] is U32) by {
            assert(shorter[i] == values[i]);
        }
        law_runners_agree(shorter);
    }
}

/// No argument is made up: there are at most as many as there are values.
pub proof fn law_no_argument_without_value(values: Seq<MoveValueView>)
    ensures
        arguments_of(values).len() <= stateful_arguments_of(values).len() <= values.len(),
    decreases values.len(),
{
    if values.len() > 0 {
        law_no_argument_without_value(values.drop_last());
    }
}

/// The Move values of bytes.
proof fn lemma_byte_values(bytes: Seq<u8>, addresses: Seq<AccountAddress>, from: nat)
    ensures
        move_values(bytes.map_values(|byte: u8| FuzzerValue::U8(byte)), addresses, from)
            == bytes.map_values(|byte: u8| MoveValueView::U8(byte)),
        byte_values(bytes.map_values(|byte: u8| MoveValueView::U8(byte))) == bytes,
    decreases bytes.len(),
{
    let inputs = bytes.map_values(|byte: u8| FuzzerValue::U8(byte));
    let values = bytes.map_values(|byte: u8| MoveValueView::U8(byte));
    if bytes.len() > 0 {
        let shorter = bytes.drop_last();
        lemma_byte_values(shorter, addresses, from);
        assert(inputs.drop_last() =~= shorter.map_values(|byte: u8| FuzzerValue::U8(byte)));
        assert(values.drop_last() =~= shorter.map_values(|byte: u8| MoveValueView::U8(byte)));
        assert(move_value(
            inputs.last(),
            addresses,
            from + reference_counts(inputs.drop_last()),
        ) == MoveValueView::U8(bytes.last()));
        assert(values =~= values.drop_last().push(MoveValueView::U8(bytes.last())));
        assert(bytes =~= shorter.push(bytes.last()));
    } else {
        assert(move_values(inputs, addresses, from) =~= values);
        assert(byte_values(values) =~= bytes);
    }
}

/// Bytes reach the chain unchanged: a vector input that holds bytes becomes an
/// argument of these bytes, encoded with their number in front. Only an empty
/// vector is lost.
pub proof fn law_bytes_reach_the_chain(bytes: Seq<u8>, addresses: Seq<AccountAddress>, from: nat)
    ensures
        ({
            let value = move_value(bytes_value(bytes), addresses, from);
            let arg = TransactionArgumentView::U8Vector(bytes);
            &&& bytes.len() > 0 ==> argument_of(value) == Some(arg)
            &&& bytes.len() > 0 ==> stateful_argument_of(value) == Some(arg)
            &&& bytes.len() == 0 ==> argument_of(value) is None && stateful_argument_of(
                value,
            ) is None
            &&& arg.encoding() == bytes_encoding(bytes)
        }),
{
    lemma_byte_values(bytes, addresses, from);
    let value = move_value(bytes_value(bytes), addresses, from);
    assert(value == MoveValueView::Vector(
        move_values(bytes.map_values(|byte: u8| FuzzerValue::U8(byte)), addresses, from),
    ));
}

/// A minted call has exactly three arguments, whichever runner makes it: the
/// payload, the signature with its recovery id, and the fee.
pub proof fn law_minted_arguments(
    payload: Seq<u8>,
    signature: Seq<u8>,
    recovery_id: u8,
    fee_amount: u64,
    values: Seq<MoveValueView>,
)
    requires
        payload.len() > 0,
        are_values_of(values, mint_input_values(payload, signature, recovery_id, fee_amount)),
    ensures
        arguments_of(values) == seq![
            TransactionArgumentView::U8Vector(payload),
            TransactionArgumentView::U8Vector(signature.push(recovery_id)),
            TransactionArgumentView::U64(fee_amount),
        ],
        stateful_arguments_of(values) == arguments_of(values),
{
    let inputs = mint_input_values(payload, signature, recovery_id, fee_amount);
    let addresses = choose|addresses: Seq<AccountAddress>|
        addresses.len() == reference_counts(inputs) && values == #[trigger] move_values(
            inputs,
            addresses,
            0,
        );
    law_one_value_for_each_input(inputs, addresses, 0);
    let at_one = reference_counts(inputs.take(1));
    let at_two = reference_counts(inputs.take(2));
    law_bytes_reach_the_chain(payload, addresses, reference_counts(inputs.take(0)));
    law_bytes_reach_the_chain(signature.push(recovery_id), addresses, at_one);
    let first = move_value(inputs[0], addresses, reference_counts(inputs.take(0)));
    let second = move_value(inputs[1], addresses, at_one);
    let third = move_value(inputs[2], addresses, at_two);
    assert(third == MoveValueView::U64(fee_amount));
    assert(values[0] == first && values[1] == second && values[2] == third);
    let none = Seq::<MoveValueView>::empty();
    let one = none.push(first);
    let two = one.push(second);
    let three = two.push(third);
    assert(values =~= three);
    assert(one.drop_last() =~= none);
    assert(two.drop_last() =~= one);
    assert(three.drop_last() =~= two);
    assert(arguments_of(none) =~= Seq::empty());
    assert(arguments_of(one) =~= seq![argument_of(first)->0]);
    assert(arguments_of(two) =~= seq![argument_of(first)->0, argument_of(second)->0]);
    assert(arguments_of(three) =~= seq![
        argument_of(first)->0,
        argument_of(second)->0,
        argument_of(third)->0,
    ]);
    law_runners_agree(values);
}

/// Whatever the raw inputs are, a function that uses the minting helper is called
/// with a payload, its signature and a fee.
pub proof fn law_minting_helper_applies(
    helpers: AssignedHelpersView,
    module: Seq<char>,
    function: Seq<char>,
    helper: UsdcxMintHelperView,
    inputs: Seq<FuzzerValue>,
    values: Seq<MoveValueView>,
)
    requires
        helpers.helper_for(module, function) == Some(HelperView::UsdcxMint(helper)),
        are_values_of(values, helpers.adjusted(module, function, inputs)),
    ensures
        ({
            let payload = helper.payload(inputs);
            let signed = helper.signature(inputs);
            &&& arguments_of(values) == seq![
                TransactionArgumentView::U8Vector(payload),
                TransactionArgumentView::U8Vector(signed.0.push(signed.1)),
                TransactionArgumentView::U64(helper.fee_amount(inputs)),
            ]
            &&& stateful_arguments_of(values) == arguments_of(values)
        }),
{
    let payload = helper.payload(inputs);
    let signed = helper.signature(inputs);
    let words = seeded_words(mixed_seed(helper.seed, input_bytes(inputs, 0)));
    law_drawn_intents_are_well_formed(words, helper.domain);
    law_payload_length(helper.intent(inputs), input_bytes(inputs, 1));
    law_minted_arguments(payload, signed.0, signed.1, helper.fee_amount(inputs), values);
}

/// A function that no helper is attached to is called with its raw inputs.
pub proof fn law_other_functions_keep_their_inputs(
    helpers: AssignedHelpersView,
    module: Seq<char>,
    function: Seq<char>,
    inputs: Seq<FuzzerValue>,
)
    requires
        !helpers.assignments.contains_key(function_key(module, function)),
    ensures
        helpers.adjusted(module, function, inputs) == inputs,
{
}

/// Attaching the minting helper to a function in the configuration makes the
/// function use it.
pub proof fn law_configured_helper_is_used(
    helpers: AssignedHelpersView,
    assignments: &StringTable<String>,
    seed: u64,
    module: Seq<char>,
    function: Seq<char>,
)
    requires
        helpers.well_formed(),
        helpers.configured(assignments, seed),
        assignments@.contains_key(function_key(module, function)),
        known_helper(assignments@[function_key(module, function)]@, seed) is Some,
    ensures
        helpers.helper_for(module, function) == known_helper(
            assignments@[function_key(module, function)]@,
            seed,
        ),
{
    let key = function_key(module, function);
    let name = assignments@[key]@;
    assignments.lemma_same_length();
    assert(assignments.values()[assignments.names().index_of(key)]@ == name);
    assert(mentions(assignments, name));
    assert(helpers.names.contains(name));
    let i = helpers.names.index_of(name);
    assert(helpers.names[i] == name);
    assert(helpers.assignments[function_key(module, function)] == name);
}

} // verus!
