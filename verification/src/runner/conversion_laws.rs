//! What single inputs, values and arguments become.
use crate::bytes::{
    be_bytes, be_value, law_orders_mirror_each_other, le_bytes, lemma_be_bytes_len,
    lemma_be_round_trip,
};
use crate::external::codec::MAX_SEQUENCE_LENGTH;
use crate::mutator::types::FuzzerValue;
use crate::runner::aptos_helpers::registry::AssignedHelpersView;
use crate::runner::aptos_helpers::usdcx_mint_helper::byte_items;
use crate::runner::call::are_values_of;
use crate::runner::chain::AccountAddress;
use crate::runner::input_laws::law_one_value_for_each_input;
use crate::runner::move_value::{
    all_encodable, argument_encodings, MoveValueView, TransactionArgumentView,
};
use crate::runner::stateful_runner::aptos_runner::{stateful_argument_of, stateful_arguments_of};
use crate::runner::stateless_runner::aptos_runner_utils::{
    all_convertible, all_short, argument_of, arguments_of, byte_values, convertible, is_short,
    move_value, move_values, reference_count, reference_counts,
};
use vstd::arithmetic::power::pow;
use vstd::prelude::*;

verus! {

/// Numbers and truth values keep their width and their value, vectors and structs
/// their items and fields, and a reference becomes the address at the given position.
pub proof fn law_values_mirror_inputs(
    input: FuzzerValue,
    addresses: Seq<AccountAddress>,
    from: nat,
)
    ensures
        match input {
            FuzzerValue::U8(v) => move_value(input, addresses, from) == MoveValueView::U8(v),
            FuzzerValue::U16(v) => move_value(input, addresses, from) == MoveValueView::U16(v),
            FuzzerValue::U32(v) => move_value(input, addresses, from) == MoveValueView::U32(v),
            FuzzerValue::U64(v) => move_value(input, addresses, from) == MoveValueView::U64(v),
            FuzzerValue::U128(v) => move_value(input, addresses, from) == MoveValueView::U128(v),
            FuzzerValue::Bool(v) => move_value(input, addresses, from) == MoveValueView::Bool(v),
            FuzzerValue::Vector(_, items) => {
                &&& move_value(input, addresses, from) is Vector
                &&& are_in_order(items, addresses, from, move_value(input, addresses, from)->Vector_0)
            },
            FuzzerValue::Struct(fields) => {
                &&& move_value(input, addresses, from) is Struct
                &&& are_in_order(fields, addresses, from, move_value(input, addresses, from)->Struct_0)
            },
            FuzzerValue::Reference(_, _) => move_value(input, addresses, from)
                == MoveValueView::Address(addresses[from as int].bytes@),
            _ => true,
        },
{
    match input {
        FuzzerValue::Vector(_, items) => {
            law_one_value_for_each_input(items, addresses, from);
        },
        FuzzerValue::Struct(fields) => {
            law_one_value_for_each_input(fields, addresses, from);
        },
        _ => {},
    }
}

/// `values` are the Move values of `inputs`, one for each, in order.
pub open spec fn are_in_order(
    inputs: Seq<FuzzerValue>,
    addresses: Seq<AccountAddress>,
    from: nat,
    values: Seq<MoveValueView>,
) -> bool {
    &&& values.len() == inputs.len()
    &&& forall|i: int|
        0 <= i < inputs.len() ==> #[trigger] values[i] == move_value(
            inputs[i],
            addresses,
            from + reference_counts(inputs.take(i)),
        )
}

/// References are counted once each, wherever they stand.
pub proof fn law_references_are_counted(first: Seq<FuzzerValue>, second: Seq<FuzzerValue>)
    ensures
        reference_counts(first + second) == reference_counts(first) + reference_counts(second),
    decreases second.len(),
{
    if second.len() == 0 {
        assert(first + second =~= first);
    } else {
        law_references_are_counted(first, second.drop_last());
        assert((first + second).drop_last() =~= first + second.drop_last());
    }
}

/// A reference counts as one, whatever it refers to; a vector or a struct counts as
/// much as what it holds; anything else does not count.
pub proof fn law_what_counts_as_a_reference(input: FuzzerValue)
    ensures
        input is Reference ==> reference_count(input) == 1,
        input matches FuzzerValue::Vector(_, items) ==> reference_count(input) == reference_counts(
            items,
        ),
        input matches FuzzerValue::Struct(fields) ==> reference_count(input) == reference_counts(
            fields,
        ),
        !(input is Reference || input is Vector || input is Struct) ==> reference_count(input) == 0,
        reference_counts(seq![input]) == reference_count(input),
{
    assert(seq![input].drop_last() =~= Seq::empty());
    assert(reference_counts(Seq::empty()) == 0);
}

/// A list of inputs has Move values exactly where each of them has one.
pub proof fn law_convertible_item_by_item(inputs: Seq<FuzzerValue>)
    ensures
        all_convertible(inputs) <==> forall|i: int|
            0 <= i < inputs.len() ==> convertible(#[trigger] inputs[i]),
    decreases inputs.len(),
{
    if inputs.len() > 0 {
        let shorter = inputs.drop_last();
        law_convertible_item_by_item(shorter);
        if all_convertible(inputs) {
            assert forall|i: int| 0 <= i < inputs.len() implies convertible(
                #[trigger] inputs[i],
            ) by {
                if i < shorter.len() {
                    assert(convertible(shorter[i]));
                }
            }
        } else if convertible(inputs.last()) {
            let i = choose|i: int| 0 <= i < shorter.len() && !convertible(#[trigger] shorter[i]);
            assert(!convertible(inputs[i]));
        } else {
            assert(!convertible(inputs[inputs.len() - 1]));
        }
    }
}

/// Every number, truth value and reference has a Move value; a vector or a struct has
/// one where all that it holds has; addresses and functions have none.
pub proof fn law_what_is_convertible(input: FuzzerValue)
    ensures
        match input {
            FuzzerValue::Address(_) => !convertible(input),
            FuzzerValue::Function(_, _, _) => !convertible(input),
            FuzzerValue::Vector(_, items) => convertible(input) == all_convertible(items),
            FuzzerValue::Struct(fields) => convertible(input) == all_convertible(fields),
            _ => convertible(input),
        },
{
}

/// A function without a helper can be called with any inputs that have Move values,
/// unless one of them holds more bytes than an encoding can have.
pub proof fn law_ordinary_inputs_are_accepted(
    helpers: AssignedHelpersView,
    module: Seq<char>,
    function: Seq<char>,
    inputs: Seq<FuzzerValue>,
)
    requires
        forall|i: int| 0 <= i < inputs.len() ==> convertible(#[trigger] inputs[i]),
        forall|i: int|
            0 <= i < inputs.len() ==> ((#[trigger] inputs[i]) matches FuzzerValue::Vector(_, items)
                ==> items.len() <= MAX_SEQUENCE_LENGTH),
    ensures
        helpers.accepts(module, function, inputs),
{
    law_convertible_item_by_item(inputs);
    assert forall|i: int| 0 <= i < inputs.len() implies is_short(#[trigger] inputs[i]) by {
        if let FuzzerValue::Vector(_, items) = inputs[i] {
            lemma_no_more_bytes_than_items(items);
        }
    }
    assert(all_short(inputs));
}

proof fn lemma_no_more_bytes_than_items(items: Seq<FuzzerValue>)
    ensures
        byte_items(items).len() <= items.len(),
    decreases items.len(),
{
    if items.len() > 0 {
        lemma_no_more_bytes_than_items(items.drop_last());
    }
}

/// The values that a list of inputs is passed on as: one for each input, in order;
/// numbers and truth values unchanged, and an address of 32 bytes for each reference.
pub proof fn law_inputs_are_passed_on(
    inputs: Seq<FuzzerValue>,
    values: Seq<MoveValueView>,
    i: int,
)
    requires
        are_values_of(values, inputs),
        0 <= i < inputs.len(),
    ensures
        values.len() == inputs.len(),
        inputs[i] matches FuzzerValue::U8(v) ==> values[i] == MoveValueView::U8(v),
        inputs[i] matches FuzzerValue::U16(v) ==> values[i] == MoveValueView::U16(v),
        inputs[i] matches FuzzerValue::U32(v) ==> values[i] == MoveValueView::U32(v),
        inputs[i] matches FuzzerValue::U64(v) ==> values[i] == MoveValueView::U64(v),
        inputs[i] matches FuzzerValue::U128(v) ==> values[i] == MoveValueView::U128(v),
        inputs[i] matches FuzzerValue::Bool(v) ==> values[i] == MoveValueView::Bool(v),
        inputs[i] matches FuzzerValue::Vector(_, items) ==> values[i] is Vector
            && values[i]->Vector_0.len() == items.len(),
        inputs[i] matches FuzzerValue::Struct(fields) ==> values[i] is Struct
            && values[i]->Struct_0.len() == fields.len(),
        inputs[i] is Reference ==> values[i] is Address && values[i]->Address_0.len() == 32,
{
    let addresses = choose|addresses: Seq<AccountAddress>|
        addresses.len() == reference_counts(inputs) && values == #[trigger] move_values(
            inputs,
            addresses,
            0,
        );
    law_one_value_for_each_input(inputs, addresses, 0);
    law_values_mirror_inputs(inputs[i], addresses, 0 + reference_counts(inputs.take(i)));
}

/// The bytes of two runs of values, one after the other, are the bytes of the one and
/// then those of the other.
pub proof fn law_bytes_among_values_append(first: Seq<MoveValueView>, second: Seq<MoveValueView>)
    ensures
        byte_values(first + second) == byte_values(first) + byte_values(second),
    decreases second.len(),
{
    if second.len() == 0 {
        assert(first + second =~= first);
        assert(byte_values(first) + byte_values(second) =~= byte_values(first));
    } else {
        law_bytes_among_values_append(first, second.drop_last());
        assert((first + second).drop_last() =~= first + second.drop_last());
        assert(byte_values(first + second) =~= byte_values(first) + byte_values(second));
    }
}

/// A byte gives itself, and any other value no byte.
pub proof fn law_bytes_of_one_value(value: MoveValueView)
    ensures
        value matches MoveValueView::U8(byte) ==> byte_values(seq![value]) == seq![byte],
        !(value is U8) ==> byte_values(seq![value]).len() == 0,
{
    assert(seq![value].drop_last() =~= Seq::empty());
    assert(byte_values(Seq::empty()) =~= Seq::empty());
    if let MoveValueView::U8(byte) = value {
        assert(byte_values(seq![value]) =~= seq![byte]);
    }
}

/// What calls without state take: truth values, numbers of 8, 64 and 128 bits and
/// addresses as they are, and vectors that start with a byte as their bytes.
pub proof fn law_what_becomes_an_argument(value: MoveValueView)
    ensures
        match value {
            MoveValueView::Bool(v) => argument_of(value) == Some(TransactionArgumentView::Bool(v)),
            MoveValueView::U8(v) => argument_of(value) == Some(TransactionArgumentView::U8(v)),
            MoveValueView::U64(v) => argument_of(value) == Some(TransactionArgumentView::U64(v)),
            MoveValueView::U128(v) => argument_of(value) == Some(TransactionArgumentView::U128(v)),
            MoveValueView::Address(address) => argument_of(value) == Some(
                TransactionArgumentView::Address(address),
            ),
            MoveValueView::Vector(items) => {
                if items.len() > 0 && items[0] is U8 {
                    &&& argument_of(value) is Some
                    &&& argument_of(value)->0 == TransactionArgumentView::U8Vector(
                        byte_values(items),
                    )
                } else {
                    argument_of(value) is None
                }
            },
            _ => argument_of(value) is None,
        },
{
}

/// What calls with state take: the same, and numbers of 16 and 32 bits besides.
pub proof fn law_what_becomes_a_stateful_argument(value: MoveValueView)
    ensures
        value matches MoveValueView::U16(v) ==> stateful_argument_of(value) == Some(
            TransactionArgumentView::U16(v),
        ),
        value matches MoveValueView::U32(v) ==> stateful_argument_of(value) == Some(
            TransactionArgumentView::U32(v),
        ),
        value matches MoveValueView::U8(v) ==> stateful_argument_of(value) == Some(
            TransactionArgumentView::U8(v),
        ),
        value matches MoveValueView::U64(v) ==> stateful_argument_of(value) == Some(
            TransactionArgumentView::U64(v),
        ),
        value matches MoveValueView::U128(v) ==> stateful_argument_of(value) == Some(
            TransactionArgumentView::U128(v),
        ),
        value matches MoveValueView::Bool(v) ==> stateful_argument_of(value) == Some(
            TransactionArgumentView::Bool(v),
        ),
        value matches MoveValueView::Address(a) ==> stateful_argument_of(value) == Some(
            TransactionArgumentView::Address(a),
        ),
        value is Vector || value is Struct || value is Signer || value is U256
            ==> stateful_argument_of(value) == argument_of(value),
{
}

/// Two runs of values, one after the other, have the arguments of the one and then
/// those of the other, whichever runner calls.
pub proof fn law_arguments_append(first: Seq<MoveValueView>, second: Seq<MoveValueView>)
    ensures
        arguments_of(first + second) == arguments_of(first) + arguments_of(second),
        stateful_arguments_of(first + second) == stateful_arguments_of(first)
            + stateful_arguments_of(second),
    decreases second.len(),
{
    if second.len() == 0 {
        assert(first + second =~= first);
        assert(arguments_of(first) + arguments_of(second) =~= arguments_of(first));
        assert(stateful_arguments_of(first) + stateful_arguments_of(second)
            =~= stateful_arguments_of(first));
    } else {
        law_arguments_append(first, second.drop_last());
        assert((first + second).drop_last() =~= first + second.drop_last());
        assert(arguments_of(first + second) =~= arguments_of(first) + arguments_of(second));
        assert(stateful_arguments_of(first + second) =~= stateful_arguments_of(first)
            + stateful_arguments_of(second));
    }
}

/// One value has its argument, or none.
pub proof fn law_argument_of_one_value(value: MoveValueView)
    ensures
        argument_of(value) matches Some(arg) ==> arguments_of(seq![value]) == seq![arg],
        argument_of(value) is None ==> arguments_of(seq![value]).len() == 0,
        stateful_argument_of(value) matches Some(arg) ==> stateful_arguments_of(seq![value])
            == seq![arg],
        stateful_argument_of(value) is None ==> stateful_arguments_of(seq![value]).len() == 0,
{
    assert(seq![value].drop_last() =~= Seq::empty());
    assert(arguments_of(Seq::empty()) =~= Seq::empty());
    assert(stateful_arguments_of(Seq::empty()) =~= Seq::empty());
    if let Some(arg) = argument_of(value) {
        assert(arguments_of(seq![value]) =~= seq![arg]);
    }
    if let Some(arg) = stateful_argument_of(value) {
        assert(stateful_arguments_of(seq![value]) =~= seq![arg]);
    }
}

/// The number that `bytes` spell out, least significant byte first.
pub open spec fn le_value(bytes: Seq<u8>) -> nat {
    be_value(bytes.reverse())
}

proof fn lemma_le_round_trip(value: nat, width: nat)
    requires
        value < pow(256, width),
    ensures
        le_bytes(value, width).len() == width,
        le_value(le_bytes(value, width)) == value,
{
    law_orders_mirror_each_other(value, width);
    lemma_be_bytes_len(value, width);
    assert(le_bytes(value, width).reverse() =~= be_bytes(value, width));
    lemma_be_round_trip(value, width);
}

proof fn lemma_widths()
    ensures
        pow(256, 1) == 0x100,
        pow(256, 2) == 0x1_0000,
        pow(256, 4) == 0x1_0000_0000,
        pow(256, 8) == 0x1_0000_0000_0000_0000,
        pow(256, 16) == 0x1_0000_0000_0000_0000_0000_0000_0000_0000int,
{
    reveal_with_fuel(pow, 9);
    assert(pow(256, 8) == 0x1_0000_0000_0000_0000);
    vstd::arithmetic::power::lemma_pow_adds(256, 8, 8);
}

/// The chain can read every argument back from its encoding: numbers take the bytes of
/// their width, least significant first; a truth value is one byte; addresses and what
/// is encoded already stand as they are; and bytes stand at the end, after their
/// number.
pub proof fn law_arguments_can_be_read_back(arg: TransactionArgumentView)
    ensures
        match arg {
            TransactionArgumentView::U8(v) => arg.encoding().len() == 1 && le_value(arg.encoding())
                == v,
            TransactionArgumentView::U16(v) => arg.encoding().len() == 2 && le_value(arg.encoding())
                == v,
            TransactionArgumentView::U32(v) => arg.encoding().len() == 4 && le_value(arg.encoding())
                == v,
            TransactionArgumentView::U64(v) => arg.encoding().len() == 8 && le_value(arg.encoding())
                == v,
            TransactionArgumentView::U128(v) => arg.encoding().len() == 16 && le_value(
                arg.encoding(),
            ) == v,
            TransactionArgumentView::U256(bytes) => arg.encoding() == bytes,
            TransactionArgumentView::Bool(v) => arg.encoding().len() == 1 && arg.encoding()[0]
                == if v {
                1u8
            } else {
                0u8
            },
            TransactionArgumentView::Address(bytes) => arg.encoding() == bytes,
            TransactionArgumentView::U8Vector(bytes) => {
                let prefix = arg.encoding().len() - bytes.len();
                &&& prefix > 0
                &&& arg.encoding().skip(prefix) == bytes
                &&& bytes.len() < 128 ==> prefix == 1 && arg.encoding()[0] == bytes.len()
            },
            TransactionArgumentView::Serialized(bytes) => arg.encoding() == bytes,
        },
{
    lemma_widths();
    match arg {
        TransactionArgumentView::U8(v) => lemma_le_round_trip(v as nat, 1),
        TransactionArgumentView::U16(v) => lemma_le_round_trip(v as nat, 2),
        TransactionArgumentView::U32(v) => lemma_le_round_trip(v as nat, 4),
        TransactionArgumentView::U64(v) => lemma_le_round_trip(v as nat, 8),
        TransactionArgumentView::U128(v) => lemma_le_round_trip(v as nat, 16),
        TransactionArgumentView::U8Vector(bytes) => {
            let prefix = arg.encoding().len() - bytes.len();
            assert(arg.encoding().skip(prefix) =~= bytes);
        },
        _ => {},
    }
}

/// The arguments of a call are encoded one by one, in order.
pub proof fn law_arguments_are_encoded_in_order(args: Seq<TransactionArgumentView>)
    ensures
        argument_encodings(args).len() == args.len(),
        forall|i: int|
            0 <= i < args.len() ==> #[trigger] argument_encodings(args)[i] == args[i].encoding(),
{
}

/// Only bytes can be too many to encode.
pub proof fn law_what_can_be_encoded(args: Seq<TransactionArgumentView>)
    ensures
        all_encodable(args) <==> forall|i: int|
            0 <= i < args.len() ==> ((#[trigger] args[i]) matches TransactionArgumentView::U8Vector(
                bytes,
            ) ==> bytes.len() <= MAX_SEQUENCE_LENGTH),
{
    if all_encodable(args) {
        assert forall|i: int| 0 <= i < args.len() implies ((#[trigger] args[i])
            matches TransactionArgumentView::U8Vector(bytes) ==> bytes.len()
            <= MAX_SEQUENCE_LENGTH) by {
            assert(args[i].encodable());
        }
    }
}

} // verus!
