use crate::external::codec::MAX_SEQUENCE_LENGTH;
use crate::mutator::types::{values_of, FuzzerType, FuzzerValue};
use crate::runner::aptos_helpers::usdcx_mint_helper::u8_vec_from_fuzzer;
use crate::runner::chain::AccountAddress;
use crate::runner::move_model::{
    find_function, find_target_module, function_named, target_functions, AbiError, ModuleModel,
    MoveType, PrimitiveType,
};
use crate::runner::move_value::{MoveValue, TransactionArgument};
use vstd::prelude::*;

verus! {

use crate::runner::aptos_helpers::usdcx_mint_helper::byte_items;
use crate::runner::call::are_values_of;
use crate::runner::move_value::{
    all_encodable, argument_views, contents_of, MoveValueView, TransactionArgumentView,
};

/// The zero address.
pub open spec fn zero_address() -> Seq<u8> {
    Seq::new(32, |i: int| 0u8)
}

/// The input that a Move type starts from. Signers are addresses, structs have
/// one `u64` field, and types without a counterpart are `u64`.
pub open spec fn initial_value(move_type: MoveType) -> FuzzerValue
    decreases move_type,
{
    match move_type {
        MoveType::Primitive(PrimitiveType::U8) => FuzzerValue::U8(0),
        MoveType::Primitive(PrimitiveType::U16) => FuzzerValue::U16(0),
        MoveType::Primitive(PrimitiveType::U32) => FuzzerValue::U32(0),
        MoveType::Primitive(PrimitiveType::U128) => FuzzerValue::U128(0),
        MoveType::Primitive(PrimitiveType::Bool) => FuzzerValue::Bool(false),
        MoveType::Primitive(PrimitiveType::Address) => FuzzerValue::Address(zero_address()),
        MoveType::Primitive(PrimitiveType::Signer) => FuzzerValue::Address(zero_address()),
        MoveType::Primitive(_) => FuzzerValue::U64(0),
        MoveType::Vector(inner) => FuzzerValue::Vector(
            Box::new(initial_value(*inner)),
            seq![initial_value(*inner)],
        ),
        MoveType::Struct => FuzzerValue::Struct(seq![FuzzerValue::U64(0)]),
        MoveType::Reference(_, inner) => FuzzerValue::Reference(
            false,
            Box::new(initial_value(*inner)),
        ),
        MoveType::Other => FuzzerValue::U64(0),
    }
}

/// Converts a type of the Move model to the input that it starts from.
pub fn convert_move_type_to_fuzzer_type(move_type: &MoveType) -> (converted: FuzzerType)
    ensures
        converted@ == initial_value(*move_type),
    decreases move_type,
{
    match move_type {
        MoveType::Primitive(primitive) => match primitive {
            PrimitiveType::U8 => FuzzerType::U8(0),
            PrimitiveType::U16 => FuzzerType::U16(0),
            PrimitiveType::U32 => FuzzerType::U32(0),
            PrimitiveType::U64 => FuzzerType::U64(0),
            PrimitiveType::U128 => FuzzerType::U128(0),
            PrimitiveType::Bool => FuzzerType::Bool(false),
            PrimitiveType::Address | PrimitiveType::Signer => {
                let zero: [u8; 32] = [0u8; 32];
                assert(zero@ =~= zero_address());
                FuzzerType::Address(zero)
            },
            _ => FuzzerType::U64(0),
        },
        MoveType::Vector(inner) => {
            let inner_type = convert_move_type_to_fuzzer_type(inner);
            let item = inner_type.clone();
            let mut items: Vec<FuzzerType> = Vec::new();
            items.push(item);
            assert(values_of(items@) =~= seq![initial_value(**inner)]);
            FuzzerType::Vector(Box::new(inner_type), items)
        },
        MoveType::Struct => {
            let field = FuzzerType::U64(0);
            assert(field@ == FuzzerValue::U64(0));
            let mut fields: Vec<FuzzerType> = Vec::new();
            fields.push(field);
            assert(values_of(fields@) =~= seq![FuzzerValue::U64(0)]);
            FuzzerType::Struct(fields)
        },
        MoveType::Reference(_, inner) => {
            let inner_type = convert_move_type_to_fuzzer_type(inner);
            FuzzerType::Reference(false, Box::new(inner_type))
        },
        MoveType::Other => FuzzerType::U64(0),
    }
}

/// A signer, or references to one.
pub open spec fn is_signer(move_type: MoveType) -> bool
    decreases move_type,
{
    match move_type {
        MoveType::Primitive(PrimitiveType::Signer) => true,
        MoveType::Reference(_, inner) => is_signer(*inner),
        _ => false,
    }
}

/// Whether the chain supplies a parameter of this type itself.
pub fn is_signer_param(move_type: &MoveType) -> (signer: bool)
    ensures
        signer == is_signer(*move_type),
        *move_type matches MoveType::Primitive(primitive) ==> signer == (primitive is Signer),
        !(*move_type is Primitive || *move_type is Reference) ==> !signer,
    decreases move_type,
{
    match move_type {
        MoveType::Primitive(PrimitiveType::Signer) => true,
        MoveType::Reference(_, inner) => is_signer_param(inner),
        _ => false,
    }
}

/// The inputs that a call starts from: one for each parameter, in order, leaving
/// out signers.
pub open spec fn call_inputs(parameters: Seq<MoveType>) -> Seq<FuzzerValue> {
    parameters.filter(|parameter: MoveType| !is_signer(parameter)).map_values(
        |parameter: MoveType| initial_value(parameter),
    )
}

/// The inputs and the number of instructions of a function of the module under
/// test.
pub open spec fn function_abi(modules: Seq<ModuleModel>, target_function: Seq<char>) -> Result<
    (Seq<FuzzerValue>, nat),
    AbiError,
> {
    match target_functions(modules) {
        None => Err(AbiError::ModuleNotFound),
        Some(functions) => match function_named(functions, target_function) {
            None => Err(AbiError::FunctionNotFound),
            Some(function) => Ok(
                (
                    call_inputs(function.parameters@),
                    match function.bytecode_len {
                        Some(len) => len as nat,
                        None => 0,
                    },
                ),
            ),
        },
    }
}

/// Converts the parameters that are not signers.
fn convert_parameters(parameters: &Vec<MoveType>) -> (converted: Vec<FuzzerType>)
    ensures
        values_of(converted@) == call_inputs(parameters@),
{
    let ghost keep = |parameter: MoveType| !is_signer(parameter);
    let ghost convert = |parameter: MoveType| initial_value(parameter);
    let mut converted: Vec<FuzzerType> = Vec::new();
    let mut i: usize = 0;
    proof {
        reveal(Seq::filter);
        assert(values_of(converted@) =~= parameters@.take(0).filter(keep).map_values(convert));
    }
    while i < parameters.len()
        invariant
            i <= parameters.len(),
            keep == |parameter: MoveType| !is_signer(parameter),
            convert == |parameter: MoveType| initial_value(parameter),
            values_of(converted@) == parameters@.take(i as int).filter(keep).map_values(convert),
        decreases parameters.len() - i,
    {
        let ghost before = converted@;
        proof {
            reveal(Seq::filter);
            assert(parameters@.take(i + 1).drop_last() =~= parameters@.take(i as int));
        }
        if !is_signer_param(&parameters[i]) {
            converted.push(convert_move_type_to_fuzzer_type(&parameters[i]));
            assert(values_of(converted@) =~= values_of(before).push(
                initial_value(parameters@[i as int]),
            ));
        }
        i += 1;
        assert(values_of(converted@) =~= parameters@.take(i as int).filter(keep).map_values(
            convert,
        ));
    }
    assert(parameters@.take(i as int) =~= parameters@);
    converted
}

/// The starting inputs of a function of the module under test, and the number of
/// its instructions as the coverage to reach.
pub fn generate_abi_from_source(modules: &Vec<ModuleModel>, target_function: &str) -> (abi: Result<
    (Vec<FuzzerType>, usize),
    AbiError,
>)
    ensures
        match abi {
            Ok((parameters, max_coverage)) => function_abi(modules@, target_function@) == Ok::<
                (Seq<FuzzerValue>, nat),
                AbiError,
            >((values_of(parameters@), max_coverage as nat)),
            Err(error) => function_abi(modules@, target_function@) == Err::<
                (Seq<FuzzerValue>, nat),
                AbiError,
            >(error),
        },
{
    match find_target_module(modules) {
        None => Err(AbiError::ModuleNotFound),
        Some(module) => match find_function(&module.functions, target_function) {
            None => Err(AbiError::FunctionNotFound),
            Some(function) => {
                let max_coverage: usize = match function.bytecode_len {
                    Some(len) => len,
                    None => 0,
                };
                Ok((convert_parameters(&function.parameters), max_coverage))
            },
        },
    }
}

/// How many addresses a list of inputs is filled up with.
pub open spec fn reference_counts(inputs: Seq<FuzzerValue>) -> nat
    decreases inputs,
{
    if inputs.len() == 0 {
        0
    } else {
        reference_counts(inputs.drop_last()) + reference_count(inputs.last())
    }
}

/// How many addresses an input is filled up with: one for each reference.
pub open spec fn reference_count(input: FuzzerValue) -> nat
    decreases input,
{
    match input {
        FuzzerValue::Vector(_, items) => reference_counts(items),
        FuzzerValue::Struct(fields) => reference_counts(fields),
        FuzzerValue::Reference(_, _) => 1,
        _ => 0,
    }
}

/// Every input of a list has a Move value.
pub open spec fn all_convertible(inputs: Seq<FuzzerValue>) -> bool
    decreases inputs,
{
    if inputs.len() == 0 {
        true
    } else {
        all_convertible(inputs.drop_last()) && convertible(inputs.last())
    }
}

/// An input has a Move value unless it is or holds, outside references, an
/// address or a function.
pub open spec fn convertible(input: FuzzerValue) -> bool
    decreases input,
{
    match input {
        FuzzerValue::Vector(_, items) => all_convertible(items),
        FuzzerValue::Struct(fields) => all_convertible(fields),
        FuzzerValue::Address(_) => false,
        FuzzerValue::Function(_, _, _) => false,
        _ => true,
    }
}

/// The Move values of a list of inputs. References become addresses, taken from
/// `addresses` in order, starting at position `from`.
pub open spec fn move_values(
    inputs: Seq<FuzzerValue>,
    addresses: Seq<AccountAddress>,
    from: nat,
) -> Seq<MoveValueView>
    decreases inputs,
{
    if inputs.len() == 0 {
        Seq::empty()
    } else {
        move_values(inputs.drop_last(), addresses, from).push(
            move_value(inputs.last(), addresses, from + reference_counts(inputs.drop_last())),
        )
    }
}

/// The Move value of an input.
pub open spec fn move_value(
    input: FuzzerValue,
    addresses: Seq<AccountAddress>,
    from: nat,
) -> MoveValueView
    decreases input,
{
    match input {
        FuzzerValue::U8(v) => MoveValueView::U8(v),
        FuzzerValue::U16(v) => MoveValueView::U16(v),
        FuzzerValue::U32(v) => MoveValueView::U32(v),
        FuzzerValue::U64(v) => MoveValueView::U64(v),
        FuzzerValue::U128(v) => MoveValueView::U128(v),
        FuzzerValue::Bool(v) => MoveValueView::Bool(v),
        FuzzerValue::Vector(_, items) => MoveValueView::Vector(move_values(items, addresses, from)),
        FuzzerValue::Struct(fields) => MoveValueView::Struct(move_values(fields, addresses, from)),
        FuzzerValue::Reference(_, _) => MoveValueView::Address(addresses[from as int]@),
        _ => arbitrary(),
    }
}

/// Whether every input has a Move value.
pub fn inputs_convertible(inputs: &Vec<FuzzerType>) -> (yes: bool)
    ensures
        yes == all_convertible(values_of(inputs@)),
    decreases inputs,
{
    let ghost values = values_of(inputs@);
    let mut yes = true;
    let mut i: usize = 0;
    while i < inputs.len()
        invariant
            i <= inputs.len(),
            values == values_of(inputs@),
            yes == all_convertible(values.take(i as int)),
        decreases inputs.len() - i,
    {
        proof {
            lemma_one_more(values, i as int);
        }
        let item_convertible = match &inputs[i] {
            FuzzerType::Vector(_, items) => inputs_convertible(items),
            FuzzerType::Struct(fields) => inputs_convertible(fields),
            FuzzerType::Address(_) => false,
            FuzzerType::Function(_, _, _) => false,
            _ => true,
        };
        yes = yes && item_convertible;
        i += 1;
    }
    assert(values.take(i as int) =~= values);
    yes
}

/// Draws one address for each reference among the inputs.
fn draw_addresses(inputs: &Vec<FuzzerType>, addresses: &mut Vec<AccountAddress>)
    ensures
        final(addresses)@.len() == old(addresses)@.len() + reference_counts(values_of(inputs@)),
    decreases inputs,
{
    let ghost values = values_of(inputs@);
    let mut i: usize = 0;
    assert(values.take(0) =~= Seq::empty());
    while i < inputs.len()
        invariant
            i <= inputs.len(),
            values == values_of(inputs@),
            addresses@.len() == old(addresses)@.len() + reference_counts(values.take(i as int)),
        decreases inputs.len() - i,
    {
        proof {
            lemma_one_more(values, i as int);
        }
        match &inputs[i] {
            FuzzerType::Vector(_, items) => draw_addresses(items, addresses),
            FuzzerType::Struct(fields) => draw_addresses(fields, addresses),
            FuzzerType::Reference(_, _) => addresses.push(AccountAddress::random()),
            _ => {},
        }
        i += 1;
    }
    assert(values.take(i as int) =~= values);
}

/// Converts inputs, taking addresses for references from position `from` on.
fn convert_inputs(
    inputs: &Vec<FuzzerType>,
    addresses: &Vec<AccountAddress>,
    from: usize,
) -> (converted: (Vec<MoveValue>, usize))
    requires
        all_convertible(values_of(inputs@)),
        from + reference_counts(values_of(inputs@)) <= addresses@.len(),
    ensures
        contents_of(converted.0@) == move_values(values_of(inputs@), addresses@, from as nat),
        converted.1 == from + reference_counts(values_of(inputs@)),
    decreases inputs,
{
    let ghost values = values_of(inputs@);
    let mut moved: Vec<MoveValue> = Vec::new();
    let mut next: usize = from;
    let mut i: usize = 0;
    assert(values.take(0) =~= Seq::empty());
    assert(contents_of(moved@) =~= Seq::empty());
    assert(values.take(inputs@.len() as int) =~= values);
    while i < inputs.len()
        invariant
            i <= inputs.len(),
            values == values_of(inputs@),
            values.take(inputs@.len() as int) == values,
            all_convertible(values),
            from + reference_counts(values) <= addresses@.len(),
            next == from + reference_counts(values.take(i as int)),
            contents_of(moved@) == move_values(values.take(i as int), addresses@, from as nat),
        decreases inputs.len() - i,
    {
        let ghost before = moved@;
        proof {
            lemma_one_more(values, i as int);
            lemma_prefix(values, i + 1);
            assert(move_values(values.take(i + 1), addresses@, from as nat) == move_values(
                values.take(i as int),
                addresses@,
                from as nat,
            ).push(
                move_value(
                    values[i as int],
                    addresses@,
                    from as nat + reference_counts(values.take(i as int)),
                ),
            )) by {
                assert(values.take(i + 1).drop_last() =~= values.take(i as int));
            }
        }
        let value = match &inputs[i] {
            FuzzerType::U8(v) => MoveValue::U8(*v),
            FuzzerType::U16(v) => MoveValue::U16(*v),
            FuzzerType::U32(v) => MoveValue::U32(*v),
            FuzzerType::U64(v) => MoveValue::U64(*v),
            FuzzerType::U128(v) => MoveValue::U128(*v),
            FuzzerType::Bool(v) => MoveValue::Bool(*v),
            FuzzerType::Vector(_, items) => {
                let (converted, after) = convert_inputs(items, addresses, next);
                next = after;
                MoveValue::Vector(converted)
            },
            FuzzerType::Struct(fields) => {
                let (converted, after) = convert_inputs(fields, addresses, next);
                next = after;
                MoveValue::Struct(converted)
            },
            FuzzerType::Reference(_, _) => {
                let address = addresses[next];
                assert(next < addresses.len());
                next += 1;
                MoveValue::Address(address)
            },
            FuzzerType::Address(_) | FuzzerType::Function(_, _, _) => {
                vstd::pervasive::unreached()
            },
        };
        moved.push(value);
        i += 1;
        assert(contents_of(moved@) =~= contents_of(before).push(value@));
    }
    (moved, next)
}

/// What a prefix gains with one more input.
proof fn lemma_one_more(inputs: Seq<FuzzerValue>, len: int)
    requires
        0 <= len < inputs.len(),
    ensures
        all_convertible(inputs.take(len + 1)) == (all_convertible(inputs.take(len)) && convertible(
            inputs[len],
        )),
        reference_counts(inputs.take(len + 1)) == reference_counts(inputs.take(len))
            + reference_count(inputs[len]),
{
    assert(inputs.take(len + 1).drop_last() =~= inputs.take(len));
}

/// What holds of a list of inputs holds of its prefixes.
proof fn lemma_prefix(inputs: Seq<FuzzerValue>, len: int)
    requires
        0 <= len <= inputs.len(),
    ensures
        all_convertible(inputs) ==> all_convertible(inputs.take(len)),
        reference_counts(inputs.take(len)) <= reference_counts(inputs),
    decreases inputs.len(),
{
    if len < inputs.len() {
        lemma_prefix(inputs.drop_last(), len);
        assert(inputs.drop_last().take(len) =~= inputs.take(len));
    } else {
        assert(inputs.take(len) =~= inputs);
    }
}

/// The Move values of inputs, with the given addresses for references.
pub fn generate_inputs_from(inputs: &Vec<FuzzerType>, addresses: &Vec<AccountAddress>) -> (values:
    Vec<MoveValue>)
    requires
        all_convertible(values_of(inputs@)),
        reference_counts(values_of(inputs@)) <= addresses@.len(),
    ensures
        contents_of(values@) == move_values(values_of(inputs@), addresses@, 0),
{
    convert_inputs(inputs, addresses, 0).0
}

/// Converts inputs to Move values. Each reference becomes an address of its own,
/// drawn at random.
pub fn generate_inputs(inputs: Vec<FuzzerType>) -> (values: Vec<MoveValue>)
    requires
        all_convertible(values_of(inputs@)),
    ensures
        are_values_of(contents_of(values@), values_of(inputs@)),
{
    let mut addresses: Vec<AccountAddress> = Vec::new();
    draw_addresses(&inputs, &mut addresses);
    generate_inputs_from(&inputs, &addresses)
}

/// The bytes among `values`, in order; values of other types are left out.
pub open spec fn byte_values(values: Seq<MoveValueView>) -> Seq<u8>
    decreases values.len(),
{
    if values.len() == 0 {
        Seq::empty()
    } else {
        match values.last() {
            MoveValueView::U8(byte) => byte_values(values.drop_last()).push(byte),
            _ => byte_values(values.drop_last()),
        }
    }
}

/// The argument that a Move value becomes. A vector whose first item is a byte
/// becomes the bytes that it holds. Other vectors, structs, signers and numbers
/// of 16, 32 and 256 bits become none.
pub open spec fn argument_of(value: MoveValueView) -> Option<TransactionArgumentView> {
    match value {
        MoveValueView::Bool(v) => Some(TransactionArgumentView::Bool(v)),
        MoveValueView::U8(v) => Some(TransactionArgumentView::U8(v)),
        MoveValueView::U64(v) => Some(TransactionArgumentView::U64(v)),
        MoveValueView::U128(v) => Some(TransactionArgumentView::U128(v)),
        MoveValueView::Address(address) => Some(TransactionArgumentView::Address(address)),
        MoveValueView::Vector(items) => if items.len() > 0 && items[0] is U8 {
            Some(TransactionArgumentView::U8Vector(byte_values(items)))
        } else {
            None
        },
        _ => None,
    }
}

/// The view of an argument that may be missing.
pub open spec fn optional_argument(arg: Option<TransactionArgument>) -> Option<
    TransactionArgumentView,
> {
    match arg {
        Some(a) => Some(a@),
        None => None,
    }
}

/// Collects the bytes among Move values.
fn collect_bytes(values: &Vec<MoveValue>) -> (bytes: Vec<u8>)
    ensures
        bytes@ == byte_values(contents_of(values@)),
{
    let ghost contents = contents_of(values@);
    let mut bytes: Vec<u8> = Vec::new();
    let mut i: usize = 0;
    while i < values.len()
        invariant
            i <= values.len(),
            contents == contents_of(values@),
            bytes@ == byte_values(contents.take(i as int)),
        decreases values.len() - i,
    {
        assert(contents.take(i + 1).drop_last() =~= contents.take(i as int));
        assert(contents.take(i + 1).last() == values@[i as int]@);
        if let MoveValue::U8(byte) = &values[i] {
            bytes.push(*byte);
        }
        i += 1;
    }
    assert(contents.take(i as int) =~= contents);
    bytes
}

/// Converts a Move value to an argument of a transaction.
pub fn convert_move_value_to_aptos_arg(value: &MoveValue) -> (arg: Option<TransactionArgument>)
    ensures
        optional_argument(arg) == argument_of(value@),
{
    match value {
        MoveValue::Bool(v) => Some(TransactionArgument::Bool(*v)),
        MoveValue::U8(v) => Some(TransactionArgument::U8(*v)),
        MoveValue::U64(v) => Some(TransactionArgument::U64(*v)),
        MoveValue::U128(v) => Some(TransactionArgument::U128(*v)),
        MoveValue::Address(address) => Some(TransactionArgument::Address(*address)),
        MoveValue::Vector(items) => {
            if items.len() == 0 {
                return None;
            }
            assert(contents_of(items@)[0] == items@[0]@);
            if let MoveValue::U8(_) = &items[0] {
                Some(TransactionArgument::U8Vector(collect_bytes(items)))
            } else {
                None
            }
        },
        _ => None,
    }
}

/// The arguments that Move values become, leaving out values that become none.
pub open spec fn arguments_of(values: Seq<MoveValueView>) -> Seq<TransactionArgumentView>
    decreases values.len(),
{
    if values.len() == 0 {
        Seq::empty()
    } else {
        match argument_of(values.last()) {
            Some(arg) => arguments_of(values.drop_last()).push(arg),
            None => arguments_of(values.drop_last()),
        }
    }
}

/// Converts Move values to the arguments of a transaction.
pub fn convert_move_values(values: &Vec<MoveValue>) -> (args: Vec<TransactionArgument>)
    ensures
        argument_views(args@) == arguments_of(contents_of(values@)),
{
    let ghost contents = contents_of(values@);
    let mut args: Vec<TransactionArgument> = Vec::new();
    let mut i: usize = 0;
    assert(argument_views(args@) =~= arguments_of(contents.take(0)));
    while i < values.len()
        invariant
            i <= values.len(),
            contents == contents_of(values@),
            argument_views(args@) == arguments_of(contents.take(i as int)),
        decreases values.len() - i,
    {
        let ghost before = args@;
        assert(contents.take(i + 1).drop_last() =~= contents.take(i as int));
        assert(contents.take(i + 1).last() == values@[i as int]@);
        if let Some(arg) = convert_move_value_to_aptos_arg(&values[i]) {
            args.push(arg);
            assert(argument_views(args@) =~= argument_views(before).push(arg@));
        }
        i += 1;
    }
    assert(contents.take(i as int) =~= contents);
    args
}

/// An input is not too long to be encoded: a vector that starts with a byte holds
/// no more bytes than an encoding can have.
pub open spec fn is_short(input: FuzzerValue) -> bool {
    match input {
        FuzzerValue::Vector(_, items) => items.len() > 0 && items[0] is U8 ==> byte_items(
            items,
        ).len() <= MAX_SEQUENCE_LENGTH,
        _ => true,
    }
}

/// No input is too long to be encoded.
pub open spec fn all_short(inputs: Seq<FuzzerValue>) -> bool {
    forall|i: int| 0 <= i < inputs.len() ==> is_short(#[trigger] inputs[i])
}

/// Whether no input is too long to be encoded.
pub fn inputs_short(inputs: &Vec<FuzzerType>) -> (yes: bool)
    ensures
        yes == all_short(values_of(inputs@)),
{
    let ghost values = values_of(inputs@);
    let mut i: usize = 0;
    while i < inputs.len()
        invariant
            i <= inputs.len(),
            values == values_of(inputs@),
            forall|j: int| 0 <= j < i ==> is_short(#[trigger] values[j]),
        decreases inputs.len() - i,
    {
        assert(values[i as int] == inputs@[i as int]@);
        if let FuzzerType::Vector(_, items) = &inputs[i] {
            if items.len() > 0 {
                assert(values_of(items@)[0] == items@[0]@);
                if let FuzzerType::U8(_) = &items[0] {
                    if u8_vec_from_fuzzer(&inputs[i]).len() > MAX_SEQUENCE_LENGTH {
                        return false;
                    }
                }
            }
        }
        i += 1;
    }
    true
}

/// The bytes among inputs are the bytes among their Move values.
proof fn lemma_same_bytes(inputs: Seq<FuzzerValue>, addresses: Seq<AccountAddress>, from: nat)
    requires
        all_convertible(inputs),
    ensures
        move_values(inputs, addresses, from).len() == inputs.len(),
        byte_values(move_values(inputs, addresses, from)) == byte_items(inputs),
        inputs.len() > 0 ==> (move_values(inputs, addresses, from)[0] is U8 <==> inputs[0] is U8),
    decreases inputs.len(),
{
    if inputs.len() > 0 {
        let shorter = inputs.drop_last();
        lemma_same_bytes(shorter, addresses, from);
        let values = move_values(inputs, addresses, from);
        let last = move_value(inputs.last(), addresses, from + reference_counts(shorter));
        assert(values.drop_last() =~= move_values(shorter, addresses, from));
        assert(values.last() == last);
        assert(convertible(inputs.last()));
        assert(last is U8 <==> inputs.last() is U8);
    }
}

/// Short inputs become arguments that can be encoded.
proof fn lemma_short_values(inputs: Seq<FuzzerValue>, addresses: Seq<AccountAddress>, from: nat)
    requires
        all_convertible(inputs),
        all_short(inputs),
    ensures
        forall|i: int|
            0 <= i < inputs.len() ==> has_short_bytes(
                #[trigger] move_values(inputs, addresses, from)[i],
            ),
        move_values(inputs, addresses, from).len() == inputs.len(),
    decreases inputs.len(),
{
    if inputs.len() > 0 {
        let shorter = inputs.drop_last();
        assert forall|i: int| 0 <= i < shorter.len() implies is_short(#[trigger] shorter[i]) by {
            assert(is_short(inputs[i]));
        }
        lemma_short_values(shorter, addresses, from);
        let values = move_values(inputs, addresses, from);
        let next = from + reference_counts(shorter);
        assert(values == move_values(shorter, addresses, from).push(
            move_value(inputs.last(), addresses, next),
        ));
        assert(is_short(inputs[inputs.len() - 1]));
        assert(convertible(inputs.last()));
        if let FuzzerValue::Vector(_, items) = inputs.last() {
            lemma_same_bytes(items, addresses, next);
        }
        assert(has_short_bytes(move_value(inputs.last(), addresses, next)));
    }
}

/// A Move value whose argument, where it is made of bytes, can be encoded.
pub open spec fn has_short_bytes(value: MoveValueView) -> bool {
    match argument_of(value) {
        Some(arg) => arg.encodable(),
        None => true,
    }
}

/// The arguments of short inputs can be encoded.
pub proof fn lemma_arguments_encodable(inputs: Seq<FuzzerValue>, values: Seq<MoveValueView>)
    requires
        all_convertible(inputs),
        all_short(inputs),
        are_values_of(values, inputs),
    ensures
        all_encodable(arguments_of(values)),
        forall|i: int| 0 <= i < values.len() ==> has_short_bytes(#[trigger] values[i]),
{
    let addresses = choose|addresses: Seq<AccountAddress>|
        addresses.len() == reference_counts(inputs) && values == #[trigger] move_values(
            inputs,
            addresses,
            0,
        );
    lemma_short_values(inputs, addresses, 0);
    lemma_all_encodable(values);
}

proof fn lemma_all_encodable(values: Seq<MoveValueView>)
    requires
        forall|i: int| 0 <= i < values.len() ==> has_short_bytes(#[trigger] values[i]),
    ensures
        all_encodable(arguments_of(values)),
    decreases values.len(),
{
    if values.len() > 0 {
        let shorter = values.drop_last();
        assert forall|i: int| 0 <= i < shorter.len() implies has_short_bytes(
            #[trigger] shorter[i],
        ) by {
            assert(has_short_bytes(values[i]));
        }
        lemma_all_encodable(shorter);
        assert(has_short_bytes(values[values.len() - 1]));
    }
}

/// Bytes have Move values.
pub proof fn lemma_bytes_convertible(bytes: Seq<u8>)
    ensures
        all_convertible(bytes.map_values(|byte: u8| FuzzerValue::U8(byte))),
    decreases bytes.len(),
{
    let items = bytes.map_values(|byte: u8| FuzzerValue::U8(byte));
    if bytes.len() > 0 {
        lemma_bytes_convertible(bytes.drop_last());
        assert(items.drop_last() =~= bytes.drop_last().map_values(
            |byte: u8| FuzzerValue::U8(byte),
        ));
        assert(convertible(items.last()));
    }
}

} // verus!
