//! What holds of interfaces as they are read from a package.
use crate::mutator::types::FuzzerValue;
use crate::runner::move_model::{
    function_named, target_functions, AbiError, FunctionModel, ModuleModel, MoveType,
    PrimitiveType,
};
use crate::runner::stateless_runner::aptos_runner_utils::{
    call_inputs, function_abi, initial_value, is_signer,
};
use vstd::prelude::*;

verus! {

/// A type under a number of references.
pub open spec fn referenced(move_type: MoveType, mutabilities: Seq<bool>) -> MoveType
    decreases mutabilities.len(),
{
    if mutabilities.len() == 0 {
        move_type
    } else {
        MoveType::Reference(
            mutabilities.last(),
            Box::new(referenced(move_type, mutabilities.drop_last())),
        )
    }
}

/// Among the types that are no references exactly the primitive signer is a signer,
/// and a type under any number of references is one exactly where the type itself is.
pub proof fn law_only_signers_are_signers(move_type: MoveType, mutabilities: Seq<bool>)
    requires
        !(move_type is Reference),
    ensures
        is_signer(referenced(move_type, mutabilities)) <==> move_type == MoveType::Primitive(
            PrimitiveType::Signer,
        ),
    decreases mutabilities.len(),
{
    if mutabilities.len() > 0 {
        law_only_signers_are_signers(move_type, mutabilities.drop_last());
    }
}

/// Two parameter lists, one after the other, have the inputs of the one and then those
/// of the other.
pub proof fn law_inputs_of_parameters_append(first: Seq<MoveType>, second: Seq<MoveType>)
    ensures
        call_inputs(first + second) == call_inputs(first) + call_inputs(second),
{
    let keep = |parameter: MoveType| !is_signer(parameter);
    Seq::filter_distributes_over_add(first, second, keep);
    assert(call_inputs(first + second) =~= call_inputs(first) + call_inputs(second));
}

/// One parameter has no input where it is a signer or a reference to one, and
/// otherwise the input that its type starts from.
pub proof fn law_input_of_one_parameter(move_type: MoveType, mutabilities: Seq<bool>)
    requires
        !(move_type is Reference),
    ensures
        ({
            let parameter = referenced(move_type, mutabilities);
            let inputs = call_inputs(seq![parameter]);
            if move_type == MoveType::Primitive(PrimitiveType::Signer) {
                inputs.len() == 0
            } else {
                inputs == seq![initial_value(parameter)]
            }
        }),
{
    let parameter = referenced(move_type, mutabilities);
    law_only_signers_are_signers(move_type, mutabilities);
    reveal(Seq::filter);
    let keep = |parameter: MoveType| !is_signer(parameter);
    assert(seq![parameter].drop_last() =~= Seq::empty());
    assert(Seq::<MoveType>::empty().filter(keep) =~= Seq::empty());
    if keep(parameter) {
        assert(seq![parameter].filter(keep) =~= seq![parameter]);
        assert(call_inputs(seq![parameter]) =~= seq![initial_value(parameter)]);
    }
}

/// A number type starts from zero in its own width, a truth value from false, an
/// address or signer from 32 zero bytes, and every other primitive from a 64-bit zero.
pub proof fn law_primitives_start_from_zero(primitive: PrimitiveType)
    ensures
        ({
            let input = initial_value(MoveType::Primitive(primitive));
            &&& primitive is U8 <==> input == FuzzerValue::U8(0)
            &&& primitive is U16 <==> input == FuzzerValue::U16(0)
            &&& primitive is U32 <==> input == FuzzerValue::U32(0)
            &&& primitive is U128 <==> input == FuzzerValue::U128(0)
            &&& primitive is Bool <==> input == FuzzerValue::Bool(false)
            &&& primitive is Address || primitive is Signer <==> input is Address
            &&& input matches FuzzerValue::Address(bytes) ==> bytes.len() == 32 && forall|i: int|
                0 <= i < 32 ==> #[trigger] bytes[i] == 0
            &&& !(primitive is U8 || primitive is U16 || primitive is U32 || primitive is U128
                || primitive is Bool || primitive is Address || primitive is Signer) <==> input
                == FuzzerValue::U64(0)
        }),
{
}

/// A vector starts with one item, which is what its element type starts from; a
/// reference starts immutable from what it refers to; a struct starts with one 64-bit
/// field; and any other type starts from a 64-bit zero.
pub proof fn law_compound_types_start_from_their_parts(inner: MoveType, mutable: bool)
    ensures
        initial_value(MoveType::Vector(Box::new(inner))) matches FuzzerValue::Vector(element, items)
            && *element == initial_value(inner) && items.len() == 1 && items[0] == initial_value(
            inner,
        ),
        initial_value(MoveType::Reference(mutable, Box::new(inner)))
            matches FuzzerValue::Reference(is_mutable, target) && !is_mutable && *target
            == initial_value(inner),
        initial_value(MoveType::Struct) matches FuzzerValue::Struct(fields) && fields.len() == 1
            && fields[0] == FuzzerValue::U64(0),
        initial_value(MoveType::Other) == FuzzerValue::U64(0),
{
}

/// The module under test is the first that goes by the target's name.
pub proof fn law_first_target_module_counts(modules: Seq<ModuleModel>, i: int)
    requires
        0 <= i < modules.len(),
        modules[i].matches_target,
        forall|j: int| 0 <= j < i ==> !(#[trigger] modules[j]).matches_target,
    ensures
        target_functions(modules) == Some(modules[i].functions@),
    decreases i,
{
    if i > 0 {
        let rest = modules.drop_first();
        assert forall|j: int| 0 <= j < i - 1 implies !(#[trigger] rest[j]).matches_target by {
            assert(rest[j] == modules[j + 1]);
        }
        assert(rest[i - 1] == modules[i]);
        assert(!modules[0].matches_target);
        law_first_target_module_counts(rest, i - 1);
    }
}

/// There is no module under test exactly where none goes by the target's name.
pub proof fn law_target_module_can_be_missing(modules: Seq<ModuleModel>)
    ensures
        target_functions(modules) is None <==> forall|i: int|
            0 <= i < modules.len() ==> !(#[trigger] modules[i]).matches_target,
    decreases modules.len(),
{
    if modules.len() > 0 {
        let rest = modules.drop_first();
        law_target_module_can_be_missing(rest);
        assert forall|i: int| 0 <= i < rest.len() implies #[trigger] rest[i] == modules[i + 1] by {}
        if target_functions(modules) is None {
            assert forall|i: int| 0 <= i < modules.len() implies !(
            #[trigger] modules[i]).matches_target by {
                if i > 0 {
                    assert(!rest[i - 1].matches_target);
                }
            }
        } else if !modules[0].matches_target {
            let i = choose|i: int| 0 <= i < rest.len() && (#[trigger] rest[i]).matches_target;
            assert(modules[i + 1].matches_target);
        }
    }
}

/// The function of a name is the first that has it.
pub proof fn law_first_function_counts(functions: Seq<FunctionModel>, name: Seq<char>, i: int)
    requires
        0 <= i < functions.len(),
        functions[i].name@ == name,
        forall|j: int| 0 <= j < i ==> (#[trigger] functions[j]).name@ != name,
    ensures
        function_named(functions, name) == Some(functions[i]),
    decreases i,
{
    if i > 0 {
        let rest = functions.drop_first();
        assert forall|j: int| 0 <= j < i - 1 implies (#[trigger] rest[j]).name@ != name by {
            assert(rest[j] == functions[j + 1]);
        }
        assert(rest[i - 1] == functions[i]);
        assert(functions[0].name@ != name);
        law_first_function_counts(rest, name, i - 1);
    }
}

/// There is no function of a name exactly where none has it.
pub proof fn law_function_can_be_missing(functions: Seq<FunctionModel>, name: Seq<char>)
    ensures
        function_named(functions, name) is None <==> forall|i: int|
            0 <= i < functions.len() ==> (#[trigger] functions[i]).name@ != name,
    decreases functions.len(),
{
    if functions.len() > 0 {
        let rest = functions.drop_first();
        law_function_can_be_missing(rest, name);
        assert forall|i: int| 0 <= i < rest.len() implies #[trigger] rest[i] == functions[i
            + 1] by {}
        if function_named(functions, name) is None {
            assert forall|i: int| 0 <= i < functions.len() implies (
            #[trigger] functions[i]).name@ != name by {
                if i > 0 {
                    assert(rest[i - 1].name@ != name);
                }
            }
        } else if functions[0].name@ != name {
            let i = choose|i: int| 0 <= i < rest.len() && (#[trigger] rest[i]).name@ == name;
            assert(functions[i + 1].name@ == name);
        }
    }
}

/// The interface of a target is that of the first function of its name in the first
/// module of its name: the inputs of its parameters, and as the coverage to reach the
/// number of its instructions, none where it has no bytecode.
pub proof fn law_interface_of_the_target(
    modules: Seq<ModuleModel>,
    name: Seq<char>,
    i: int,
    k: int,
)
    requires
        0 <= i < modules.len(),
        modules[i].matches_target,
        forall|j: int| 0 <= j < i ==> !(#[trigger] modules[j]).matches_target,
        0 <= k < modules[i].functions@.len(),
        modules[i].functions@[k].name@ == name,
        forall|j: int| 0 <= j < k ==> (#[trigger] modules[i].functions@[j]).name@ != name,
    ensures
        function_abi(modules, name) matches Ok((inputs, coverage)) && {
            let function = modules[i].functions@[k];
            &&& inputs == call_inputs(function.parameters@)
            &&& function.bytecode_len matches Some(len) ==> coverage == len
            &&& function.bytecode_len is None ==> coverage == 0
        },
{
    law_first_target_module_counts(modules, i);
    law_first_function_counts(modules[i].functions@, name, k);
}

/// A target has no interface exactly where its module or its function is missing, and
/// the error says which.
pub proof fn law_missing_interfaces(modules: Seq<ModuleModel>, name: Seq<char>)
    ensures
        function_abi(modules, name) == Err::<(Seq<FuzzerValue>, nat), AbiError>(
            AbiError::ModuleNotFound,
        ) <==> forall|i: int| 0 <= i < modules.len() ==> !(#[trigger] modules[i]).matches_target,
        function_abi(modules, name) == Err::<(Seq<FuzzerValue>, nat), AbiError>(
            AbiError::FunctionNotFound,
        ) <==> target_functions(modules) is Some && forall|i: int|
            0 <= i < target_functions(modules)->0.len() ==> (
            #[trigger] target_functions(modules)->0[i]).name@ != name,
{
    law_target_module_can_be_missing(modules);
    if let Some(functions) = target_functions(modules) {
        law_function_can_be_missing(functions, name);
    }
}

} // verus!
