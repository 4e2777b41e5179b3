//! What holds of the functions that a worker calls.
use crate::mutator::types::{values_of, FuzzerType, FuzzerValue};
use crate::runner::move_model::{function_named, FunctionModel};
use crate::runner::stateless_runner::aptos_runner_utils::{call_inputs, initial_value};
use crate::worker::stateful_worker::{
    abi_calls, abi_views, all_found, full_abi, prefixed_abis, target_calls, texts, without_first,
    worker_of, FunctionAbi, FunctionAbiView, WorkerActionView,
};
use vstd::prelude::*;

verus! {

/// Lists are read item by item.
pub proof fn law_lists_are_read_item_by_item(
    abis: Seq<FunctionAbi>,
    strings: Seq<String>,
    types: Seq<FuzzerType>,
)
    ensures
        abi_views(abis).len() == abis.len(),
        forall|i: int| 0 <= i < abis.len() ==> #[trigger] abi_views(abis)[i] == abis[i]@,
        texts(strings).len() == strings.len(),
        forall|i: int| 0 <= i < strings.len() ==> #[trigger] texts(strings)[i] == strings[i]@,
        values_of(types).len() == types.len(),
        forall|i: int| 0 <= i < types.len() ==> #[trigger] values_of(types)[i] == types[i]@,
{
}

/// The interface of a function has its name, starts each parameter from the first value
/// of its type, signers not left out, and has one result.
pub proof fn law_interface_keeps_every_parameter(function: FunctionModel)
    ensures
        full_abi(function).name == function.name@,
        full_abi(function).parameters.len() == function.parameters@.len(),
        forall|i: int|
            0 <= i < function.parameters@.len() ==> #[trigger] full_abi(function).parameters[i]
                == initial_value(function.parameters@[i]),
        full_abi(function).results.len() == 1,
        full_abi(function).results[0] == initial_value(function.result),
{
}

/// The functions with a prefix are found part by part, in order.
pub proof fn law_prefixed_functions_append(
    first: Seq<FunctionModel>,
    second: Seq<FunctionModel>,
    prefix: Seq<char>,
)
    ensures
        prefixed_abis(first + second, prefix) == prefixed_abis(first, prefix) + prefixed_abis(
            second,
            prefix,
        ),
{
    let chosen = |function: FunctionModel| prefix.is_prefix_of(function.name@);
    Seq::filter_distributes_over_add(first, second, chosen);
    assert(prefixed_abis(first + second, prefix) =~= prefixed_abis(first, prefix) + prefixed_abis(
        second,
        prefix,
    ));
}

/// A single function is found where its name begins with the prefix, and then by its
/// full interface.
pub proof fn law_prefixed_function(function: FunctionModel, prefix: Seq<char>)
    ensures
        prefix.len() <= function.name@.len() && function.name@.take(prefix.len() as int) == prefix
            ==> prefixed_abis(seq![function], prefix) == seq![full_abi(function)],
        !(prefix.len() <= function.name@.len() && function.name@.take(prefix.len() as int)
            == prefix) ==> prefixed_abis(seq![function], prefix).len() == 0,
        prefixed_abis(Seq::empty(), prefix).len() == 0,
{
    reveal(Seq::filter);
    let chosen = |f: FunctionModel| prefix.is_prefix_of(f.name@);
    let one = seq![function];
    assert(one.drop_last() =~= Seq::<FunctionModel>::empty());
    assert(Seq::<FunctionModel>::empty().filter(chosen) =~= Seq::<FunctionModel>::empty());
    assert(function.name@.take(prefix.len() as int) =~= function.name@.subrange(
        0,
        prefix.len() as int,
    ));
    if chosen(function) {
        assert(one.filter(chosen) =~= one);
        assert(prefixed_abis(one, prefix) =~= seq![full_abi(function)]);
    } else {
        assert(one.filter(chosen) =~= Seq::<FunctionModel>::empty());
    }
}

/// Only the first interface of a name is left out; what stands before it and after it
/// stays, in order.
pub proof fn law_first_of_a_name_is_left_out(
    before: Seq<FunctionAbiView>,
    abi: FunctionAbiView,
    after: Seq<FunctionAbiView>,
)
    requires
        forall|i: int| 0 <= i < before.len() ==> (#[trigger] before[i]).name != abi.name,
    ensures
        without_first(before + seq![abi] + after, abi.name) == before + after,
    decreases before.len(),
{
    let all = before + seq![abi] + after;
    if before.len() == 0 {
        assert(all[0] == abi);
        assert(all.drop_first() =~= before + after);
    } else {
        let rest = before.drop_first();
        assert forall|i: int| 0 <= i < rest.len() implies (#[trigger] rest[i]).name
            != abi.name by {
            assert(rest[i] == before[i + 1]);
        }
        law_first_of_a_name_is_left_out(rest, abi, after);
        assert(all[0] == before[0]);
        assert(all.drop_first() =~= rest + seq![abi] + after);
        assert(seq![before[0]] + (rest + after) =~= before + after);
    }
}

/// Where no interface has the name, all stay.
pub proof fn law_others_stay(abis: Seq<FunctionAbiView>, name: Seq<char>)
    requires
        forall|i: int| 0 <= i < abis.len() ==> (#[trigger] abis[i]).name != name,
    ensures
        without_first(abis, name) == abis,
    decreases abis.len(),
{
    if abis.len() > 0 {
        let rest = abis.drop_first();
        assert forall|i: int| 0 <= i < rest.len() implies (#[trigger] rest[i]).name != name by {
            assert(rest[i] == abis[i + 1]);
        }
        law_others_stay(rest, name);
        assert(seq![abis[0]] + rest =~= abis);
    }
}

/// An interface is called by its name, with the values that its parameters start from.
pub proof fn law_calls_of_interfaces(abis: Seq<FunctionAbiView>)
    ensures
        abi_calls(abis).len() == abis.len(),
        forall|i: int|
            0 <= i < abis.len() ==> #[trigger] abi_calls(abis)[i] == FuzzerValue::Function(
                abis[i].name,
                abis[i].parameters,
                None,
            ),
{
}

/// A target is called by its name, with the inputs of the function of that name: every
/// parameter but signers.
pub proof fn law_calls_of_targets(functions: Seq<FunctionModel>, names: Seq<Seq<char>>)
    ensures
        target_calls(functions, names).len() == names.len(),
        forall|i: int|
            0 <= i < names.len() && function_named(functions, names[i]) is Some
                ==> #[trigger] target_calls(functions, names)[i] == FuzzerValue::Function(
                names[i],
                call_inputs(function_named(functions, names[i])->0.parameters@),
                None,
            ),
{
}

/// All functions are found where each name is the name of some function.
pub proof fn law_found_functions(functions: Seq<FunctionModel>, names: Seq<Seq<char>>)
    ensures
        all_found(functions, names) <==> forall|i: int|
            0 <= i < names.len() ==> has_function(functions, #[trigger] names[i]),
{
    assert forall|i: int| 0 <= i < names.len() implies (function_named(
        functions,
        #[trigger] names[i],
    ) is Some <==> has_function(functions, names[i])) by {
        lemma_named_functions(functions, names[i]);
    }
}

/// Some function has the name.
pub open spec fn has_function(functions: Seq<FunctionModel>, name: Seq<char>) -> bool {
    exists|j: int| 0 <= j < functions.len() && (#[trigger] functions[j]).name@ == name
}

/// A function is found where one has the name.
proof fn lemma_named_functions(functions: Seq<FunctionModel>, name: Seq<char>)
    ensures
        function_named(functions, name) is Some <==> has_function(functions, name),
    decreases functions.len(),
{
    if functions.len() > 0 {
        let rest = functions.drop_first();
        lemma_named_functions(rest, name);
        if functions[0].name@ != name && has_function(functions, name) {
            let j = choose|j: int|
                0 <= j < functions.len() && (#[trigger] functions[j]).name@ == name;
            assert(rest[j - 1].name@ == name);
        }
        if has_function(rest, name) {
            let j = choose|j: int| 0 <= j < rest.len() && (#[trigger] rest[j]).name@ == name;
            assert(functions[j + 1].name@ == name);
        }
    }
}

/// A worker begins by asking for the size of a sequence, up to the size that it was
/// made with, and has counted no seconds. It calls every target by its name, in order.
pub proof fn law_worker_begins(
    functions: Seq<FunctionModel>,
    names: Seq<Seq<char>>,
    prefix: Seq<char>,
    max_size: u32,
)
    ensures
        ({
            let worker = worker_of(functions, names, prefix, max_size);
            &&& worker.next_action() == (WorkerActionView::DrawSize {
                least: 1,
                greatest: max_size as nat,
            })
            &&& worker.sec_elapsed == 0
            &&& worker.target_functions.len() == names.len()
            &&& forall|i: int|
                0 <= i < names.len() ==> #[trigger] worker.target_functions[i]
                    == FuzzerValue::Function(
                    names[i],
                    call_inputs(function_named(functions, names[i])->0.parameters@),
                    None,
                )
        }),
{
}

/// Whatever its name begins with, the function that prepares the state is left out of
/// what a worker calls. `before` and `after` are the functions around it, of which the
/// earlier ones have other names.
pub proof fn law_worker_leaves_out_the_preparation(
    before: Seq<FunctionModel>,
    preparation: FunctionModel,
    after: Seq<FunctionModel>,
    names: Seq<Seq<char>>,
    prefix: Seq<char>,
    max_size: u32,
)
    requires
        preparation.name@ == "fuzz_init"@,
        forall|i: int| 0 <= i < before.len() ==> (#[trigger] before[i]).name@ != "fuzz_init"@,
    ensures
        prefix.is_prefix_of("fuzz_init"@) ==> worker_of(
            before + seq![preparation] + after,
            names,
            prefix,
            max_size,
        ).fuzz_functions == abi_calls(
            prefixed_abis(before, prefix) + prefixed_abis(after, prefix),
        ),
{
    if prefix.is_prefix_of("fuzz_init"@) {
        let name = preparation.name@;
        law_prefixed_functions_append(before + seq![preparation], after, prefix);
        law_prefixed_functions_append(before, seq![preparation], prefix);
        assert(name.take(prefix.len() as int) =~= prefix);
        law_prefixed_function(preparation, prefix);
        let first = prefixed_abis(before, prefix);
        lemma_prefixed_names(before, prefix, name);
        law_first_of_a_name_is_left_out(
            first,
            full_abi(preparation),
            prefixed_abis(after, prefix),
        );
    }
}

/// The functions with a prefix have names that occurred before.
proof fn lemma_prefixed_names(functions: Seq<FunctionModel>, prefix: Seq<char>, name: Seq<char>)
    requires
        forall|i: int| 0 <= i < functions.len() ==> (#[trigger] functions[i]).name@ != name,
    ensures
        forall|i: int|
            0 <= i < prefixed_abis(functions, prefix).len() ==> (#[trigger] prefixed_abis(
                functions,
                prefix,
            )[i]).name != name,
    decreases functions.len(),
{
    if functions.len() == 0 {
        assert(functions =~= Seq::empty());
        law_prefixed_function(arbitrary(), prefix);
    } else {
        let fewer = functions.drop_last();
        let last = functions.last();
        assert forall|i: int| 0 <= i < fewer.len() implies (#[trigger] fewer[i]).name@ != name by {
            assert(fewer[i] == functions[i]);
        }
        lemma_prefixed_names(fewer, prefix, name);
        assert(functions =~= fewer + seq![last]);
        law_prefixed_functions_append(fewer, seq![last], prefix);
        law_prefixed_function(last, prefix);
        let found = prefixed_abis(functions, prefix);
        let earlier = prefixed_abis(fewer, prefix);
        assert(functions[functions.len() - 1].name@ != name);
        assert forall|i: int| 0 <= i < found.len() implies (#[trigger] found[i]).name != name by {
            if i < earlier.len() {
                assert(found[i] == earlier[i]);
            } else {
                assert(found[i] == prefixed_abis(seq![last], prefix)[i - earlier.len()]);
            }
        }
    }
}

} // verus!
