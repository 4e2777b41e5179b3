use crate::external::random::shuffle_indices;
use crate::fuzzer::error::Error;
use crate::fuzzer::stats::Stats;
use crate::mutator::types::{clone_types, FuzzerType};
use crate::runner::move_model::{find_target_module, AbiError, FunctionModel, ModuleModel, MoveType};
use crate::runner::stateless_runner::aptos_runner_utils::{
    convert_move_type_to_fuzzer_type, generate_abi_from_source,
};
use vstd::prelude::*;
use vstd::string::StrSliceExecFns;

verus! {

use crate::mutator::types::{values_of, FuzzerValue};
use crate::runner::call::result_view;
use crate::runner::move_model::{function_named, target_functions};
use crate::runner::stateless_runner::aptos_runner_utils::{call_inputs, initial_value};

/// The interface of a function: its name and the inputs and results it starts
/// from.
pub struct FunctionAbi {
    pub name: String,
    pub parameters: Vec<FuzzerType>,
    pub results: Vec<FuzzerType>,
}

/// The mathematical content of a [`FunctionAbi`].
pub ghost struct FunctionAbiView {
    pub name: Seq<char>,
    pub parameters: Seq<FuzzerValue>,
    pub results: Seq<FuzzerValue>,
}

impl View for FunctionAbi {
    type V = FunctionAbiView;

    open spec fn view(&self) -> FunctionAbiView {
        FunctionAbiView {
            name: self.name@,
            parameters: values_of(self.parameters@),
            results: values_of(self.results@),
        }
    }
}

/// The contents of a list of interfaces.
pub open spec fn abi_views(abis: Seq<FunctionAbi>) -> Seq<FunctionAbiView> {
    abis.map_values(|abi: FunctionAbi| abi@)
}

/// The interface of a function with all its parameters, signers included.
pub open spec fn full_abi(function: FunctionModel) -> FunctionAbiView {
    FunctionAbiView {
        name: function.name@,
        parameters: function.parameters@.map_values(|parameter: MoveType| initial_value(parameter)),
        results: seq![initial_value(function.result)],
    }
}

/// The interfaces of the functions whose name starts with `prefix`, in order.
pub open spec fn prefixed_abis(functions: Seq<FunctionModel>, prefix: Seq<char>) -> Seq<
    FunctionAbiView,
> {
    functions.filter(|function: FunctionModel| prefix.is_prefix_of(function.name@)).map_values(
        |function: FunctionModel| full_abi(function),
    )
}

/// Whether `text` starts with `prefix`.
pub fn starts_with(text: &str, prefix: &str) -> (yes: bool)
    ensures
        yes == prefix@.is_prefix_of(text@),
{
    let len = prefix.unicode_len();
    if text.unicode_len() < len {
        return false;
    }
    let mut i: usize = 0;
    while i < len
        invariant
            i <= len,
            len == prefix@.len(),
            len <= text@.len(),
            forall|j: int| 0 <= j < i ==> prefix@[j] == #[trigger] text@[j],
        decreases len - i,
    {
        if text.get_char(i) != prefix.get_char(i) {
            assert(prefix@[i as int] != text@.subrange(0, prefix@.len() as int)[i as int]);
            return false;
        }
        i += 1;
    }
    assert(prefix@ =~= text@.subrange(0, prefix@.len() as int));
    true
}

/// Converts all parameters of a function.
fn convert_all(parameters: &Vec<MoveType>) -> (converted: Vec<FuzzerType>)
    ensures
        values_of(converted@) == parameters@.map_values(
            |parameter: MoveType| initial_value(parameter),
        ),
{
    let mut converted: Vec<FuzzerType> = Vec::new();
    let mut i: usize = 0;
    while i < parameters.len()
        invariant
            i <= parameters.len(),
            converted.len() == i,
            forall|j: int|
                0 <= j < i ==> (#[trigger] converted@[j]).value() == initial_value(parameters@[j]),
        decreases parameters.len() - i,
    {
        converted.push(convert_move_type_to_fuzzer_type(&parameters[i]));
        i += 1;
    }
    assert(values_of(converted@) =~= parameters@.map_values(
        |parameter: MoveType| initial_value(parameter),
    ));
    converted
}

/// The interfaces of the functions of the module under test whose name starts
/// with `prefix`.
pub fn generate_abi_from_source_starts_with(modules: &Vec<ModuleModel>, prefix: &str) -> (abis:
    Result<Vec<FunctionAbi>, AbiError>)
    ensures
        match abis {
            Ok(list) => target_functions(modules@) matches Some(functions) && abi_views(list@)
                == prefixed_abis(functions, prefix@),
            Err(error) => target_functions(modules@) is None && error == AbiError::ModuleNotFound,
        },
{
    let module = match find_target_module(modules) {
        None => return Err(AbiError::ModuleNotFound),
        Some(module) => module,
    };
    let ghost functions = module.functions@;
    let ghost chosen = |function: FunctionModel| prefix@.is_prefix_of(function.name@);
    let ghost convert = |function: FunctionModel| full_abi(function);
    let mut abis: Vec<FunctionAbi> = Vec::new();
    let mut i: usize = 0;
    proof {
        reveal(Seq::filter);
        assert(abi_views(abis@) =~= functions.take(0).filter(chosen).map_values(convert));
    }
    while i < module.functions.len()
        invariant
            i <= module.functions.len(),
            functions == module.functions@,
            chosen == |function: FunctionModel| prefix@.is_prefix_of(function.name@),
            convert == |function: FunctionModel| full_abi(function),
            abi_views(abis@) == functions.take(i as int).filter(chosen).map_values(convert),
        decreases module.functions.len() - i,
    {
        let ghost before = abis@;
        proof {
            reveal(Seq::filter);
            assert(functions.take(i + 1).drop_last() =~= functions.take(i as int));
        }
        let function = &module.functions[i];
        if starts_with(function.name.as_str(), prefix) {
            let mut results: Vec<FuzzerType> = Vec::new();
            results.push(convert_move_type_to_fuzzer_type(&function.result));
            assert(values_of(results@) =~= seq![initial_value(function.result)]);
            abis.push(
                FunctionAbi {
                    name: function.name.clone(),
                    parameters: convert_all(&function.parameters),
                    results,
                },
            );
            assert(abi_views(abis@) =~= abi_views(before).push(full_abi(*function)));
        }
        i += 1;
        assert(abi_views(abis@) =~= functions.take(i as int).filter(chosen).map_values(convert));
    }
    assert(functions.take(i as int) =~= functions);
    Ok(abis)
}

/// The target functions as calls: each name with the inputs that it starts from.
pub open spec fn target_calls(functions: Seq<FunctionModel>, names: Seq<Seq<char>>) -> Seq<
    FuzzerValue,
> {
    names.map_values(
        |name: Seq<char>|
            FuzzerValue::Function(
                name,
                call_inputs(function_named(functions, name)->0.parameters@),
                None,
            ),
    )
}

/// Every one of these functions exists.
pub open spec fn all_found(functions: Seq<FunctionModel>, names: Seq<Seq<char>>) -> bool {
    forall|i: int| 0 <= i < names.len() ==> function_named(functions, #[trigger] names[i]) is Some
}

/// The interfaces without the first that is called `name`.
pub open spec fn without_first(abis: Seq<FunctionAbiView>, name: Seq<char>) -> Seq<FunctionAbiView>
    decreases abis.len(),
{
    if abis.len() == 0 {
        abis
    } else if abis[0].name == name {
        abis.drop_first()
    } else {
        seq![abis[0]] + without_first(abis.drop_first(), name)
    }
}

/// Interfaces as calls.
pub open spec fn abi_calls(abis: Seq<FunctionAbiView>) -> Seq<FuzzerValue> {
    abis.map_values(|abi: FunctionAbiView| FuzzerValue::Function(abi.name, abi.parameters, None))
}

/// The texts of a list of strings.
pub open spec fn texts(strings: Seq<String>) -> Seq<Seq<char>> {
    strings.map_values(|string: String| string@)
}

/// Makes calls of the target functions.
fn make_target_calls(package: &Vec<ModuleModel>, names: &Vec<String>) -> (calls: Result<
    Vec<FuzzerType>,
    AbiError,
>)
    ensures
        match calls {
            Ok(list) => {
                &&& names@.len() > 0 ==> target_functions(package@) is Some
                &&& target_functions(package@) matches Some(functions) ==> all_found(
                    functions,
                    texts(names@),
                ) && values_of(list@) == target_calls(functions, texts(names@))
            },
            Err(AbiError::ModuleNotFound) => target_functions(package@) is None,
            Err(AbiError::FunctionNotFound) => target_functions(package@) matches Some(functions)
                && !all_found(functions, texts(names@)),
        },
{
    let ghost functions = target_functions(package@)->0;
    let mut calls: Vec<FuzzerType> = Vec::new();
    let mut i: usize = 0;
    while i < names.len()
        invariant
            i <= names.len(),
            calls.len() == i,
            functions == target_functions(package@)->0,
            i > 0 ==> target_functions(package@) is Some,
            forall|j: int|
                0 <= j < i ==> function_named(functions, #[trigger] texts(names@)[j]) is Some,
            forall|j: int|
                0 <= j < i ==> (#[trigger] calls@[j]).value() == target_calls(
                    functions,
                    texts(names@),
                )[j],
        decreases names.len() - i,
    {
        match generate_abi_from_source(package, names[i].as_str()) {
            Err(error) => {
                assert(texts(names@)[i as int] == names@[i as int]@);
                return Err(error);
            },
            Ok((parameters, _)) => {
                let call = FuzzerType::Function(names[i].clone(), parameters, None);
                assert(texts(names@)[i as int] == names@[i as int]@);
                assert(call@ == target_calls(functions, texts(names@))[i as int]);
                calls.push(call);
            },
        }
        i += 1;
    }
    assert(values_of(calls@) =~= target_calls(functions, texts(names@)));
    Ok(calls)
}

/// The position of the first interface that is called `name`.
fn position_of(abis: &Vec<FunctionAbi>, name: &str) -> (position: Option<usize>)
    ensures
        match position {
            Some(i) => {
                &&& i < abis@.len()
                &&& without_first(abi_views(abis@), name@) == abi_views(abis@).remove(i as int)
            },
            None => without_first(abi_views(abis@), name@) == abi_views(abis@),
        },
{
    let ghost views = abi_views(abis@);
    let wanted = name.to_owned();
    let mut i: usize = 0;
    assert(views.take(0) + without_first(views.skip(0), name@) =~= without_first(views, name@)) by {
        assert(views.skip(0) =~= views);
    }
    while i < abis.len()
        invariant
            i <= abis.len(),
            wanted@ == name@,
            views == abi_views(abis@),
            views.take(i as int) + without_first(views.skip(i as int), name@) == without_first(
                views,
                name@,
            ),
        decreases abis.len() - i,
    {
        assert(views.skip(i as int)[0] == abis@[i as int]@);
        assert(views.skip(i as int).drop_first() =~= views.skip(i + 1));
        if abis[i].name == wanted {
            assert(without_first(views, name@) =~= views.remove(i as int));
            return Some(i);
        }
        assert(views.take(i as int) + (seq![views[i as int]] + without_first(
            views.skip(i + 1),
            name@,
        )) =~= views.take(i + 1) + without_first(views.skip(i + 1), name@));
        i += 1;
    }
    assert(without_first(views, name@) =~= views);
    None
}

/// Makes calls of interfaces, dropping what they return.
fn make_abi_calls(abis: Vec<FunctionAbi>) -> (calls: Vec<FuzzerType>)
    ensures
        values_of(calls@) == abi_calls(abi_views(abis@)),
{
    let mut calls: Vec<FuzzerType> = Vec::new();
    let mut i: usize = 0;
    while i < abis.len()
        invariant
            i <= abis.len(),
            calls.len() == i,
            forall|j: int|
                0 <= j < i ==> (#[trigger] calls@[j]).value() == abi_calls(abi_views(abis@))[j],
        decreases abis.len() - i,
    {
        let call = FuzzerType::Function(
            abis[i].name.clone(),
            clone_types(&abis[i].parameters),
            None,
        );
        assert(call@ == abi_calls(abi_views(abis@))[i as int]);
        calls.push(call);
        i += 1;
    }
    assert(values_of(calls@) =~= abi_calls(abi_views(abis@)));
    calls
}

/// How far a call has come.
enum CallStage {
    Targeting,
    Mutating { max_gas: u64 },
    Executing { inputs: Vec<FuzzerType> },
}

/// What a worker is at.
enum WorkerPhase {
    AwaitingSize,
    Drawing { size: u32, picks: Vec<usize> },
    Calling { calls: Vec<FuzzerType>, position: usize, stage: CallStage },
}

/// The mathematical content of a call's stage.
pub ghost enum CallStageView {
    /// The function is to be made the target.
    Targeting,
    /// The inputs are to be mutated; the function has used this much gas at most.
    Mutating { max_gas: u64 },
    /// The target is to be executed with these inputs.
    Executing { inputs: Seq<FuzzerValue> },
}

/// The mathematical content of a worker's phase.
pub ghost enum WorkerPhaseView {
    /// The size of the next sequence is to be drawn.
    AwaitingSize,
    /// As many picks as the size says are to be drawn; these are drawn already.
    Drawing { size: nat, picks: Seq<usize> },
    /// A sequence is being called; so many of its calls were made.
    Calling { calls: Seq<FuzzerValue>, position: nat, stage: CallStageView },
}

impl View for CallStage {
    type V = CallStageView;

    closed spec fn view(&self) -> CallStageView {
        match self {
            CallStage::Targeting => CallStageView::Targeting,
            CallStage::Mutating { max_gas } => CallStageView::Mutating { max_gas: *max_gas },
            CallStage::Executing { inputs } => CallStageView::Executing {
                inputs: values_of(inputs@),
            },
        }
    }
}

impl View for WorkerPhase {
    type V = WorkerPhaseView;

    closed spec fn view(&self) -> WorkerPhaseView {
        match self {
            WorkerPhase::AwaitingSize => WorkerPhaseView::AwaitingSize,
            WorkerPhase::Drawing { size, picks } => WorkerPhaseView::Drawing {
                size: *size as nat,
                picks: picks@,
            },
            WorkerPhase::Calling { calls, position, stage } => WorkerPhaseView::Calling {
                calls: values_of(calls@),
                position: *position as nat,
                stage: stage@,
            },
        }
    }
}

/// Calls sequences of functions and resets the state after each sequence.
pub struct StatefulWorker {
    target_functions: Vec<FuzzerType>,
    fuzz_functions: Vec<FuzzerType>,
    max_call_sequence_size: u32,
    sec_elapsed: u64,
    phase: WorkerPhase,
}

/// The mathematical content of a [`StatefulWorker`].
pub ghost struct StatefulWorkerView {
    pub target_functions: Seq<FuzzerValue>,
    pub fuzz_functions: Seq<FuzzerValue>,
    pub max_call_sequence_size: u32,
    /// How many seconds were counted.
    pub sec_elapsed: u64,
    pub phase: WorkerPhaseView,
}

impl View for StatefulWorker {
    type V = StatefulWorkerView;

    closed spec fn view(&self) -> StatefulWorkerView {
        StatefulWorkerView {
            target_functions: values_of(self.target_functions@),
            fuzz_functions: values_of(self.fuzz_functions@),
            max_call_sequence_size: self.max_call_sequence_size,
            sec_elapsed: self.sec_elapsed,
            phase: self.phase@,
        }
    }
}

/// All of these are functions.
pub open spec fn all_functions(calls: Seq<FuzzerValue>) -> bool {
    forall|i: int| 0 <= i < calls.len() ==> #[trigger] calls[i] is Function
}

impl StatefulWorkerView {
    /// The functions that sequences are made of, those with the prefix first.
    pub open spec fn pool(self) -> Seq<FuzzerValue> {
        self.fuzz_functions + self.target_functions
    }

    /// Everything that is called is a function, picks are drawn only as long as some
    /// are missing, and only calls that are still to be made are under way.
    pub open spec fn well_formed(self) -> bool {
        &&& all_functions(self.fuzz_functions)
        &&& all_functions(self.target_functions)
        &&& match self.phase {
            WorkerPhaseView::AwaitingSize => true,
            WorkerPhaseView::Drawing { size, picks } => {
                &&& self.pool().len() > 0
                &&& self.pool().len() + size <= usize::MAX
                &&& picks.len() < size
                &&& valid_picks(self.pool().len(), picks)
            },
            WorkerPhaseView::Calling { calls, position, stage } => {
                &&& all_functions(calls)
                &&& position <= calls.len()
                &&& position == calls.len() ==> stage is Targeting
            },
        }
    }
}

/// A worker before its first sequence: for the targets of these names and for the
/// functions with this prefix, leaving out the one that prepares the state.
pub open spec fn worker_of(
    functions: Seq<FunctionModel>,
    target_names: Seq<Seq<char>>,
    fuzz_prefix: Seq<char>,
    max_call_sequence_size: u32,
) -> StatefulWorkerView {
    StatefulWorkerView {
        target_functions: target_calls(functions, target_names),
        fuzz_functions: abi_calls(
            without_first(prefixed_abis(functions, fuzz_prefix), "fuzz_init"@),
        ),
        max_call_sequence_size,
        sec_elapsed: 0,
        phase: WorkerPhaseView::AwaitingSize,
    }
}

impl StatefulWorker {
    #[verifier::type_invariant]
    spec fn consistent(&self) -> bool {
        self@.well_formed()
    }

    /// A worker for the target functions and for the functions whose name starts
    /// with `fuzz_prefix`. The function that prepares the state is not among them.
    pub fn new(
        package: &Vec<ModuleModel>,
        target_names: &Vec<String>,
        fuzz_prefix: &str,
        max_call_sequence_size: u32,
    ) -> (worker: Result<Self, AbiError>)
        ensures
            match worker {
                Ok(w) => target_functions(package@) matches Some(functions) && {
                    &&& all_found(functions, texts(target_names@))
                    &&& w@ == (StatefulWorkerView {
                        target_functions: target_calls(functions, texts(target_names@)),
                        fuzz_functions: abi_calls(
                            without_first(prefixed_abis(functions, fuzz_prefix@), "fuzz_init"@),
                        ),
                        max_call_sequence_size,
                        sec_elapsed: 0,
                        phase: WorkerPhaseView::AwaitingSize,
                    })
                    &&& w@ == worker_of(
                        functions,
                        texts(target_names@),
                        fuzz_prefix@,
                        max_call_sequence_size,
                    )
                    &&& w@.well_formed()
                },
                Err(AbiError::ModuleNotFound) => target_functions(package@) is None,
                Err(AbiError::FunctionNotFound) => target_functions(
                    package@,
                ) matches Some(functions) && !all_found(functions, texts(target_names@)),
            },
    {
        let target_functions = match make_target_calls(package, target_names) {
            Err(error) => return Err(error),
            Ok(calls) => calls,
        };
        let mut abis = match generate_abi_from_source_starts_with(package, fuzz_prefix) {
            Err(error) => return Err(error),
            Ok(abis) => abis,
        };
        let ghost views = abi_views(abis@);
        if let Some(position) = position_of(&abis, "fuzz_init") {
            let removed = abis.remove(position);
            assert(abi_views(abis@) =~= views.remove(position as int));
        }
        let fuzz_functions = make_abi_calls(abis);
        Ok(
            StatefulWorker {
                target_functions,
                fuzz_functions,
                max_call_sequence_size,
                sec_elapsed: 0,
                phase: WorkerPhase::AwaitingSize,
            },
        )
    }
}

/// Each pick is a position in the sequence as far as it has grown by then.
pub open spec fn valid_picks(pool: nat, picks: Seq<usize>) -> bool {
    forall|i: int| 0 <= i < picks.len() ==> #[trigger] picks[i] < pool + i
}

/// `pool` followed by repetitions: each pick repeats the call at that position.
pub open spec fn with_repetitions(pool: Seq<FuzzerValue>, picks: Seq<usize>) -> Seq<FuzzerValue>
    decreases picks.len(),
{
    if picks.len() == 0 {
        pool
    } else {
        let shorter = with_repetitions(pool, picks.drop_last());
        shorter.push(shorter[picks.last() as int])
    }
}

/// The items of `calls` in the given order.
pub open spec fn arranged(calls: Seq<FuzzerValue>, order: Seq<usize>) -> Seq<FuzzerValue> {
    order.map_values(|position: usize| calls[position as int])
}

/// Puts calls into a given order.
pub fn arrange_calls(calls: &Vec<FuzzerType>, order: &Vec<usize>) -> (ordered: Vec<FuzzerType>)
    requires
        forall|i: int| 0 <= i < order@.len() ==> #[trigger] order@[i] < calls@.len(),
    ensures
        values_of(ordered@) == arranged(values_of(calls@), order@),
        ordered@.len() == order@.len(),
        forall|i: int|
            0 <= i < order@.len() ==> (#[trigger] ordered@[i])@ == calls@[order@[i] as int]@,
{
    let mut ordered: Vec<FuzzerType> = Vec::new();
    let mut i: usize = 0;
    while i < order.len()
        invariant
            i <= order.len(),
            ordered.len() == i,
            forall|j: int| 0 <= j < order@.len() ==> #[trigger] order@[j] < calls@.len(),
            forall|j: int|
                0 <= j < i ==> (#[trigger] ordered@[j]).value() == arranged(
                    values_of(calls@),
                    order@,
                )[j],
        decreases order.len() - i,
    {
        ordered.push(calls[order[i]].clone());
        i += 1;
    }
    assert(values_of(ordered@) =~= arranged(values_of(calls@), order@));
    ordered
}

/// The positions of a list in order.
pub open spec fn positions(len: nat) -> Seq<usize> {
    Seq::new(len, |i: int| i as usize)
}

/// Every position is the position of its call.
proof fn lemma_arranged_in_order(calls: Seq<FuzzerValue>)
    requires
        calls.len() <= usize::MAX,
    ensures
        arranged(calls, positions(calls.len())) == calls,
{
    assert(arranged(calls, positions(calls.len())) =~= calls);
}

/// Calls at the same positions, each as often, are the same calls, each as often.
proof fn lemma_arranged_multisets(calls: Seq<FuzzerValue>, a: Seq<usize>, b: Seq<usize>)
    requires
        a.to_multiset() == b.to_multiset(),
    ensures
        arranged(calls, a).to_multiset() == arranged(calls, b).to_multiset(),
    decreases a.len(),
{
    broadcast use vstd::seq_lib::group_to_multiset_ensures;

    if a.len() == 0 {
        assert(a.to_multiset().len() == 0);
        assert(b.to_multiset().len() == 0);
        assert(arranged(calls, a) =~= arranged(calls, b));
    } else {
        let last = a.last();
        assert(a.contains(last));
        assert(b.to_multiset().count(last) > 0);
        let i = b.index_of(last);
        let shorter = a.drop_last();
        let rest = b.remove(i);
        assert(shorter =~= a.remove(a.len() - 1));
        assert(shorter.to_multiset() =~= rest.to_multiset());
        lemma_arranged_multisets(calls, shorter, rest);
        assert(arranged(calls, shorter) =~= arranged(calls, a).remove(a.len() - 1));
        assert(arranged(calls, rest) =~= arranged(calls, b).remove(i));
        assert(arranged(calls, a)[a.len() - 1] == arranged(calls, b)[i]);
        let call = arranged(calls, b)[i];
        assert(arranged(calls, a).to_multiset() =~= arranged(calls, shorter).to_multiset().insert(
            call,
        ));
        assert(arranged(calls, b).to_multiset() =~= arranged(calls, rest).to_multiset().insert(
            call,
        ));
    }
}

impl StatefulWorker {
    /// The functions of a sequence in a fixed order: those with the prefix, the
    /// targets, and a repetition for each pick.
    pub fn ordered_calls(&self, picks: &Vec<usize>) -> (calls: Vec<FuzzerType>)
        requires
            valid_picks(self@.pool().len(), picks@),
        ensures
            values_of(calls@) == with_repetitions(self@.pool(), picks@),
            calls@.len() == self@.pool().len() + picks@.len(),
            values_of(calls@).take(self@.pool().len() as int) == self@.fuzz_functions
                + self@.target_functions,
            forall|k: int|
                0 <= k < picks@.len() ==> calls@[self@.pool().len() + k]@
                    == calls@[#[trigger] picks@[k] as int]@,
    {
        let mut calls = clone_types(&self.fuzz_functions);
        let mut targets = clone_types(&self.target_functions);
        calls.append(&mut targets);
        assert(values_of(calls@) =~= self@.pool());
        assert(values_of(calls@).take(self@.pool().len() as int) =~= self@.pool());
        let mut i: usize = 0;
        assert(picks@.take(0) =~= Seq::empty());
        while i < picks.len()
            invariant
                i <= picks.len(),
                valid_picks(self@.pool().len(), picks@),
                calls@.len() == self@.pool().len() + i,
                values_of(calls@) == with_repetitions(self@.pool(), picks@.take(i as int)),
                values_of(calls@).take(self@.pool().len() as int) == self@.pool(),
                forall|k: int|
                    0 <= k < i ==> calls@[self@.pool().len() + k]@
                        == calls@[#[trigger] picks@[k] as int]@,
            decreases picks.len() - i,
        {
            let ghost before = calls@;
            assert(picks@.take(i + 1).drop_last() =~= picks@.take(i as int));
            assert(picks@[i as int] < self@.pool().len() + i);
            let repeated = calls[picks[i]].clone();
            calls.push(repeated);
            assert(values_of(calls@) =~= values_of(before).push(repeated@));
            assert(values_of(calls@).take(self@.pool().len() as int) =~= self@.pool());
            proof {
                assert forall|k: int| 0 <= k < i + 1 implies calls@[self@.pool().len() + k]@
                    == calls@[#[trigger] picks@[k] as int]@ by {
                    assert(picks@[k] < self@.pool().len() + k);
                    if k < i {
                        assert(before[self@.pool().len() + k]@ == before[picks@[k] as int]@);
                    }
                }
            }
            i += 1;
        }
        assert(picks@.take(i as int) =~= picks@);
        calls
    }

    /// A sequence of calls: every function once, and a repetition for each pick,
    /// in random order.
    pub fn generate_call_sequence(&self, picks: &Vec<usize>) -> (calls: Vec<FuzzerType>)
        requires
            valid_picks(self@.pool().len(), picks@),
        ensures
            values_of(calls@).to_multiset() == with_repetitions(
                self@.pool(),
                picks@,
            ).to_multiset(),
    {
        let calls = self.ordered_calls(picks);
        let mut order: Vec<usize> = Vec::new();
        let mut i: usize = 0;
        while i < calls.len()
            invariant
                i <= calls.len(),
                order@ =~= positions(i as nat),
            decreases calls.len() - i,
        {
            order.push(i);
            i += 1;
        }
        let ghost in_order = order@;
        shuffle_indices(&mut order);
        proof {
            let values = values_of(calls@);
            assert forall|j: int| 0 <= j < order@.len() implies #[trigger] order@[j]
                < calls@.len() by {
                broadcast use vstd::seq_lib::group_to_multiset_ensures;

                assert(order@.contains(order@[j]));
                assert(order@.to_multiset().count(order@[j]) > 0);
                assert(in_order.contains(order@[j]));
            }
            lemma_arranged_multisets(values, order@, in_order);
            lemma_arranged_in_order(values);
        }
        arrange_calls(&calls, &order)
    }
}

/// How often the inputs of a call are mutated.
pub const MUTATIONS: usize = 4;

/// What a worker asks for.
pub enum WorkerAction {
    /// Draw the size of a sequence between these bounds, both included.
    DrawSize { least: u64, greatest: u64 },
    /// Draw a pick between these bounds, both included.
    DrawPick { least: u64, greatest: u64 },
    /// Make the function the target, and say how much gas it has used at most.
    SetTarget { function: FuzzerType },
    /// Mutate these inputs so many times, given the gas.
    Mutate { inputs: Vec<FuzzerType>, mutations: usize, gas: Option<u64> },
    /// Execute the target with these inputs.
    Execute { inputs: Vec<FuzzerType> },
    /// Set the runner up anew.
    Reset,
}

/// The mathematical content of a [`WorkerAction`].
pub ghost enum WorkerActionView {
    DrawSize { least: nat, greatest: nat },
    DrawPick { least: nat, greatest: nat },
    SetTarget { function: FuzzerValue },
    Mutate { inputs: Seq<FuzzerValue>, mutations: nat, gas: Option<u64> },
    Execute { inputs: Seq<FuzzerValue> },
    Reset,
}

impl View for WorkerAction {
    type V = WorkerActionView;

    open spec fn view(&self) -> WorkerActionView {
        match self {
            WorkerAction::DrawSize { least, greatest } => WorkerActionView::DrawSize {
                least: *least as nat,
                greatest: *greatest as nat,
            },
            WorkerAction::DrawPick { least, greatest } => WorkerActionView::DrawPick {
                least: *least as nat,
                greatest: *greatest as nat,
            },
            WorkerAction::SetTarget { function } => WorkerActionView::SetTarget {
                function: function@,
            },
            WorkerAction::Mutate { inputs, mutations, gas } => WorkerActionView::Mutate {
                inputs: values_of(inputs@),
                mutations: *mutations as nat,
                gas: *gas,
            },
            WorkerAction::Execute { inputs } => WorkerActionView::Execute {
                inputs: values_of(inputs@),
            },
            WorkerAction::Reset => WorkerActionView::Reset,
        }
    }
}

/// What a worker is told.
pub ghost enum WorkerEventView {
    SizeDrawn { size: u32 },
    PickDrawn { pick: usize },
    TargetSet { max_gas: u64 },
    InputsMutated { inputs: Seq<FuzzerValue> },
    CallExecuted { second_passed: bool, result: Result<u64, Seq<char>> },
    StateReset,
}

/// What a worker reports of a call.
pub enum CallReport {
    /// The function used this much gas.
    GasUsed { function: FuzzerType, gas_used: u64 },
    /// The function failed on these inputs.
    NewCrash { name: String, inputs: Vec<FuzzerType>, error: Error },
}

/// The mathematical content of a [`CallReport`].
pub ghost enum CallReportView {
    GasUsed { function: FuzzerValue, gas_used: u64 },
    NewCrash { name: Seq<char>, inputs: Seq<FuzzerValue>, error: Seq<char> },
}

impl View for CallReport {
    type V = CallReportView;

    open spec fn view(&self) -> CallReportView {
        match self {
            CallReport::GasUsed { function, gas_used } => CallReportView::GasUsed {
                function: function@,
                gas_used: *gas_used,
            },
            CallReport::NewCrash { name, inputs, error } => CallReportView::NewCrash {
                name: name@,
                inputs: values_of(inputs@),
                error: error@,
            },
        }
    }
}

/// The counts after one more call. Where a second has passed, `elapsed` seconds
/// have passed in all.
pub open spec fn counted(stats: Stats, second_passed: bool, elapsed: u64, failed: bool) -> Stats {
    let execs = (stats.execs + 1) as u64;
    Stats {
        execs,
        crashes: if failed {
            (stats.crashes + 1) as u64
        } else {
            stats.crashes
        },
        secs_since_last_cov: if second_passed {
            (stats.secs_since_last_cov + 1) as u64
        } else {
            stats.secs_since_last_cov
        },
        execs_per_sec: if second_passed {
            execs / elapsed
        } else {
            stats.execs_per_sec
        },
    }
}

/// Where the drawing of `size` picks leads once `picks` were drawn: to more drawing,
/// or, when all are drawn, to a sequence of every function and a repetition for each
/// pick, in some order.
pub open spec fn drawing_leads_to(
    pool: Seq<FuzzerValue>,
    size: nat,
    picks: Seq<usize>,
    phase: WorkerPhaseView,
) -> bool {
    if picks.len() < size {
        phase == (WorkerPhaseView::Drawing { size, picks })
    } else {
        &&& phase is Calling
        &&& phase->calls.to_multiset() == with_repetitions(pool, picks).to_multiset()
        &&& phase->position == 0
        &&& phase->stage is Targeting
    }
}

impl StatefulWorkerView {
    /// What the worker asks for: the size of a sequence; as many picks as that says,
    /// each a position in the sequence as far as it has grown by then; for each call
    /// in turn its target, the mutation of the inputs that it starts from, and its
    /// execution; and a reset once all calls were made.
    pub open spec fn next_action(self) -> WorkerActionView {
        match self.phase {
            WorkerPhaseView::AwaitingSize => WorkerActionView::DrawSize {
                least: 1,
                greatest: self.max_call_sequence_size as nat,
            },
            WorkerPhaseView::Drawing { picks, .. } => WorkerActionView::DrawPick {
                least: 0,
                greatest: (self.pool().len() + picks.len() - 1) as nat,
            },
            WorkerPhaseView::Calling { calls, position, stage } => if position < calls.len() {
                match stage {
                    CallStageView::Targeting => WorkerActionView::SetTarget {
                        function: calls[position as int],
                    },
                    CallStageView::Mutating { max_gas } => WorkerActionView::Mutate {
                        inputs: calls[position as int]->Function_1,
                        mutations: MUTATIONS as nat,
                        gas: Some(max_gas),
                    },
                    CallStageView::Executing { inputs } => WorkerActionView::Execute { inputs },
                }
            } else {
                WorkerActionView::Reset
            },
        }
    }

    /// What the worker can be told in its present phase. A sequence needs something to
    /// pick from where anything is picked, and must fit in memory; seconds must not
    /// run out.
    pub open spec fn expects(self, event: WorkerEventView) -> bool {
        match event {
            WorkerEventView::SizeDrawn { size } => {
                &&& self.phase is AwaitingSize
                &&& size > 0 ==> self.pool().len() > 0
                &&& self.pool().len() + size <= usize::MAX
            },
            WorkerEventView::PickDrawn { pick } => {
                &&& self.phase is Drawing
                &&& pick < self.pool().len() + self.phase->picks.len()
            },
            WorkerEventView::TargetSet { .. } => {
                &&& self.phase is Calling
                &&& self.phase->position < self.phase->calls.len()
                &&& self.phase->stage is Targeting
            },
            WorkerEventView::InputsMutated { .. } => {
                &&& self.phase is Calling
                &&& self.phase->stage is Mutating
            },
            WorkerEventView::CallExecuted { second_passed, .. } => {
                &&& self.phase is Calling
                &&& self.phase->stage is Executing
                &&& second_passed ==> self.sec_elapsed < u64::MAX
            },
            WorkerEventView::StateReset => {
                &&& self.phase is Calling
                &&& self.phase->position == self.phase->calls.len()
            },
        }
    }

    /// The worker with a call at another stage.
    pub open spec fn at_stage(self, position: nat, stage: CallStageView) -> StatefulWorkerView {
        StatefulWorkerView {
            phase: WorkerPhaseView::Calling { calls: self.phase->calls, position, stage },
            ..self
        }
    }

    /// The worker may be told of `event`, and stands as `next` then. Only the order of
    /// a new sequence is left to chance.
    pub open spec fn steps(self, event: WorkerEventView, next: StatefulWorkerView) -> bool {
        &&& self.expects(event)
        &&& match event {
            WorkerEventView::SizeDrawn { size } => {
                &&& next == StatefulWorkerView { phase: next.phase, ..self }
                &&& drawing_leads_to(self.pool(), size as nat, Seq::empty(), next.phase)
            },
            WorkerEventView::PickDrawn { pick } => {
                &&& next == StatefulWorkerView { phase: next.phase, ..self }
                &&& drawing_leads_to(
                    self.pool(),
                    self.phase->size,
                    self.phase->picks.push(pick),
                    next.phase,
                )
            },
            WorkerEventView::TargetSet { max_gas } => next == self.at_stage(
                self.phase->position,
                CallStageView::Mutating { max_gas },
            ),
            WorkerEventView::InputsMutated { inputs } => next == self.at_stage(
                self.phase->position,
                CallStageView::Executing { inputs },
            ),
            WorkerEventView::CallExecuted { second_passed, .. } => next == (StatefulWorkerView {
                sec_elapsed: if second_passed {
                    (self.sec_elapsed + 1) as u64
                } else {
                    self.sec_elapsed
                },
                ..self.at_stage(self.phase->position + 1, CallStageView::Targeting)
            }),
            WorkerEventView::StateReset => next == (StatefulWorkerView {
                phase: WorkerPhaseView::AwaitingSize,
                ..self
            }),
        }
    }

    /// What is reported of the call under way when it results in `result`.
    pub open spec fn report(self, result: Result<u64, Seq<char>>) -> CallReportView {
        let function = self.phase->calls[self.phase->position as int];
        match result {
            Ok(gas_used) => CallReportView::GasUsed { function, gas_used },
            Err(error) => CallReportView::NewCrash {
                name: function->Function_0,
                inputs: self.phase->stage->inputs,
                error,
            },
        }
    }
}

/// Sequences are made of functions where the pool is.
proof fn lemma_repetitions_are_functions(pool: Seq<FuzzerValue>, picks: Seq<usize>)
    requires
        all_functions(pool),
        valid_picks(pool.len(), picks),
    ensures
        all_functions(with_repetitions(pool, picks)),
        with_repetitions(pool, picks).len() == pool.len() + picks.len(),
    decreases picks.len(),
{
    if picks.len() > 0 {
        let shorter = picks.drop_last();
        assert forall|i: int| 0 <= i < shorter.len() implies #[trigger] shorter[i] < pool.len()
            + i by {
            assert(picks[i] < pool.len() + i);
        }
        lemma_repetitions_are_functions(pool, shorter);
        assert(picks[picks.len() - 1] < pool.len() + picks.len() - 1);
    }
}

/// What has the calls of a sequence, each as often, is made of functions too.
pub proof fn lemma_sequences_are_functions(
    pool: Seq<FuzzerValue>,
    picks: Seq<usize>,
    calls: Seq<FuzzerValue>,
)
    requires
        all_functions(pool),
        valid_picks(pool.len(), picks),
        calls.to_multiset() == with_repetitions(pool, picks).to_multiset(),
    ensures
        all_functions(calls),
{
    let ordered = with_repetitions(pool, picks);
    lemma_repetitions_are_functions(pool, picks);
    assert forall|i: int| 0 <= i < calls.len() implies #[trigger] calls[i] is Function by {
        broadcast use vstd::seq_lib::group_to_multiset_ensures;

        assert(calls.contains(calls[i]));
        assert(calls.to_multiset().count(calls[i]) > 0);
        assert(ordered.contains(calls[i]));
    }
}

impl StatefulWorker {
    /// What the worker asks for.
    pub fn next_action(&self) -> (action: WorkerAction)
        ensures
            action@ == self@.next_action(),
    {
        proof {
            use_type_invariant(self);
        }
        match &self.phase {
            WorkerPhase::AwaitingSize => WorkerAction::DrawSize {
                least: 1,
                greatest: self.max_call_sequence_size as u64,
            },
            WorkerPhase::Drawing { size, picks } => {
                assert(self@.pool().len() + *size <= usize::MAX);
                let functions: usize = self.fuzz_functions.len() + self.target_functions.len();
                WorkerAction::DrawPick {
                    least: 0,
                    greatest: (functions + picks.len() - 1) as u64,
                }
            },
            WorkerPhase::Calling { calls, position, stage } => {
                if *position == calls.len() {
                    return WorkerAction::Reset;
                }
                let function = &calls[*position];
                assert(values_of(calls@)[*position as int] == function@);
                match stage {
                    CallStage::Targeting => WorkerAction::SetTarget { function: function.clone() },
                    CallStage::Mutating { max_gas } => match function {
                        FuzzerType::Function(_, parameters, _) => WorkerAction::Mutate {
                            inputs: clone_types(parameters),
                            mutations: MUTATIONS,
                            gas: Some(*max_gas),
                        },
                        _ => vstd::pervasive::unreached(),
                    },
                    CallStage::Executing { inputs } => WorkerAction::Execute {
                        inputs: clone_types(inputs),
                    },
                }
            },
        }
    }

    /// Whether a sequence of this size can be made.
    pub fn accepts_size(&self, size: u32) -> (yes: bool)
        ensures
            yes == self@.expects(WorkerEventView::SizeDrawn { size }),
    {
        match &self.phase {
            WorkerPhase::AwaitingSize => {
                match self.fuzz_functions.len().checked_add(self.target_functions.len()) {
                    Some(functions) => (size == 0 || functions > 0) && functions <= usize::MAX - (
                    size as usize),
                    None => false,
                }
            },
            _ => false,
        }
    }

    /// Whether this can be picked.
    pub fn accepts_pick(&self, pick: usize) -> (yes: bool)
        ensures
            yes == self@.expects(WorkerEventView::PickDrawn { pick }),
    {
        proof {
            use_type_invariant(self);
        }
        match &self.phase {
            WorkerPhase::Drawing { size, picks } => {
                assert(self@.pool().len() + *size <= usize::MAX);
                pick < self.fuzz_functions.len() + self.target_functions.len() + picks.len()
            },
            _ => false,
        }
    }

    /// How many seconds were counted.
    pub fn sec_elapsed(&self) -> (sec_elapsed: u64)
        ensures
            sec_elapsed == self@.sec_elapsed,
    {
        self.sec_elapsed
    }

    /// Goes on drawing, or begins the sequence when all picks are drawn.
    fn go_on_drawing(&mut self, size: u32, picks: Vec<usize>)
        requires
            old(self)@.phase is AwaitingSize,
            size > 0 ==> old(self)@.pool().len() > 0,
            old(self)@.pool().len() + size <= usize::MAX,
            valid_picks(old(self)@.pool().len(), picks@),
        ensures
            final(self)@ == (StatefulWorkerView { phase: final(self)@.phase, ..old(self)@ }),
            drawing_leads_to(old(self)@.pool(), size as nat, picks@, final(self)@.phase),
            final(self)@.well_formed(),
    {
        proof {
            use_type_invariant(&*self);
        }
        if picks.len() < size as usize {
            self.phase = WorkerPhase::Drawing { size, picks };
        } else {
            let calls = self.generate_call_sequence(&picks);
            proof {
                lemma_sequences_are_functions(self@.pool(), picks@, values_of(calls@));
            }
            self.phase = WorkerPhase::Calling { calls, position: 0, stage: CallStage::Targeting };
        }
    }

    /// Takes the size of the next sequence.
    pub fn size_drawn(&mut self, size: u32)
        requires
            old(self)@.expects(WorkerEventView::SizeDrawn { size }),
        ensures
            old(self)@.steps(WorkerEventView::SizeDrawn { size }, final(self)@),
            final(self)@.well_formed(),
    {
        let picks: Vec<usize> = Vec::new();
        assert(picks@ =~= Seq::empty());
        self.go_on_drawing(size, picks);
    }

    /// Takes a pick.
    pub fn pick_drawn(&mut self, pick: usize)
        requires
            old(self)@.expects(WorkerEventView::PickDrawn { pick }),
        ensures
            old(self)@.steps(WorkerEventView::PickDrawn { pick }, final(self)@),
            final(self)@.well_formed(),
    {
        proof {
            use_type_invariant(&*self);
        }
        let mut phase = WorkerPhase::AwaitingSize;
        std::mem::swap(&mut phase, &mut self.phase);
        if let WorkerPhase::Drawing { size, mut picks } = phase {
            let ghost before = picks@;
            picks.push(pick);
            proof {
                assert forall|i: int| 0 <= i < picks@.len() implies #[trigger] picks@[i]
                    < self@.pool().len() + i by {
                    if i < before.len() {
                        assert(before[i] < self@.pool().len() + i);
                    }
                }
            }
            self.go_on_drawing(size, picks);
        } else {
            vstd::pervasive::unreached()
        }
    }

    /// Is told that the function of the call is the target now, and how much gas it has
    /// used at most.
    pub fn target_set(&mut self, max_gas: u64)
        requires
            old(self)@.expects(WorkerEventView::TargetSet { max_gas }),
        ensures
            old(self)@.steps(WorkerEventView::TargetSet { max_gas }, final(self)@),
            final(self)@.well_formed(),
    {
        proof {
            use_type_invariant(&*self);
        }
        let mut phase = WorkerPhase::AwaitingSize;
        std::mem::swap(&mut phase, &mut self.phase);
        if let WorkerPhase::Calling { calls, position, .. } = phase {
            self.phase =
            WorkerPhase::Calling { calls, position, stage: CallStage::Mutating { max_gas } };
        } else {
            vstd::pervasive::unreached()
        }
    }

    /// Takes the mutated inputs of the call.
    pub fn inputs_mutated(&mut self, inputs: Vec<FuzzerType>)
        requires
            old(self)@.expects(WorkerEventView::InputsMutated { inputs: values_of(inputs@) }),
        ensures
            old(self)@.steps(
                WorkerEventView::InputsMutated { inputs: values_of(inputs@) },
                final(self)@,
            ),
            final(self)@.well_formed(),
    {
        proof {
            use_type_invariant(&*self);
        }
        let mut phase = WorkerPhase::AwaitingSize;
        std::mem::swap(&mut phase, &mut self.phase);
        if let WorkerPhase::Calling { calls, position, .. } = phase {
            self.phase =
            WorkerPhase::Calling { calls, position, stage: CallStage::Executing { inputs } };
        } else {
            vstd::pervasive::unreached()
        }
    }

    /// Takes the result of the call, counts it, and says what to report.
    /// `second_passed` tells whether a second has passed since it was last told so.
    pub fn call_executed(
        &mut self,
        stats: &mut Stats,
        second_passed: bool,
        result: Result<u64, Error>,
    ) -> (report: CallReport)
        requires
            old(self)@.expects(
                WorkerEventView::CallExecuted { second_passed, result: result_view(result) },
            ),
            old(stats).execs < u64::MAX,
            result is Err ==> old(stats).crashes < u64::MAX,
            second_passed ==> old(stats).secs_since_last_cov < u64::MAX,
        ensures
            old(self)@.steps(
                WorkerEventView::CallExecuted { second_passed, result: result_view(result) },
                final(self)@,
            ),
            *final(stats) == counted(
                *old(stats),
                second_passed,
                final(self)@.sec_elapsed,
                result is Err,
            ),
            report@ == old(self)@.report(result_view(result)),
            final(self)@.well_formed(),
    {
        proof {
            use_type_invariant(&*self);
        }
        let mut phase = WorkerPhase::AwaitingSize;
        std::mem::swap(&mut phase, &mut self.phase);
        if let WorkerPhase::Calling { calls, position, stage: CallStage::Executing { inputs } }
            = phase {
            let function = calls[position].clone();
            assert(function@ == values_of(calls@)[position as int]);
            stats.execs = stats.execs + 1;
            if second_passed {
                let sec_elapsed: u64 = self.sec_elapsed + 1;
                self.sec_elapsed = sec_elapsed;
                stats.secs_since_last_cov = stats.secs_since_last_cov + 1;
                stats.execs_per_sec = stats.execs / sec_elapsed;
            }
            assert(position < calls.len());
            let next: usize = position + 1;
            self.phase =
            WorkerPhase::Calling { calls, position: next, stage: CallStage::Targeting };
            match result {
                Ok(gas_used) => CallReport::GasUsed { function, gas_used },
                Err(error) => {
                    stats.crashes = stats.crashes + 1;
                    match function {
                        FuzzerType::Function(name, _, _) => {
                            CallReport::NewCrash { name, inputs, error }
                        },
                        _ => vstd::pervasive::unreached(),
                    }
                },
            }
        } else {
            vstd::pervasive::unreached()
        }
    }

    /// Is told that the state was reset.
    pub fn state_reset(&mut self)
        requires
            old(self)@.expects(WorkerEventView::StateReset),
        ensures
            old(self)@.steps(WorkerEventView::StateReset, final(self)@),
            final(self)@.well_formed(),
    {
        proof {
            use_type_invariant(&*self);
        }
        self.phase = WorkerPhase::AwaitingSize;
    }
}

} // verus!
