use crate::fuzzer::error::Error;
use crate::mutator::types::{clone_types, FuzzerType};
use crate::runner::aptos_helpers::registry::{AssignedHelpers, Helper};
use crate::runner::call::{CallOutcome, PreparedCall};
use crate::runner::chain::AccountAddress;
use crate::runner::move_model::{AbiError, ModuleModel};
use crate::runner::move_value::{encode_arguments, TransactionArgument};
use crate::runner::package::{publish_payload, resolve_package_address, CompiledModule};
use crate::runner::setup::{
    request_account, SetupAction, SetupEvent, SetupProgress, SetupStage, SetupStep,
};
use crate::runner::stateless_runner::aptos_runner_utils::{
    convert_move_values, generate_abi_from_source, generate_inputs,
};
use crate::runner::table::StringTable;
use crate::runner::transaction::{
    entry_function, is_kept, is_success, Transaction, TransactionOutput, TransactionPayload,
    TransactionStatus,
};
use vstd::prelude::*;

verus! {

use crate::mutator::types::{values_of, FuzzerValue};
use crate::runner::aptos_helpers::registry::{
    initialize_calls, AssignedHelpersView, KNOWN_HELPERS,
};
use crate::runner::call::{are_values_of, result_view};
use crate::runner::move_value::{
    all_encodable, argument_encodings, argument_views, contents_of, MoveValueView,
    TransactionArgumentView,
};
use crate::runner::package::{module_views, package_address, publication, CompiledModuleView};
use crate::runner::setup::{
    account_request, call_transaction, SetupActionView, SetupProgressView, SetupStepView,
};
use crate::runner::stateless_runner::aptos_runner_utils::{
    arguments_of, function_abi, lemma_arguments_encodable,
};
use crate::runner::transaction::{name_error, TransactionView};

/// The balance of an account that is opened for a package without an address.
pub const ACCOUNT_BALANCE: u64 = 10_000_000_000;

/// The gas price of every transaction.
pub const GAS_UNIT_PRICE: u64 = 100;

/// How far a runner has come with its setup.
enum RunnerState {
    Fresh,
    AwaitingAccount,
    Running { progress: SetupProgress, sequence_number: u64 },
    Ready { package_address: AccountAddress, sequence_number: u64 },
}

/// The mathematical content of the state of a runner.
pub ghost enum RunnerStateView {
    /// Nothing was done yet.
    Fresh,
    /// An account was asked for.
    AwaitingAccount,
    /// A transaction of the setup was asked for. The next one has this number.
    Running { progress: SetupProgressView, sequence_number: u64 },
    /// The package is in place. Every call has this number.
    Ready { package_address: Seq<u8>, sequence_number: u64 },
}

/// Runs one entry function again and again on the state that the setup left,
/// without ever committing what a call changes.
pub struct StatelessAptosRunner {
    target_module: String,
    target_function: FuzzerType,
    modules: Vec<CompiledModule>,
    package_metadata: Vec<u8>,
    max_coverage: usize,
    helpers: AssignedHelpers,
    state: RunnerState,
}

/// The mathematical content of a [`StatelessAptosRunner`].
pub ghost struct StatelessAptosRunnerView {
    pub target_module: Seq<char>,
    pub target_function: FuzzerValue,
    pub modules: Seq<CompiledModuleView>,
    pub package_metadata: Seq<u8>,
    pub max_coverage: usize,
    pub helpers: AssignedHelpersView,
    pub state: RunnerStateView,
}

impl View for RunnerState {
    type V = RunnerStateView;

    closed spec fn view(&self) -> RunnerStateView {
        match self {
            RunnerState::Fresh => RunnerStateView::Fresh,
            RunnerState::AwaitingAccount => RunnerStateView::AwaitingAccount,
            RunnerState::Running { progress, sequence_number } => RunnerStateView::Running {
                progress: progress@,
                sequence_number: *sequence_number,
            },
            RunnerState::Ready { package_address, sequence_number } => RunnerStateView::Ready {
                package_address: package_address@,
                sequence_number: *sequence_number,
            },
        }
    }
}

impl View for StatelessAptosRunner {
    type V = StatelessAptosRunnerView;

    closed spec fn view(&self) -> StatelessAptosRunnerView {
        StatelessAptosRunnerView {
            target_module: self.target_module@,
            target_function: self.target_function@,
            modules: module_views(self.modules@),
            package_metadata: self.package_metadata@,
            max_coverage: self.max_coverage,
            helpers: self.helpers@,
            state: self.state@,
        }
    }
}

/// The answer to a transaction of the setup is committed: a call of `initialize`
/// where it succeeded, any other transaction where it was kept.
pub open spec fn is_applied(stage: SetupStage, status: TransactionStatus) -> bool {
    match stage {
        SetupStage::Initializing => status.succeeded(),
        _ => status.kept(),
    }
}

/// The answer to a transaction of the setup uses up a sequence number: the call of
/// `fuzz_init` where it was kept, any other transaction where it succeeded.
pub open spec fn is_counted(stage: SetupStage, status: TransactionStatus) -> bool {
    match stage {
        SetupStage::FuzzInit => status.kept(),
        _ => status.succeeded(),
    }
}

impl StatelessAptosRunnerView {
    /// What a runner can be told in its present state.
    pub open spec fn expects(self, event: SetupEvent) -> bool {
        match event {
            SetupEvent::Start => self.state is Fresh || self.state is Ready,
            SetupEvent::AccountOpened(_) => self.state is AwaitingAccount,
            SetupEvent::Executed(_) => self.state is Running,
        }
    }

    /// The runner once it was told that the last transaction of its setup was
    /// answered with `status`, and what it asks for then.
    pub open spec fn after_output(self, status: TransactionStatus) -> (
        StatelessAptosRunnerView,
        SetupActionView,
    )
        recommends
            self.state is Running,
    {
        let stage = self.state->progress.stage;
        let sequence_number = if is_counted(stage, status) {
            (self.state->Running_sequence_number + 1) as u64
        } else {
            self.state->Running_sequence_number
        };
        let progress = if stage is Publishing && !status.succeeded() {
            SetupProgressView { calls: Seq::empty(), ..self.state->progress }
        } else {
            self.state->progress
        };
        let call = progress.next_call(self.target_module, sequence_number, Some(GAS_UNIT_PRICE));
        let ready = RunnerStateView::Ready {
            package_address: progress.package_address,
            sequence_number,
        };
        if stage is FuzzInit || call is None {
            (
                StatelessAptosRunnerView { state: ready, ..self },
                SetupActionView {
                    reset_chain: false,
                    apply_write_set: is_applied(stage, status),
                    step: SetupStepView::Finished,
                },
            )
        } else {
            (
                StatelessAptosRunnerView {
                    state: RunnerStateView::Running {
                        progress: progress.advanced(),
                        sequence_number,
                    },
                    ..self
                },
                SetupActionView {
                    reset_chain: false,
                    apply_write_set: is_applied(stage, status),
                    step: SetupStepView::Execute(call->0),
                },
            )
        }
    }

    /// The runner once it was told of an event of its setup, and what it asks for
    /// then. A runner that is ready has nothing more to ask for.
    pub open spec fn after_event(self, event: SetupEvent) -> (
        StatelessAptosRunnerView,
        SetupActionView,
    ) {
        match event {
            SetupEvent::Start => if self.state is Ready {
                (
                    self,
                    SetupActionView {
                        reset_chain: false,
                        apply_write_set: false,
                        step: SetupStepView::Finished,
                    },
                )
            } else {
                (
                    StatelessAptosRunnerView { state: RunnerStateView::AwaitingAccount, ..self },
                    SetupActionView {
                        reset_chain: true,
                        apply_write_set: false,
                        step: SetupStepView::OpenAccount(
                            account_request(
                                package_address(self.modules, self.target_module),
                                ACCOUNT_BALANCE,
                            ),
                        ),
                    },
                )
            },
            SetupEvent::AccountOpened(address) => (
                StatelessAptosRunnerView {
                    state: RunnerStateView::Running {
                        progress: SetupProgressView {
                            stage: SetupStage::Publishing,
                            package_address: address@,
                            calls: initialize_calls(self.helpers.helpers, address@),
                        },
                        sequence_number: 0,
                    },
                    ..self
                },
                SetupActionView {
                    reset_chain: false,
                    apply_write_set: false,
                    step: SetupStepView::Execute(
                        TransactionView {
                            payload: publication(self.package_metadata, self.modules),
                            sequence_number: 0,
                            gas_unit_price: Some(GAS_UNIT_PRICE),
                        },
                    ),
                },
            ),
            SetupEvent::Executed(status) => self.after_output(status),
        }
    }

    /// While the runner sets up, its sequence number counts what came before.
    pub open spec fn well_formed(self) -> bool {
        &&& self.helpers.well_formed()
        &&& self.state matches RunnerStateView::Running { progress, sequence_number } ==> {
            match progress.stage {
                SetupStage::Publishing => {
                    &&& sequence_number == 0
                    &&& progress.calls.len() <= KNOWN_HELPERS
                },
                SetupStage::Initializing => {
                    &&& sequence_number >= 1
                    &&& sequence_number + progress.calls.len() <= KNOWN_HELPERS
                },
                SetupStage::FuzzInit => {
                    &&& sequence_number <= 1 + KNOWN_HELPERS
                    &&& progress.calls.len() == 0
                },
            }
        }
    }
}

impl StatelessAptosRunner {
    #[verifier::type_invariant]
    spec fn consistent(&self) -> bool {
        self@.well_formed()
    }
}

impl StatelessAptosRunner {
    /// A runner for a function of a module. Its inputs are read from the model of
    /// the package.
    pub fn new(
        package: &Vec<ModuleModel>,
        target_module: &str,
        target_function: &str,
        package_metadata: Vec<u8>,
        modules: Vec<CompiledModule>,
        seed: u64,
        aptos_helpers: StringTable<String>,
    ) -> (runner: Result<Self, AbiError>)
        ensures
            match runner {
                Ok(r) => {
                    &&& function_abi(package@, target_function@) matches Ok((
                        parameters,
                        max_coverage,
                    )) && {
                        &&& r@.target_function == FuzzerValue::Function(
                            target_function@,
                            parameters,
                            None,
                        )
                        &&& r@.max_coverage == max_coverage
                    }
                    &&& r@.target_module == target_module@
                    &&& r@.modules == module_views(modules@)
                    &&& r@.package_metadata == package_metadata@
                    &&& r@.state == RunnerStateView::Fresh
                    &&& r@.well_formed()
                    &&& r@.helpers.configured(&aptos_helpers, seed)
                },
                Err(error) => function_abi(package@, target_function@) == Err::<
                    (Seq<FuzzerValue>, nat),
                    AbiError,
                >(error),
            },
    {
        match generate_abi_from_source(package, target_function) {
            Err(error) => Err(error),
            Ok((parameters, max_coverage)) => {
                let target_function = FuzzerType::Function(
                    target_function.to_owned(),
                    parameters,
                    None,
                );
                let helpers = AssignedHelpers::new(aptos_helpers, seed);
                Ok(
                    StatelessAptosRunner {
                        target_module: target_module.to_owned(),
                        target_function,
                        modules,
                        package_metadata,
                        max_coverage,
                        helpers,
                        state: RunnerState::Fresh,
                    },
                )
            },
        }
    }

    /// The helper of a function of the target module.
    pub fn helper_for_function(&self, function_name: &str) -> (helper: Option<&Helper>)
        ensures
            match helper {
                Some(h) => self@.helpers.helper_for(self@.target_module, function_name@) == Some(
                    h@,
                ),
                None => self@.helpers.helper_for(self@.target_module, function_name@) is None,
            },
    {
        self.helpers.helper_for(self.target_module.as_str(), function_name)
    }

    /// Sets the runner up, one event at a time: on a chain in its genesis state an
    /// account is opened, the package is published, helpers initialize it where that
    /// succeeded, and `fuzz_init` is called. After that the runner is ready, whatever
    /// the answers were.
    pub fn ensure_initialized(&mut self, event: SetupEvent) -> (action: SetupAction)
        requires
            old(self)@.expects(event),
        ensures
            (final(self)@, action@) == old(self)@.after_event(event),
            final(self)@.well_formed(),
    {
        proof {
            use_type_invariant(&*self);
        }
        match event {
            SetupEvent::Start => self.start(),
            SetupEvent::AccountOpened(address) => self.publish_modules(address),
            SetupEvent::Executed(status) => self.record_output(&status),
        }
    }

    /// Whether the setup is over.
    pub fn is_initialized(&self) -> (initialized: bool)
        ensures
            initialized == self@.state is Ready,
    {
        match &self.state {
            RunnerState::Ready { .. } => true,
            _ => false,
        }
    }

    /// Asks for the account of the package.
    fn start(&mut self) -> (action: SetupAction)
        requires
            old(self)@.expects(SetupEvent::Start),
        ensures
            (final(self)@, action@) == old(self)@.after_event(SetupEvent::Start),
            final(self)@.well_formed(),
    {
        proof {
            use_type_invariant(&*self);
        }
        if let RunnerState::Ready { .. } = &self.state {
            return SetupAction {
                reset_chain: false,
                apply_write_set: false,
                step: SetupStep::Finished,
            };
        }
        let address = resolve_package_address(&self.modules, self.target_module.as_str());
        self.state = RunnerState::AwaitingAccount;
        SetupAction {
            reset_chain: true,
            apply_write_set: false,
            step: SetupStep::OpenAccount(request_account(address, ACCOUNT_BALANCE)),
        }
    }

    /// Publishes the package under the account that was opened for it.
    fn publish_modules(&mut self, address: AccountAddress) -> (action: SetupAction)
        requires
            old(self)@.expects(SetupEvent::AccountOpened(address)),
        ensures
            (final(self)@, action@) == old(self)@.after_event(SetupEvent::AccountOpened(address)),
            final(self)@.well_formed(),
    {
        proof {
            use_type_invariant(&*self);
        }
        let calls = self.helpers.initialize_calls(&address);
        self.state =
        RunnerState::Running {
            progress: SetupProgress {
                stage: SetupStage::Publishing,
                package_address: address,
                calls,
            },
            sequence_number: 0,
        };
        SetupAction {
            reset_chain: false,
            apply_write_set: false,
            step: SetupStep::Execute(
                Transaction {
                    payload: publish_payload(&self.package_metadata, &self.modules),
                    sequence_number: 0,
                    gas_unit_price: Some(GAS_UNIT_PRICE),
                },
            ),
        }
    }

    /// Takes the answer to a transaction of the setup.
    fn record_output(&mut self, status: &TransactionStatus) -> (action: SetupAction)
        requires
            old(self)@.state is Running,
        ensures
            (final(self)@, action@) == old(self)@.after_output(*status),
            final(self)@.well_formed(),
    {
        proof {
            use_type_invariant(&*self);
        }
        let mut state = RunnerState::Fresh;
        std::mem::swap(&mut state, &mut self.state);
        if let RunnerState::Running { mut progress, sequence_number } = state {
            let kept = is_kept(status);
            let success = is_success(status);
            let (apply_write_set, counted) = match progress.stage {
                SetupStage::Publishing => (kept, success),
                SetupStage::Initializing => (success, success),
                SetupStage::FuzzInit => (kept, kept),
            };
            let next_number: u64 = if counted {
                sequence_number + 1
            } else {
                sequence_number
            };
            let package_address = progress.package_address;
            let ready = RunnerState::Ready { package_address, sequence_number: next_number };
            if let SetupStage::FuzzInit = progress.stage {
                self.state = ready;
                return SetupAction {
                    reset_chain: false,
                    apply_write_set,
                    step: SetupStep::Finished,
                };
            }
            if let SetupStage::Publishing = progress.stage {
                if !success {
                    progress.calls = Vec::new();
                    assert(progress@.calls =~= Seq::empty());
                }
            }
            match progress.advance(
                self.target_module.as_str(),
                next_number,
                Some(GAS_UNIT_PRICE),
            ) {
                Some(transaction) => {
                    self.state = RunnerState::Running { progress, sequence_number: next_number };
                    SetupAction {
                        reset_chain: false,
                        apply_write_set,
                        step: SetupStep::Execute(transaction),
                    }
                },
                None => {
                    self.state = ready;
                    SetupAction { reset_chain: false, apply_write_set, step: SetupStep::Finished }
                },
            }
        } else {
            vstd::pervasive::unreached()
        }
    }
}

impl StatelessAptosRunnerView {
    /// The name of the target, where it is a function.
    pub open spec fn function_name(self) -> Option<Seq<char>> {
        match self.target_function {
            FuzzerValue::Function(name, _, _) => Some(name),
            _ => None,
        }
    }

    /// Why the target cannot be called at all, where it cannot: it is no function,
    /// or a name is no identifier.
    pub open spec fn call_error(self) -> Option<Seq<char>> {
        match self.function_name() {
            Some(name) => name_error(self.target_module, name),
            None => Some("Invalid target function type"@),
        }
    }

    /// The target can be called with these inputs.
    pub open spec fn accepts(self, inputs: Seq<FuzzerValue>) -> bool {
        match self.function_name() {
            Some(name) => self.helpers.accepts(self.target_module, name, inputs),
            None => true,
        }
    }

    /// The transaction that calls a function of the target module. Every call has
    /// the sequence number that the setup left.
    pub open spec fn call(
        self,
        function: Seq<char>,
        args: Seq<TransactionArgumentView>,
    ) -> TransactionView
        recommends
            self.state is Ready,
    {
        call_transaction(
            self.state->package_address,
            self.target_module,
            function,
            argument_encodings(args),
            self.state->Ready_sequence_number,
            Some(GAS_UNIT_PRICE),
        )
    }
}

/// What a call that was answered with `output` results in.
pub open spec fn call_result(output: TransactionOutput) -> Result<u64, Seq<char>> {
    match output.status {
        TransactionStatus::Keep(_) => Ok(output.gas_used),
        TransactionStatus::Discard(reason) => Err("Transaction discarded: "@ + reason@),
        TransactionStatus::Retry => Err("Transaction retry requested"@),
    }
}

impl StatelessAptosRunner {
    /// Whether the target can be called with these inputs.
    pub fn accepts(&self, inputs: &Vec<FuzzerType>) -> (yes: bool)
        ensures
            yes == self@.accepts(values_of(inputs@)),
    {
        match &self.target_function {
            FuzzerType::Function(name, _, _) => self.helpers.accepts(
                self.target_module.as_str(),
                name.as_str(),
                inputs,
            ),
            _ => true,
        }
    }

    /// Prepares a call of the target: its helper replaces the inputs, they become
    /// Move values, and those that can become arguments.
    pub fn prepare(&self, inputs: Vec<FuzzerType>) -> (prepared: Result<PreparedCall, Error>)
        requires
            self@.accepts(values_of(inputs@)),
        ensures
            match prepared {
                Ok(call) => {
                    &&& self@.function_name() == Some(call.function@)
                    &&& exists|values: Seq<MoveValueView>| #[trigger]
                        are_values_of(
                            values,
                            self@.helpers.adjusted(
                                self@.target_module,
                                call.function@,
                                values_of(inputs@),
                            ),
                        ) && argument_views(call.args@) == arguments_of(values)
                    &&& all_encodable(argument_views(call.args@))
                },
                Err(error) => {
                    &&& self@.function_name() is None
                    &&& error@ == "Invalid target function type"@
                },
            },
    {
        match &self.target_function {
            FuzzerType::Function(name, _, _) => {
                let function = name.clone();
                let adjusted = self.helpers.adjust_inputs(
                    self.target_module.as_str(),
                    function.as_str(),
                    &inputs,
                );
                let ghost adjusted_values = self@.helpers.adjusted(
                    self@.target_module,
                    function@,
                    values_of(inputs@),
                );
                let values = generate_inputs(adjusted);
                let args = convert_move_values(&values);
                proof {
                    assert(are_values_of(contents_of(values@), adjusted_values));
                    lemma_arguments_encodable(adjusted_values, contents_of(values@));
                }
                Ok(PreparedCall { function, args })
            },
            _ => Err(Error::unknown("Invalid target function type")),
        }
    }

    /// The transaction that makes a prepared call.
    pub fn send_transaction(&self, target_function: &str, args: &Vec<TransactionArgument>) -> (sent:
        Result<Transaction, Error>)
        requires
            self@.state is Ready,
            all_encodable(argument_views(args@)),
        ensures
            match sent {
                Ok(transaction) => {
                    &&& name_error(self@.target_module, target_function@) is None
                    &&& transaction@ == self@.call(target_function@, argument_views(args@))
                },
                Err(error) => name_error(self@.target_module, target_function@) == Some(error@),
            },
    {
        if let RunnerState::Ready { package_address, sequence_number } = &self.state {
            match entry_function(
                *package_address,
                self.target_module.as_str(),
                target_function,
                encode_arguments(args),
            ) {
                Ok(call) => Ok(
                    Transaction {
                        payload: TransactionPayload::EntryFunction(call),
                        sequence_number: *sequence_number,
                        gas_unit_price: Some(GAS_UNIT_PRICE),
                    },
                ),
                Err(error) => Err(error),
            }
        } else {
            vstd::pervasive::unreached()
        }
    }

    /// The transaction by which a runner that is ready calls the target with these
    /// inputs. Once it was executed, its answer goes to [`Self::complete`].
    pub fn execute(&self, inputs: Vec<FuzzerType>) -> (sent: Result<Transaction, Error>)
        requires
            self@.state is Ready,
            self@.accepts(values_of(inputs@)),
        ensures
            match sent {
                Ok(transaction) => {
                    &&& self@.call_error() is None
                    &&& exists|values: Seq<MoveValueView>| #[trigger]
                        are_values_of(
                            values,
                            self@.helpers.adjusted(
                                self@.target_module,
                                self@.function_name()->0,
                                values_of(inputs@),
                            ),
                        ) && transaction@ == self@.call(
                            self@.function_name()->0,
                            arguments_of(values),
                        )
                },
                Err(error) => self@.call_error() == Some(error@),
            },
    {
        match self.prepare(inputs) {
            Ok(call) => self.send_transaction(call.function.as_str(), &call.args),
            Err(error) => Err(error),
        }
    }

    /// Takes the answer to a call. What the call changed is never committed, and
    /// the runner itself stays as it is.
    pub fn complete(&self, output: TransactionOutput) -> (outcome: CallOutcome)
        ensures
            !outcome.apply_write_set,
            result_view(outcome.result) == call_result(output),
            output.status is Keep ==> outcome.result == Ok::<u64, Error>(output.gas_used),
            !(output.status is Keep) ==> outcome.result is Err,
    {
        let result = match output.status {
            TransactionStatus::Keep(_) => Ok(output.gas_used),
            TransactionStatus::Discard(reason) => Err(
                Error::with_detail("Transaction discarded: ", reason.as_str()),
            ),
            TransactionStatus::Retry => Err(Error::unknown("Transaction retry requested")),
        };
        CallOutcome { apply_write_set: false, result }
    }

    pub fn set_target_function(&mut self, function: &FuzzerType)
        ensures
            final(self)@ == (StatelessAptosRunnerView {
                target_function: function@,
                ..old(self)@
            }),
    {
        proof {
            use_type_invariant(&*self);
        }
        let copy = function.clone();
        self.target_function = copy;
    }

    /// The inputs that the target starts from; none where it is no function.
    pub fn get_target_parameters(&self) -> (parameters: Vec<FuzzerType>)
        ensures
            values_of(parameters@) == match self@.target_function {
                FuzzerValue::Function(_, parameters, _) => parameters,
                _ => Seq::empty(),
            },
    {
        match &self.target_function {
            FuzzerType::Function(_, parameters, _) => clone_types(parameters),
            _ => {
                let none: Vec<FuzzerType> = Vec::new();
                assert(values_of(none@) =~= Seq::empty());
                none
            },
        }
    }

    pub fn get_target_module(&self) -> (module: String)
        ensures
            module@ == self@.target_module,
    {
        self.target_module.clone()
    }

    pub fn get_target_function(&self) -> (function: FuzzerType)
        ensures
            function@ == self@.target_function,
    {
        self.target_function.clone()
    }

    pub fn get_max_coverage(&self) -> (max_coverage: usize)
        ensures
            max_coverage == self@.max_coverage,
    {
        self.max_coverage
    }
}

} // verus!
