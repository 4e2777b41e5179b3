use crate::fuzzer::error::Error;
use crate::mutator::types::{clone_types, FuzzerType};
use crate::runner::aptos_helpers::registry::{AssignedHelpers, Helper};
use crate::runner::call::{CallOutcome, PreparedCall};
use crate::runner::chain::AccountAddress;
use crate::runner::move_value::{encode_arguments, MoveValue, TransactionArgument};
use crate::runner::package::{publish_payload, resolve_package_address, CompiledModule};
use crate::runner::setup::{
    request_account, SetupAction, SetupEvent, SetupProgress, SetupStage, SetupStep,
};
use crate::runner::stateless_runner::aptos_runner_utils::convert_move_value_to_aptos_arg;
use crate::runner::table::StringTable;
use crate::runner::transaction::{
    entry_function, ExecutionStatus, Transaction, TransactionOutput, TransactionPayload,
    TransactionStatus,
};
use vstd::prelude::*;

pub use crate::runner::stateless_runner::aptos_runner_utils::generate_inputs;

verus! {

use crate::mutator::types::{values_of, FuzzerValue};
use crate::runner::stateful_runner::laws::after_call;
use crate::runner::aptos_helpers::registry::{
    initialize_calls, AssignedHelpersView, KNOWN_HELPERS,
};
use crate::runner::call::{are_values_of, result_view};
use crate::runner::move_value::{
    all_encodable, argument_encodings, argument_views, contents_of, MoveValueView,
    TransactionArgumentView,
};
use crate::runner::package::{module_views, package_address, publication, CompiledModuleView};
use crate::runner::setup::{
    account_request, call_transaction, SetupActionView, SetupProgressView, SetupStepView,
};
use crate::runner::stateless_runner::aptos_runner_utils::{
    argument_of, has_short_bytes, lemma_arguments_encodable, optional_argument,
};
use crate::runner::transaction::{name_error, TransactionView};

/// The balance of an account that is opened for a package without an address.
pub const ACCOUNT_BALANCE: u64 = 1_000_000_000_000_000;

/// The coverage to reach. Gas is what guides the fuzzer, so this is nominal.
pub const MAX_COVERAGE: usize = 100;

/// How far a runner has come with a setup.
enum SetupState {
    Idle,
    AwaitingAccount,
    Running(SetupProgress),
}

/// The mathematical content of the state of a setup.
pub ghost enum SetupStateView {
    /// No setup is under way.
    Idle,
    /// An account was asked for.
    AwaitingAccount,
    /// A transaction of the setup was asked for.
    Running(SetupProgressView),
}

/// Runs sequences of calls, each on the state that the call before it left.
pub struct AptosRunner {
    target_module: String,
    target_function: Option<FuzzerType>,
    modules: Vec<CompiledModule>,
    package_metadata: Vec<u8>,
    package_address: AccountAddress,
    sequence_number: u64,
    helpers: AssignedHelpers,
    setup: SetupState,
}

/// The mathematical content of an [`AptosRunner`].
pub ghost struct AptosRunnerView {
    pub target_module: Seq<char>,
    pub target_function: Option<FuzzerValue>,
    pub modules: Seq<CompiledModuleView>,
    pub package_metadata: Seq<u8>,
    pub package_address: Seq<u8>,
    /// The number of the next transaction.
    pub sequence_number: u64,
    pub helpers: AssignedHelpersView,
    pub setup: SetupStateView,
}

impl View for SetupState {
    type V = SetupStateView;

    closed spec fn view(&self) -> SetupStateView {
        match self {
            SetupState::Idle => SetupStateView::Idle,
            SetupState::AwaitingAccount => SetupStateView::AwaitingAccount,
            SetupState::Running(progress) => SetupStateView::Running(progress@),
        }
    }
}

impl View for AptosRunner {
    type V = AptosRunnerView;

    closed spec fn view(&self) -> AptosRunnerView {
        AptosRunnerView {
            target_module: self.target_module@,
            target_function: match self.target_function {
                Some(function) => Some(function@),
                None => None,
            },
            modules: module_views(self.modules@),
            package_metadata: self.package_metadata@,
            package_address: self.package_address@,
            sequence_number: self.sequence_number,
            helpers: self.helpers@,
            setup: self.setup@,
        }
    }
}

/// The address that stands in until a package is published: one.
pub open spec fn framework_address() -> Seq<u8> {
    Seq::new(31, |i: int| 0u8).push(1)
}

/// Why a package whose publication was answered with `status` cannot be used.
pub open spec fn publish_error(status: TransactionStatus) -> Option<Seq<char>> {
    match status {
        TransactionStatus::Keep(ExecutionStatus::Success) => None,
        TransactionStatus::Keep(ExecutionStatus::Failure(reason)) => Some(
            "Publish failed with status: "@ + reason@,
        ),
        TransactionStatus::Discard(reason) => Some("Publish discarded: "@ + reason@),
        TransactionStatus::Retry => Some("Publish needs retry"@),
    }
}

impl AptosRunnerView {
    /// The runner works on this package with these helpers. Nothing that a runner
    /// does changes that.
    pub open spec fn made_from(
        self,
        target_module: Seq<char>,
        package_metadata: Seq<u8>,
        modules: Seq<CompiledModuleView>,
        aptos_helpers: &StringTable<String>,
        seed: u64,
    ) -> bool {
        &&& self.target_module == target_module
        &&& self.package_metadata == package_metadata
        &&& self.modules == modules
        &&& self.helpers.configured(aptos_helpers, seed)
        &&& self.helpers.well_formed()
    }

    /// What a runner can be told in its present state.
    pub open spec fn expects(self, event: SetupEvent) -> bool {
        match event {
            SetupEvent::Start => self.setup is Idle,
            SetupEvent::AccountOpened(_) => self.setup is AwaitingAccount,
            SetupEvent::Executed(_) => self.setup is Running,
        }
    }

    /// While the runner sets up, its sequence number counts what came before.
    pub open spec fn well_formed(self) -> bool {
        &&& self.helpers.well_formed()
        &&& self.setup is AwaitingAccount ==> self.sequence_number == 0
        &&& self.setup matches SetupStateView::Running(progress) ==> {
            match progress.stage {
                SetupStage::Publishing => {
                    &&& self.sequence_number == 0
                    &&& progress.calls.len() <= KNOWN_HELPERS
                },
                SetupStage::Initializing => {
                    self.sequence_number + progress.calls.len() <= KNOWN_HELPERS
                },
                SetupStage::FuzzInit => {
                    &&& self.sequence_number <= 1 + KNOWN_HELPERS
                    &&& progress.calls.len() == 0
                },
            }
        }
    }

    /// The runner with its next call after publication, and what it asks for then.
    pub open spec fn with_next_call(self, progress: SetupProgressView, apply_write_set: bool) -> (
        AptosRunnerView,
        SetupActionView,
    ) {
        match progress.next_call(self.target_module, self.sequence_number, None) {
            Some(call) => (
                AptosRunnerView { setup: SetupStateView::Running(progress.advanced()), ..self },
                SetupActionView {
                    reset_chain: false,
                    apply_write_set,
                    step: SetupStepView::Execute(call),
                },
            ),
            None => (
                AptosRunnerView { setup: SetupStateView::Idle, ..self },
                SetupActionView {
                    reset_chain: false,
                    apply_write_set,
                    step: SetupStepView::Finished,
                },
            ),
        }
    }

    /// The runner once it was told of an event of its setup, and what it asks for
    /// then. A setup starts over: on a chain in its genesis state, with sequence
    /// number zero.
    pub open spec fn after_event(self, event: SetupEvent) -> (AptosRunnerView, SetupActionView) {
        match event {
            SetupEvent::Start => (
                AptosRunnerView {
                    setup: SetupStateView::AwaitingAccount,
                    sequence_number: 0,
                    ..self
                },
                SetupActionView {
                    reset_chain: true,
                    apply_write_set: false,
                    step: SetupStepView::OpenAccount(
                        account_request(
                            package_address(self.modules, self.target_module),
                            ACCOUNT_BALANCE,
                        ),
                    ),
                },
            ),
            SetupEvent::AccountOpened(address) => {
                let progress = SetupProgressView {
                    stage: SetupStage::Publishing,
                    package_address: address@,
                    calls: initialize_calls(self.helpers.helpers, address@),
                };
                let settled = AptosRunnerView { package_address: address@, ..self };
                if self.modules.len() > 0 {
                    (
                        AptosRunnerView { setup: SetupStateView::Running(progress), ..settled },
                        SetupActionView {
                            reset_chain: false,
                            apply_write_set: false,
                            step: SetupStepView::Execute(
                                TransactionView {
                                    payload: publication(self.package_metadata, self.modules),
                                    sequence_number: self.sequence_number,
                                    gas_unit_price: None,
                                },
                            ),
                        },
                    )
                } else {
                    settled.with_next_call(progress, false)
                }
            },
            SetupEvent::Executed(status) => {
                let progress = self.setup->Running_0;
                let counted = AptosRunnerView {
                    sequence_number: (self.sequence_number + 1) as u64,
                    ..self
                };
                match progress.stage {
                    SetupStage::Publishing => match publish_error(status) {
                        Some(message) => (
                            AptosRunnerView { setup: SetupStateView::Idle, ..self },
                            SetupActionView {
                                reset_chain: false,
                                apply_write_set: false,
                                step: SetupStepView::Failed(message),
                            },
                        ),
                        None => counted.with_next_call(progress, true),
                    },
                    SetupStage::Initializing => counted.with_next_call(progress, true),
                    SetupStage::FuzzInit => (
                        AptosRunnerView { setup: SetupStateView::Idle, ..counted },
                        SetupActionView {
                            reset_chain: false,
                            apply_write_set: true,
                            step: SetupStepView::Finished,
                        },
                    ),
                }
            },
        }
    }

    /// The name of the target, where it is a function.
    pub open spec fn function_name(self) -> Option<Seq<char>> {
        match self.target_function {
            Some(FuzzerValue::Function(name, _, _)) => Some(name),
            _ => None,
        }
    }

    /// Why the target cannot be called at all, where it cannot: it is no function,
    /// or a name is no identifier.
    pub open spec fn call_error(self) -> Option<Seq<char>> {
        match self.function_name() {
            Some(name) => name_error(self.target_module, name),
            None => Some("Invalid target function"@),
        }
    }

    /// The target can be called with these inputs.
    pub open spec fn accepts(self, inputs: Seq<FuzzerValue>) -> bool {
        match self.function_name() {
            Some(name) => self.helpers.accepts(self.target_module, name, inputs),
            None => true,
        }
    }

    /// The transaction that calls a function of the target module.
    pub open spec fn call(
        self,
        function: Seq<char>,
        args: Seq<TransactionArgumentView>,
    ) -> TransactionView {
        call_transaction(
            self.package_address,
            self.target_module,
            function,
            argument_encodings(args),
            self.sequence_number,
            None,
        )
    }
}

/// The argument that a Move value becomes. Numbers of 16 and 32 bits are kept,
/// other values become what they become without state.
pub open spec fn stateful_argument_of(value: MoveValueView) -> Option<TransactionArgumentView> {
    match value {
        MoveValueView::U16(v) => Some(TransactionArgumentView::U16(v)),
        MoveValueView::U32(v) => Some(TransactionArgumentView::U32(v)),
        _ => argument_of(value),
    }
}

/// The arguments that Move values become, leaving out values that become none.
pub open spec fn stateful_arguments_of(values: Seq<MoveValueView>) -> Seq<TransactionArgumentView>
    decreases values.len(),
{
    if values.len() == 0 {
        Seq::empty()
    } else {
        match stateful_argument_of(values.last()) {
            Some(arg) => stateful_arguments_of(values.drop_last()).push(arg),
            None => stateful_arguments_of(values.drop_last()),
        }
    }
}

/// The arguments of short values can be encoded.
proof fn lemma_stateful_encodable(values: Seq<MoveValueView>)
    requires
        forall|i: int| 0 <= i < values.len() ==> has_short_bytes(#[trigger] values[i]),
    ensures
        all_encodable(stateful_arguments_of(values)),
    decreases values.len(),
{
    if values.len() > 0 {
        let shorter = values.drop_last();
        assert forall|i: int| 0 <= i < shorter.len() implies has_short_bytes(
            #[trigger] shorter[i],
        ) by {
            assert(has_short_bytes(values[i]));
        }
        lemma_stateful_encodable(shorter);
        assert(has_short_bytes(values[values.len() - 1]));
    }
}

/// What a call that was answered with `output` results in.
pub open spec fn call_result(output: TransactionOutput) -> Result<u64, Seq<char>> {
    match output.status {
        TransactionStatus::Keep(_) => Ok(output.gas_used),
        TransactionStatus::Discard(_) => Err("Transaction was discarded"@),
        TransactionStatus::Retry => Err("Transaction should be retried"@),
    }
}

impl AptosRunner {
    #[verifier::type_invariant]
    spec fn consistent(&self) -> bool {
        self@.well_formed()
    }

    /// A runner for a module. Its package is not in place before [`Self::setup`]
    /// has run.
    pub fn new(
        target_module: &str,
        package_metadata: Vec<u8>,
        modules: Vec<CompiledModule>,
        seed: u64,
        aptos_helpers: StringTable<String>,
    ) -> (runner: Self)
        ensures
            runner@.made_from(
                target_module@,
                package_metadata@,
                module_views(modules@),
                &aptos_helpers,
                seed,
            ),
            runner@.target_module == target_module@,
            runner@.package_metadata == package_metadata@,
            runner@.modules == module_views(modules@),
            runner@.helpers.configured(&aptos_helpers, seed),
            runner@.target_function is None,
            runner@.package_address == framework_address(),
            runner@.sequence_number == 0,
            runner@.setup == SetupStateView::Idle,
            runner@.well_formed(),
    {
        let mut bytes: [u8; 32] = [0u8; 32];
        bytes[31] = 1;
        assert(bytes@ =~= framework_address());
        AptosRunner {
            target_module: target_module.to_owned(),
            target_function: None,
            modules,
            package_metadata,
            package_address: AccountAddress { bytes },
            sequence_number: 0,
            helpers: AssignedHelpers::new(aptos_helpers, seed),
            setup: SetupState::Idle,
        }
    }

    /// The helper of a function of the target module.
    pub fn helper_for_function(&self, function_name: &str) -> (helper: Option<&Helper>)
        ensures
            match helper {
                Some(h) => self@.helpers.helper_for(self@.target_module, function_name@) == Some(
                    h@,
                ),
                None => self@.helpers.helper_for(self@.target_module, function_name@) is None,
            },
    {
        self.helpers.helper_for(self.target_module.as_str(), function_name)
    }

    /// The number of the next transaction.
    pub fn next_sequence_number(&self) -> (sequence_number: u64)
        ensures
            sequence_number == self@.sequence_number,
    {
        self.sequence_number
    }

    /// Sets the runner up, one event at a time: the chain is reset, an account is
    /// opened, the package is published where it has modules, helpers initialize it,
    /// and `fuzz_init` is called. Only a publication that does not succeed is a
    /// failure. Whatever was called before, the runner then stands as a new one does
    /// after its first setup.
    pub fn setup(&mut self, event: SetupEvent) -> (action: SetupAction)
        requires
            old(self)@.expects(event),
        ensures
            (final(self)@, action@) == old(self)@.after_event(event),
            final(self)@.well_formed(),
    {
        proof {
            use_type_invariant(&*self);
        }
        match event {
            SetupEvent::Start => {
                let address = resolve_package_address(&self.modules, self.target_module.as_str());
                self.sequence_number = 0;
                self.setup = SetupState::AwaitingAccount;
                SetupAction {
                    reset_chain: true,
                    apply_write_set: false,
                    step: SetupStep::OpenAccount(request_account(address, ACCOUNT_BALANCE)),
                }
            },
            SetupEvent::AccountOpened(address) => {
                let calls = self.helpers.initialize_calls(&address);
                let progress = SetupProgress {
                    stage: SetupStage::Publishing,
                    package_address: address,
                    calls,
                };
                self.package_address = address;
                if self.modules.len() > 0 {
                    self.publish_modules(progress)
                } else {
                    self.make_next_call(progress, false)
                }
            },
            SetupEvent::Executed(status) => {
                let mut setup = SetupState::Idle;
                std::mem::swap(&mut setup, &mut self.setup);
                if let SetupState::Running(progress) = setup {
                    self.record_output(progress, status)
                } else {
                    vstd::pervasive::unreached()
                }
            },
        }
    }

    /// Asks for the publication of the package.
    fn publish_modules(&mut self, progress: SetupProgress) -> (action: SetupAction)
        requires
            old(self)@.sequence_number == 0,
            progress@.stage is Publishing,
            progress@.calls.len() <= KNOWN_HELPERS,
        ensures
            final(self)@.well_formed(),
            final(self)@ == (AptosRunnerView {
                setup: SetupStateView::Running(progress@),
                ..old(self)@
            }),
            action@ == (SetupActionView {
                reset_chain: false,
                apply_write_set: false,
                step: SetupStepView::Execute(
                    TransactionView {
                        payload: publication(old(self)@.package_metadata, old(self)@.modules),
                        sequence_number: old(self)@.sequence_number,
                        gas_unit_price: None,
                    },
                ),
            }),
    {
        proof {
            use_type_invariant(&*self);
        }
        self.setup = SetupState::Running(progress);
        SetupAction {
            reset_chain: false,
            apply_write_set: false,
            step: SetupStep::Execute(
                Transaction {
                    payload: publish_payload(&self.package_metadata, &self.modules),
                    sequence_number: self.sequence_number,
                    gas_unit_price: None,
                },
            ),
        }
    }

    /// Asks for the next call after publication.
    fn make_next_call(&mut self, progress: SetupProgress, apply_write_set: bool) -> (action:
        SetupAction)
        requires
            progress@.calls.len() > 0 ==> old(self)@.sequence_number + progress@.calls.len() <= 1
                + KNOWN_HELPERS,
            progress@.calls.len() == 0 ==> old(self)@.sequence_number <= 1 + KNOWN_HELPERS,
        ensures
            (final(self)@, action@) == old(self)@.with_next_call(progress@, apply_write_set),
            final(self)@.well_formed(),
    {
        proof {
            use_type_invariant(&*self);
        }
        let mut progress = progress;
        match progress.advance(self.target_module.as_str(), self.sequence_number, None) {
            Some(transaction) => {
                self.setup = SetupState::Running(progress);
                SetupAction {
                    reset_chain: false,
                    apply_write_set,
                    step: SetupStep::Execute(transaction),
                }
            },
            None => {
                self.setup = SetupState::Idle;
                SetupAction { reset_chain: false, apply_write_set, step: SetupStep::Finished }
            },
        }
    }

    /// Takes the answer to a transaction of the setup.
    fn record_output(&mut self, progress: SetupProgress, status: TransactionStatus) -> (action:
        SetupAction)
        requires
            old(self)@.setup is Idle,
            (AptosRunnerView {
                setup: SetupStateView::Running(progress@),
                ..old(self)@
            }).well_formed(),
        ensures
            final(self)@.well_formed(),
            (final(self)@, action@) == (AptosRunnerView {
                setup: SetupStateView::Running(progress@),
                ..old(self)@
            }).after_event(SetupEvent::Executed(status)),
    {
        proof {
            use_type_invariant(&*self);
        }
        match progress.stage {
            SetupStage::Publishing => {
                let error = match status {
                    TransactionStatus::Keep(ExecutionStatus::Success) => {
                        self.sequence_number = self.sequence_number + 1;
                        return self.make_next_call(progress, true);
                    },
                    TransactionStatus::Keep(ExecutionStatus::Failure(reason)) => {
                        Error::with_detail("Publish failed with status: ", reason.as_str())
                    },
                    TransactionStatus::Discard(reason) => {
                        Error::with_detail("Publish discarded: ", reason.as_str())
                    },
                    TransactionStatus::Retry => Error::unknown("Publish needs retry"),
                };
                SetupAction {
                    reset_chain: false,
                    apply_write_set: false,
                    step: SetupStep::Failed(error),
                }
            },
            SetupStage::Initializing => {
                self.sequence_number = self.sequence_number + 1;
                self.make_next_call(progress, true)
            },
            SetupStage::FuzzInit => {
                self.sequence_number = self.sequence_number + 1;
                SetupAction { reset_chain: false, apply_write_set: true, step: SetupStep::Finished }
            },
        }
    }
}

impl AptosRunner {
    /// Converts a Move value to an argument of a transaction.
    pub fn convert_move_value_to_aptos_arg(&self, value: &MoveValue) -> (arg: Option<
        TransactionArgument,
    >)
        ensures
            optional_argument(arg) == stateful_argument_of(value@),
    {
        match value {
            MoveValue::U16(v) => Some(TransactionArgument::U16(*v)),
            MoveValue::U32(v) => Some(TransactionArgument::U32(*v)),
            _ => convert_move_value_to_aptos_arg(value),
        }
    }

    /// Converts Move values to the arguments of a transaction.
    pub fn convert_move_values(&self, values: &Vec<MoveValue>) -> (args: Vec<TransactionArgument>)
        ensures
            argument_views(args@) == stateful_arguments_of(contents_of(values@)),
    {
        let ghost contents = contents_of(values@);
        let mut args: Vec<TransactionArgument> = Vec::new();
        let mut i: usize = 0;
        assert(argument_views(args@) =~= stateful_arguments_of(contents.take(0)));
        while i < values.len()
            invariant
                i <= values.len(),
                contents == contents_of(values@),
                argument_views(args@) == stateful_arguments_of(contents.take(i as int)),
            decreases values.len() - i,
        {
            let ghost before = args@;
            assert(contents.take(i + 1).drop_last() =~= contents.take(i as int));
            assert(contents.take(i + 1).last() == values@[i as int]@);
            if let Some(arg) = self.convert_move_value_to_aptos_arg(&values[i]) {
                args.push(arg);
                assert(argument_views(args@) =~= argument_views(before).push(arg@));
            }
            i += 1;
        }
        assert(contents.take(i as int) =~= contents);
        args
    }

    /// Whether the target can be called with these inputs.
    pub fn accepts(&self, inputs: &Vec<FuzzerType>) -> (yes: bool)
        ensures
            yes == self@.accepts(values_of(inputs@)),
    {
        match &self.target_function {
            Some(FuzzerType::Function(name, _, _)) => self.helpers.accepts(
                self.target_module.as_str(),
                name.as_str(),
                inputs,
            ),
            _ => true,
        }
    }

    /// Prepares a call of the target: its helper replaces the inputs, they become
    /// Move values, and those that can become arguments.
    pub fn prepare(&self, inputs: Vec<FuzzerType>) -> (prepared: Result<PreparedCall, Error>)
        requires
            self@.accepts(values_of(inputs@)),
        ensures
            match prepared {
                Ok(call) => {
                    &&& self@.function_name() == Some(call.function@)
                    &&& exists|values: Seq<MoveValueView>| #[trigger]
                        are_values_of(
                            values,
                            self@.helpers.adjusted(
                                self@.target_module,
                                call.function@,
                                values_of(inputs@),
                            ),
                        ) && argument_views(call.args@) == stateful_arguments_of(values)
                    &&& all_encodable(argument_views(call.args@))
                },
                Err(error) => {
                    &&& self@.function_name() is None
                    &&& error@ == "Invalid target function"@
                },
            },
    {
        match &self.target_function {
            Some(FuzzerType::Function(name, _, _)) => {
                let function = name.clone();
                let adjusted = self.helpers.adjust_inputs(
                    self.target_module.as_str(),
                    function.as_str(),
                    &inputs,
                );
                let ghost adjusted_values = self@.helpers.adjusted(
                    self@.target_module,
                    function@,
                    values_of(inputs@),
                );
                let values = generate_inputs(adjusted);
                let args = self.convert_move_values(&values);
                proof {
                    assert(are_values_of(contents_of(values@), adjusted_values));
                    lemma_arguments_encodable(adjusted_values, contents_of(values@));
                    lemma_stateful_encodable(contents_of(values@));
                }
                Ok(PreparedCall { function, args })
            },
            _ => Err(Error::unknown("Invalid target function")),
        }
    }

    /// The transaction that makes a prepared call.
    pub fn send_transaction(&self, target_function: &str, args: &Vec<TransactionArgument>) -> (sent:
        Result<Transaction, Error>)
        requires
            all_encodable(argument_views(args@)),
        ensures
            match sent {
                Ok(transaction) => {
                    &&& name_error(self@.target_module, target_function@) is None
                    &&& transaction@ == self@.call(target_function@, argument_views(args@))
                },
                Err(error) => name_error(self@.target_module, target_function@) == Some(error@),
            },
    {
        match entry_function(
            self.package_address,
            self.target_module.as_str(),
            target_function,
            encode_arguments(args),
        ) {
            Ok(call) => Ok(
                Transaction {
                    payload: TransactionPayload::EntryFunction(call),
                    sequence_number: self.sequence_number,
                    gas_unit_price: None,
                },
            ),
            Err(error) => Err(error),
        }
    }

    /// The transaction by which the target is called with these inputs. Once it was
    /// executed, its answer goes to [`Self::complete`].
    pub fn execute(&self, inputs: Vec<FuzzerType>) -> (sent: Result<Transaction, Error>)
        requires
            self@.accepts(values_of(inputs@)),
        ensures
            match sent {
                Ok(transaction) => {
                    &&& self@.call_error() is None
                    &&& exists|values: Seq<MoveValueView>| #[trigger]
                        are_values_of(
                            values,
                            self@.helpers.adjusted(
                                self@.target_module,
                                self@.function_name()->0,
                                values_of(inputs@),
                            ),
                        ) && transaction@ == self@.call(
                            self@.function_name()->0,
                            stateful_arguments_of(values),
                        )
                },
                Err(error) => self@.call_error() == Some(error@),
            },
    {
        match self.prepare(inputs) {
            Ok(call) => self.send_transaction(call.function.as_str(), &call.args),
            Err(error) => Err(error),
        }
    }

    /// Whether no setup is under way.
    pub fn is_idle(&self) -> (idle: bool)
        ensures
            idle == self@.setup is Idle,
    {
        match &self.setup {
            SetupState::Idle => true,
            _ => false,
        }
    }

    /// Takes the answer to a call. What the call changed is always committed, and
    /// its sequence number is used up, whatever the answer is. Calls are made between
    /// setups, and sequence numbers must not run out.
    pub fn complete(&mut self, output: TransactionOutput) -> (outcome: CallOutcome)
        requires
            old(self)@.setup is Idle,
            old(self)@.sequence_number < u64::MAX,
        ensures
            final(self)@ == (AptosRunnerView {
                sequence_number: (old(self)@.sequence_number + 1) as u64,
                ..old(self)@
            }),
            final(self)@ == after_call(old(self)@),
            outcome.apply_write_set,
            result_view(outcome.result) == call_result(output),
            output.status is Keep ==> outcome.result == Ok::<u64, Error>(output.gas_used),
            !(output.status is Keep) ==> outcome.result is Err,
            final(self)@.sequence_number == old(self)@.sequence_number + 1,
    {
        proof {
            use_type_invariant(&*self);
        }
        let next_number: u64 = self.sequence_number + 1;
        self.sequence_number = next_number;
        let result = match output.status {
            TransactionStatus::Keep(_) => Ok(output.gas_used),
            TransactionStatus::Discard(_) => Err(Error::unknown("Transaction was discarded")),
            TransactionStatus::Retry => Err(Error::unknown("Transaction should be retried")),
        };
        CallOutcome { apply_write_set: true, result }
    }

    /// The inputs that the target starts from.
    pub fn get_target_parameters(&self) -> (parameters: Vec<FuzzerType>)
        requires
            self@.function_name() is Some,
        ensures
            self@.target_function matches Some(FuzzerValue::Function(_, inputs, _)) && values_of(
                parameters@,
            ) == inputs,
    {
        match &self.target_function {
            Some(FuzzerType::Function(_, parameters, _)) => clone_types(parameters),
            _ => vstd::pervasive::unreached(),
        }
    }

    pub fn get_target_module(&self) -> (module: String)
        ensures
            module@ == self@.target_module,
    {
        self.target_module.clone()
    }

    pub fn get_target_function(&self) -> (function: FuzzerType)
        requires
            self@.target_function is Some,
        ensures
            self@.target_function == Some(function@),
    {
        match &self.target_function {
            Some(function) => function.clone(),
            None => vstd::pervasive::unreached(),
        }
    }

    pub fn get_max_coverage(&self) -> (max_coverage: usize)
        ensures
            max_coverage == MAX_COVERAGE,
            max_coverage == 100,
    {
        MAX_COVERAGE
    }

    pub fn set_target_function(&mut self, function: &FuzzerType)
        ensures
            final(self)@ == (AptosRunnerView {
                target_function: Some(function@),
                ..old(self)@
            }),
    {
        proof {
            use_type_invariant(&*self);
        }
        let copy = function.clone();
        self.target_function = Some(copy);
    }
}

} // verus!
