//! What holds of runs with state as a whole.
use crate::external::names::is_identifier;
use crate::mutator::types::FuzzerValue;
use crate::runner::aptos_helpers::registry::{
    initialize_calls, law_helpers_are_determined, lemma_calls_not_more,
};
use crate::runner::chain::AccountAddress;
use crate::runner::move_value::TransactionArgumentView;
use crate::runner::package::{package_address, publication, CompiledModuleView};
use crate::runner::setup::{
    call_transaction, AccountRequestView, SetupActionView, SetupEvent, SetupProgressView,
    SetupStage, SetupStepView,
};
use crate::runner::stateful_runner::aptos_runner::{
    call_result, framework_address, publish_error, AptosRunnerView, SetupStateView,
};
use crate::runner::table::StringTable;
use crate::runner::transaction::{
    ExecutionStatus, TransactionOutput, TransactionStatus, TransactionView,
};
use vstd::prelude::*;

verus! {

/// How many more transactions a setup can take at most.
pub open spec fn transactions_left(runner: AptosRunnerView) -> nat {
    match runner.setup {
        SetupStateView::Running(progress) => if progress.stage is FuzzInit {
            1
        } else {
            progress.calls.len() + 2
        },
        _ => 0,
    }
}

/// A setup keeps the runner well formed, and every answer brings it closer to its
/// end, which it reaches exactly when nothing is left to do.
pub proof fn law_setup_ends(runner: AptosRunnerView, status: TransactionStatus)
    requires
        runner.well_formed(),
        runner.expects(SetupEvent::Executed(status)),
    ensures
        ({
            let (next, action) = runner.after_event(SetupEvent::Executed(status));
            &&& next.well_formed()
            &&& transactions_left(next) < transactions_left(runner)
            &&& next.setup is Running <==> action.step is Execute
            &&& next.setup is Idle <==> action.step is Finished || action.step is Failed
            &&& next.setup is Idle <==> transactions_left(next) == 0
        }),
{
}

/// A setup fails only where the package cannot be published. It then commits
/// nothing and uses up no sequence number.
pub proof fn law_only_publication_fails(runner: AptosRunnerView, status: TransactionStatus)
    requires
        runner.well_formed(),
        runner.expects(SetupEvent::Executed(status)),
    ensures
        ({
            let (next, action) = runner.after_event(SetupEvent::Executed(status));
            let publishing = runner.setup->Running_0.stage is Publishing;
            &&& action.step is Failed <==> publishing && !status.succeeded()
            &&& action.step is Failed ==> !action.apply_write_set && next.sequence_number
                == runner.sequence_number
            &&& action.step matches SetupStepView::Failed(message) ==> publish_error(status) == Some(
                message,
            )
        }),
{
}

/// A setup starts on a chain in its genesis state with sequence number zero, and
/// only its start asks for such a chain.
pub proof fn law_setup_starts_over(runner: AptosRunnerView, event: SetupEvent)
    requires
        runner.expects(event),
    ensures
        ({
            let (next, action) = runner.after_event(event);
            &&& action.reset_chain <==> event is Start
            &&& action.reset_chain ==> next.sequence_number == 0 && !action.apply_write_set
        }),
{
}

/// Once a setup has started, whatever is committed uses up a sequence number, and
/// nothing else does.
pub proof fn law_commits_are_counted(runner: AptosRunnerView, event: SetupEvent)
    requires
        runner.well_formed(),
        runner.expects(event),
        !(event is Start),
    ensures
        ({
            let (next, action) = runner.after_event(event);
            next.sequence_number == runner.sequence_number + if action.apply_write_set {
                1int
            } else {
                0int
            }
        }),
{
}

/// Every transaction of a setup carries the runner's sequence number.
pub proof fn law_setup_numbers_its_transactions(runner: AptosRunnerView, event: SetupEvent)
    requires
        runner.expects(event),
    ensures
        ({
            let (next, action) = runner.after_event(event);
            action.step matches SetupStepView::Execute(transaction) ==> transaction.sequence_number
                == next.sequence_number
        }),
{
}

/// A setup keeps the package, the helpers and the target: it changes nothing of a
/// runner but its address, its sequence number and the setup itself.
pub proof fn law_setup_keeps_the_rest(runner: AptosRunnerView, event: SetupEvent)
    requires
        runner.expects(event),
    ensures
        ({
            let next = runner.after_event(event).0;
            next == (AptosRunnerView {
                package_address: next.package_address,
                sequence_number: next.sequence_number,
                setup: next.setup,
                ..runner
            })
        }),
{
}

/// The runner after a number of answers.
pub open spec fn after_outputs(
    runner: AptosRunnerView,
    statuses: Seq<TransactionStatus>,
) -> AptosRunnerView
    decreases statuses.len(),
{
    if statuses.len() == 0 {
        runner
    } else {
        after_outputs(runner, statuses.drop_last()).after_event(
            SetupEvent::Executed(statuses.last()),
        ).0
    }
}

/// What a runner whose account was opened at `address` asks for after a number of
/// answers.
pub open spec fn action_after(
    runner: AptosRunnerView,
    address: AccountAddress,
    statuses: Seq<TransactionStatus>,
) -> SetupActionView {
    let (opened, action) = runner.after_event(SetupEvent::AccountOpened(address));
    if statuses.len() == 0 {
        action
    } else {
        after_outputs(opened, statuses.drop_last()).after_event(
            SetupEvent::Executed(statuses.last()),
        ).1
    }
}

/// The course of a setup whose package is published: each helper calls
/// `initialize` once and `fuzz_init` is called once, whatever the answers to these
/// calls are. Every transaction is committed before the next, and the transactions
/// are numbered from zero.
pub proof fn law_course_of_the_setup(
    runner: AptosRunnerView,
    address: AccountAddress,
    statuses: Seq<TransactionStatus>,
)
    requires
        runner.setup is Idle,
        runner.helpers.well_formed(),
        runner.modules.len() > 0,
        is_identifier(runner.target_module),
        statuses.len() > 0 ==> statuses[0].succeeded(),
        statuses.len() <= 2 + initialize_calls(runner.helpers.helpers, address@).len(),
    ensures
        ({
            let calls = initialize_calls(runner.helpers.helpers, address@);
            let answered = statuses.len() as int;
            let started = runner.after_event(SetupEvent::Start).0;
            let action = action_after(started, address, statuses);
            &&& !action.reset_chain
            &&& action.apply_write_set == (answered > 0)
            &&& action.step == if answered == 0 {
                SetupStepView::Execute(
                    TransactionView {
                        payload: publication(runner.package_metadata, runner.modules),
                        sequence_number: 0,
                        gas_unit_price: None,
                    },
                )
            } else if answered <= calls.len() {
                SetupStepView::Execute(
                    call_transaction(
                        address@,
                        runner.target_module,
                        "initialize"@,
                        calls[answered - 1],
                        answered as u64,
                        None,
                    ),
                )
            } else if answered == calls.len() + 1 {
                SetupStepView::Execute(
                    call_transaction(
                        address@,
                        runner.target_module,
                        "fuzz_init"@,
                        Seq::empty(),
                        answered as u64,
                        None,
                    ),
                )
            } else {
                SetupStepView::Finished
            }
            &&& answered == calls.len() + 2 ==> after_outputs(
                started.after_event(SetupEvent::AccountOpened(address)).0,
                statuses,
            ) == (AptosRunnerView {
                package_address: address@,
                sequence_number: answered as u64,
                setup: SetupStateView::Idle,
                ..runner
            })
        }),
{
    lemma_calls_not_more(runner.helpers.helpers, address@);
    if statuses.len() > 0 {
        let started = runner.after_event(SetupEvent::Start).0;
        let opened = started.after_event(SetupEvent::AccountOpened(address)).0;
        if statuses.len() > 1 {
            assert(statuses.drop_last()[0] == statuses[0]);
        }
        lemma_published_prefix(opened, statuses.drop_last());
    }
}

/// Where a setup stands whose package was published, after some of its answers.
proof fn lemma_published_prefix(opened: AptosRunnerView, statuses: Seq<TransactionStatus>)
    requires
        opened.setup is Running,
        opened.setup->Running_0.stage is Publishing,
        is_identifier(opened.target_module),
        statuses.len() > 0 ==> statuses[0].succeeded(),
        statuses.len() < 2 + opened.setup->Running_0.calls.len(),
        opened.sequence_number + statuses.len() <= u64::MAX,
    ensures
        ({
            let calls = opened.setup->Running_0.calls;
            let count = statuses.len() as int;
            after_outputs(opened, statuses) == (AptosRunnerView {
                setup: SetupStateView::Running(
                    SetupProgressView {
                        stage: if count == 0 {
                            SetupStage::Publishing
                        } else if count <= calls.len() {
                            SetupStage::Initializing
                        } else {
                            SetupStage::FuzzInit
                        },
                        package_address: opened.setup->Running_0.package_address,
                        calls: if count <= calls.len() {
                            calls.skip(count)
                        } else {
                            Seq::empty()
                        },
                    },
                ),
                sequence_number: (opened.sequence_number + count) as u64,
                ..opened
            })
        }),
    decreases statuses.len(),
{
    let calls = opened.setup->Running_0.calls;
    if statuses.len() > 0 {
        let fewer = statuses.drop_last();
        if fewer.len() > 0 {
            assert(fewer[0] == statuses[0]);
        }
        lemma_published_prefix(opened, fewer);
        if statuses.len() <= calls.len() {
            assert(calls.skip(fewer.len() as int).drop_first() =~= calls.skip(
                statuses.len() as int,
            ));
        } else if statuses.len() == calls.len() + 1 {
            assert(calls.skip(fewer.len() as int) =~= Seq::empty());
        }
    } else {
        assert(calls.skip(0) =~= calls);
    }
}

/// A package without modules is not published: the setup goes on with its calls at
/// once.
pub proof fn law_empty_package_is_not_published(runner: AptosRunnerView, address: AccountAddress)
    requires
        runner.setup is AwaitingAccount,
        runner.modules.len() == 0,
    ensures
        ({
            let calls = initialize_calls(runner.helpers.helpers, address@);
            let (next, action) = runner.after_event(SetupEvent::AccountOpened(address));
            &&& !action.apply_write_set
            &&& !action.reset_chain
            &&& next.package_address == address@
            &&& next.sequence_number == runner.sequence_number
            &&& action.step == if !is_identifier(runner.target_module) {
                SetupStepView::Finished
            } else if calls.len() > 0 {
                SetupStepView::Execute(
                    call_transaction(
                        address@,
                        runner.target_module,
                        "initialize"@,
                        calls[0],
                        runner.sequence_number,
                        None,
                    ),
                )
            } else {
                SetupStepView::Execute(
                    call_transaction(
                        address@,
                        runner.target_module,
                        "fuzz_init"@,
                        Seq::empty(),
                        runner.sequence_number,
                        None,
                    ),
                )
            }
        }),
{
}

/// Of a module whose name is no identifier nothing is called: the setup is over once
/// the package was published, which is committed.
pub proof fn law_bad_names_end_the_setup(
    runner: AptosRunnerView,
    address: AccountAddress,
    status: TransactionStatus,
)
    requires
        runner.setup is Idle,
        runner.modules.len() > 0,
        !is_identifier(runner.target_module),
        status.succeeded(),
    ensures
        ({
            let started = runner.after_event(SetupEvent::Start).0;
            let opened = started.after_event(SetupEvent::AccountOpened(address)).0;
            let (next, action) = opened.after_event(SetupEvent::Executed(status));
            &&& action.step is Finished
            &&& action.apply_write_set
            &&& next.setup is Idle
            &&& next.package_address == address@
            &&& next.sequence_number == 1
        }),
{
}

/// Inputs can be used exactly where the helpers accept them for the target, and
/// whatever they are where the target is no function: the call is refused then.
pub proof fn law_which_inputs_can_be_used(runner: AptosRunnerView, inputs: Seq<FuzzerValue>)
    ensures
        runner.target_function matches Some(FuzzerValue::Function(name, _, _)) ==> runner.accepts(
            inputs,
        ) == runner.helpers.accepts(runner.target_module, name, inputs),
        !(runner.target_function matches Some(FuzzerValue::Function(_, _, _)))
            ==> runner.accepts(inputs),
{
}

/// A runner can be told that a setup starts while none is under way, that an account
/// was opened once it has asked for one, and of an answer once it has sent something.
pub proof fn law_what_a_runner_can_be_told(
    runner: AptosRunnerView,
    address: AccountAddress,
    status: TransactionStatus,
)
    ensures
        runner.expects(SetupEvent::Start) <==> runner.setup is Idle,
        runner.expects(SetupEvent::AccountOpened(address)) <==> runner.setup is AwaitingAccount,
        runner.expects(SetupEvent::Executed(status)) <==> runner.setup is Running,
{
}

/// The runner after a call was answered.
pub open spec fn after_call(runner: AptosRunnerView) -> AptosRunnerView {
    AptosRunnerView { sequence_number: (runner.sequence_number + 1) as u64, ..runner }
}

/// The runner after a number of calls.
pub open spec fn after_calls(runner: AptosRunnerView, count: nat) -> AptosRunnerView
    decreases count,
{
    if count == 0 {
        runner
    } else {
        after_call(after_calls(runner, (count - 1) as nat))
    }
}

/// The calls of a sequence carry consecutive sequence numbers.
pub proof fn law_calls_are_numbered(
    runner: AptosRunnerView,
    count: nat,
    function: Seq<char>,
    args: Seq<TransactionArgumentView>,
)
    requires
        runner.sequence_number + count <= u64::MAX,
    ensures
        after_calls(runner, count).call(function, args).sequence_number == runner.sequence_number
            + count,
        after_calls(runner, count) == (AptosRunnerView {
            sequence_number: (runner.sequence_number + count) as u64,
            ..runner
        }),
    decreases count,
{
    if count > 0 {
        law_calls_are_numbered(runner, (count - 1) as nat, function, args);
    }
}

/// The runner with another target.
pub open spec fn with_target(
    runner: AptosRunnerView,
    target: Option<FuzzerValue>,
) -> AptosRunnerView {
    AptosRunnerView { target_function: target, ..runner }
}

/// The target plays no part in a setup.
proof fn lemma_target_is_kept(
    runner: AptosRunnerView,
    target: Option<FuzzerValue>,
    statuses: Seq<TransactionStatus>,
)
    ensures
        after_outputs(with_target(runner, target), statuses) == with_target(
            after_outputs(runner, statuses),
            target,
        ),
    decreases statuses.len(),
{
    if statuses.len() > 0 {
        lemma_target_is_kept(runner, target, statuses.drop_last());
    }
}

/// Setting up resets the state: whatever a runner did before, after its setup has
/// started anew it asks for everything that a new runner of the same package asks
/// for, and makes every call as that one does. `fresh` is any such runner, among them
/// one that was just made. The answers to the setup are the same for both, and so is
/// the target from then on.
pub proof fn law_setup_resets(
    used: AptosRunnerView,
    fresh: AptosRunnerView,
    target_module: Seq<char>,
    package_metadata: Seq<u8>,
    modules: Seq<CompiledModuleView>,
    aptos_helpers: &StringTable<String>,
    seed: u64,
    address: AccountAddress,
    statuses: Seq<TransactionStatus>,
    target: Option<FuzzerValue>,
    count: nat,
    function: Seq<char>,
    args: Seq<TransactionArgumentView>,
)
    requires
        used.made_from(target_module, package_metadata, modules, aptos_helpers, seed),
        fresh.made_from(target_module, package_metadata, modules, aptos_helpers, seed),
        used.setup is Idle,
        fresh.setup is Idle,
    ensures
        ({
            let (used_start, used_action) = used.after_event(SetupEvent::Start);
            let (fresh_start, fresh_action) = fresh.after_event(SetupEvent::Start);
            let opened = SetupEvent::AccountOpened(address);
            let used_end = with_target(
                after_outputs(used_start.after_event(opened).0, statuses),
                target,
            );
            let fresh_end = with_target(
                after_outputs(fresh_start.after_event(opened).0, statuses),
                target,
            );
            &&& used_action == fresh_action
            &&& used_action.reset_chain
            &&& action_after(used_start, address, statuses) == action_after(
                fresh_start,
                address,
                statuses,
            )
            &&& used_end == fresh_end
            &&& after_calls(used_end, count).call(function, args) == after_calls(
                fresh_end,
                count,
            ).call(function, args)
        }),
{
    law_helpers_are_determined(used.helpers, fresh.helpers, aptos_helpers, seed);
    let opened = SetupEvent::AccountOpened(address);
    let used_opened = used.after_event(SetupEvent::Start).0.after_event(opened).0;
    let fresh_opened = fresh.after_event(SetupEvent::Start).0.after_event(opened).0;
    assert(with_target(used_opened, target) == with_target(fresh_opened, target));
    lemma_target_is_kept(used_opened, target, statuses);
    lemma_target_is_kept(fresh_opened, target, statuses);
    if statuses.len() > 0 {
        lemma_target_is_kept(used_opened, target, statuses.drop_last());
        lemma_target_is_kept(fresh_opened, target, statuses.drop_last());
        let used_before = after_outputs(used_opened, statuses.drop_last());
        let fresh_before = after_outputs(fresh_opened, statuses.drop_last());
        assert(with_target(used_before, target) == with_target(fresh_before, target));
        let answer = SetupEvent::Executed(statuses.last());
        assert(used_before.after_event(answer).1 == with_target(used_before, target).after_event(
            answer,
        ).1);
        assert(fresh_before.after_event(answer).1 == with_target(fresh_before, target).after_event(
            answer,
        ).1);
    }
}

/// A call gives its gas exactly where its transaction was kept, even where it failed;
/// otherwise it is an error that says why.
pub proof fn law_kept_calls_give_their_gas(output: TransactionOutput)
    ensures
        output.status is Keep ==> call_result(output) == Ok::<u64, Seq<char>>(output.gas_used),
        output.status is Discard ==> call_result(output) == Err::<u64, Seq<char>>(
            "Transaction was discarded"@,
        ),
        output.status is Retry ==> call_result(output) == Err::<u64, Seq<char>>(
            "Transaction should be retried"@,
        ),
{
}

/// A call goes to the function of the target module at the package's address, with
/// every argument encoded in its place, at the usual price and with the runner's
/// number.
pub proof fn law_transaction_of_a_call(
    runner: AptosRunnerView,
    function: Seq<char>,
    args: Seq<TransactionArgumentView>,
)
    ensures
        ({
            let made = runner.call(function, args);
            &&& made.payload is EntryFunction
            &&& made.payload->module_address == runner.package_address
            &&& made.payload->module_name == runner.target_module
            &&& made.payload->function_name == function
            &&& made.payload->args.len() == args.len()
            &&& forall|i: int|
                0 <= i < args.len() ==> #[trigger] made.payload->args[i] == args[i].encoding()
            &&& made.sequence_number == runner.sequence_number
            &&& made.gas_unit_price is None
        }),
{
}

/// Why the target cannot be called: it is no function, or a name is no identifier.
pub proof fn law_what_can_be_called(runner: AptosRunnerView)
    ensures
        runner.target_function matches Some(FuzzerValue::Function(name, _, _)) ==> {
            &&& runner.call_error() is None <==> is_identifier(runner.target_module)
                && is_identifier(name)
            &&& runner.function_name() == Some(name)
        },
        !(runner.target_function matches Some(FuzzerValue::Function(_, _, _)))
            ==> runner.function_name() is None && runner.call_error() == Some(
            "Invalid target function"@,
        ),
{
}

/// The account of a package is opened where the package says, or anywhere with a
/// million thousand million of balance where it does not.
pub proof fn law_account_of_the_package(runner: AptosRunnerView)
    requires
        runner.setup is Idle,
    ensures
        ({
            let (next, action) = runner.after_event(SetupEvent::Start);
            &&& next.setup is AwaitingAccount
            &&& action.step is OpenAccount
            &&& package_address(runner.modules, runner.target_module) matches Some(address)
                ==> action.step->OpenAccount_0 == AccountRequestView::At(address)
            &&& package_address(runner.modules, runner.target_module) is None
                ==> action.step->OpenAccount_0 == (AccountRequestView::Fresh {
                balance: 1_000_000_000_000_000,
                sequence_number: 0,
            })
        }),
{
}

/// A publication that did not succeed says why.
pub proof fn law_failed_publication_says_why(status: TransactionStatus)
    ensures
        publish_error(status) is None <==> status == TransactionStatus::Keep(
            ExecutionStatus::Success,
        ),
        status matches TransactionStatus::Keep(ExecutionStatus::Failure(reason)) ==> publish_error(
            status,
        ) == Some("Publish failed with status: "@ + reason@),
        status matches TransactionStatus::Discard(reason) ==> publish_error(status) == Some(
            "Publish discarded: "@ + reason@,
        ),
        status is Retry ==> publish_error(status) == Some("Publish needs retry"@),
{
}

/// The address before any setup is the number one in 32 bytes.
pub proof fn law_framework_address()
    ensures
        framework_address().len() == 32,
        framework_address()[31] == 1,
        forall|i: int| 0 <= i < 31 ==> #[trigger] framework_address()[i] == 0,
{
}

} // verus!
