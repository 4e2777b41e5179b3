//! What holds of runs without state as a whole.
use crate::external::names::is_identifier;
use crate::mutator::types::FuzzerValue;
use crate::runner::aptos_helpers::registry::{
    initialize_calls, lemma_calls_not_more, KNOWN_HELPERS,
};
use crate::runner::chain::AccountAddress;
use crate::runner::move_value::TransactionArgumentView;
use crate::runner::package::{package_address, publication};
use crate::runner::setup::{
    call_transaction, AccountRequestView, SetupActionView, SetupEvent, SetupProgressView,
    SetupStage, SetupStepView,
};
use crate::runner::stateless_runner::aptos_runner::{
    call_result, RunnerStateView, StatelessAptosRunnerView, GAS_UNIT_PRICE,
};
use crate::runner::transaction::{
    PayloadView, TransactionOutput, TransactionStatus, TransactionView,
};
use vstd::prelude::*;

verus! {

/// How many more transactions a setup can take at most.
pub open spec fn transactions_left(runner: StatelessAptosRunnerView) -> nat {
    match runner.state {
        RunnerStateView::Running { progress, .. } => if progress.stage is FuzzInit {
            1
        } else {
            progress.calls.len() + 2
        },
        _ => 0,
    }
}

/// A setup keeps the runner well formed, and every answer brings it closer to its
/// end, which it reaches exactly when nothing is left to do.
pub proof fn law_setup_ends(runner: StatelessAptosRunnerView, status: TransactionStatus)
    requires
        runner.well_formed(),
        runner.state is Running,
    ensures
        ({
            let (next, action) = runner.after_output(status);
            &&& next.well_formed()
            &&& transactions_left(next) < transactions_left(runner)
            &&& next.state is Running <==> action.step is Execute
            &&& next.state is Ready <==> action.step is Finished
            &&& next.state is Ready <==> transactions_left(next) == 0
        }),
{
}

/// Every transaction of a setup carries the number of transactions that were
/// counted before it.
pub proof fn law_setup_numbers_its_transactions(
    runner: StatelessAptosRunnerView,
    event: SetupEvent,
)
    requires
        runner.well_formed(),
        runner.expects(event),
    ensures
        ({
            let (next, action) = runner.after_event(event);
            &&& action.step matches SetupStepView::Execute(transaction) ==> next.state
                matches RunnerStateView::Running { sequence_number, .. }
                && transaction.sequence_number == sequence_number
            &&& event is AccountOpened ==> next.state->Running_sequence_number == 0
            &&& event is Executed ==> ({
                let before = runner.state->Running_sequence_number;
                let after = match next.state {
                    RunnerStateView::Ready { sequence_number, .. } => sequence_number,
                    _ => next.state->Running_sequence_number,
                };
                after == before || after == before + 1
            })
        }),
{
}

/// A call of `initialize` is only ever asked for after a publication that
/// succeeded.
pub proof fn law_helpers_need_the_package(
    runner: StatelessAptosRunnerView,
    status: TransactionStatus,
)
    requires
        runner.well_formed(),
        runner.state is Running,
        runner.state->progress.stage is Publishing,
        !status.succeeded(),
    ensures
        ({
            let (next, action) = runner.after_output(status);
            match action.step {
                SetupStepView::Execute(transaction) => transaction.payload
                    matches PayloadView::EntryFunction { function_name, args, .. } && function_name
                    == "fuzz_init"@ && args.len() == 0 && transaction.sequence_number == 0,
                _ => action.step is Finished,
            }
        }),
{
}

/// The runner after a number of answers.
pub open spec fn after_outputs(
    runner: StatelessAptosRunnerView,
    statuses: Seq<TransactionStatus>,
) -> StatelessAptosRunnerView
    decreases statuses.len(),
{
    if statuses.len() == 0 {
        runner
    } else {
        after_outputs(runner, statuses.drop_last()).after_output(statuses.last()).0
    }
}

/// What a runner whose account was opened at `address` asks for after a number of
/// answers.
pub open spec fn action_after(
    runner: StatelessAptosRunnerView,
    address: AccountAddress,
    statuses: Seq<TransactionStatus>,
) -> SetupActionView {
    let (opened, action) = runner.after_event(SetupEvent::AccountOpened(address));
    if statuses.len() == 0 {
        action
    } else {
        after_outputs(opened, statuses.drop_last()).after_output(statuses.last()).1
    }
}

/// How many of these answers say that the transaction succeeded.
pub open spec fn successes(statuses: Seq<TransactionStatus>) -> nat
    decreases statuses.len(),
{
    if statuses.len() == 0 {
        0
    } else {
        successes(statuses.drop_last()) + if statuses.last().succeeded() {
            1nat
        } else {
            0nat
        }
    }
}

/// The calls of `initialize` that a setup makes: those of the helpers, unless the
/// publication was answered otherwise than with success.
pub open spec fn calls_made(
    calls: Seq<Seq<Seq<u8>>>,
    statuses: Seq<TransactionStatus>,
) -> Seq<Seq<Seq<u8>>> {
    if statuses.len() > 0 && !statuses[0].succeeded() {
        Seq::empty()
    } else {
        calls
    }
}

/// The course of a setup, whatever the answers are: the package is published, each
/// helper calls `initialize` once where that succeeded, `fuzz_init` is called once,
/// and the setup is finished. Each transaction carries the number of successes before
/// it. A publication and a call of `fuzz_init` are committed where they were kept, a
/// call of `initialize` where it succeeded.
pub proof fn law_course_of_the_setup(
    runner: StatelessAptosRunnerView,
    address: AccountAddress,
    statuses: Seq<TransactionStatus>,
)
    requires
        runner.well_formed(),
        runner.state is AwaitingAccount,
        is_identifier(runner.target_module),
        statuses.len() <= 2 + calls_made(
            initialize_calls(runner.helpers.helpers, address@),
            statuses,
        ).len(),
    ensures
        ({
            let calls = calls_made(initialize_calls(runner.helpers.helpers, address@), statuses);
            let answered = statuses.len() as int;
            let number = successes(statuses) as u64;
            let action = action_after(runner, address, statuses);
            &&& !action.reset_chain
            &&& action.apply_write_set == if answered == 0 {
                false
            } else if answered == 1 || answered == calls.len() + 2 {
                statuses.last().kept()
            } else {
                statuses.last().succeeded()
            }
            &&& action.step == if answered == 0 {
                SetupStepView::Execute(
                    TransactionView {
                        payload: publication(runner.package_metadata, runner.modules),
                        sequence_number: 0,
                        gas_unit_price: Some(GAS_UNIT_PRICE),
                    },
                )
            } else if answered <= calls.len() {
                SetupStepView::Execute(
                    call_transaction(
                        address@,
                        runner.target_module,
                        "initialize"@,
                        calls[answered - 1],
                        number,
                        Some(GAS_UNIT_PRICE),
                    ),
                )
            } else if answered == calls.len() + 1 {
                SetupStepView::Execute(
                    call_transaction(
                        address@,
                        runner.target_module,
                        "fuzz_init"@,
                        Seq::empty(),
                        number,
                        Some(GAS_UNIT_PRICE),
                    ),
                )
            } else {
                SetupStepView::Finished
            }
        }),
{
    let opened = runner.after_event(SetupEvent::AccountOpened(address)).0;
    lemma_calls_not_more(runner.helpers.helpers, address@);
    if statuses.len() > 0 {
        if statuses.len() > 1 {
            assert(statuses.drop_last()[0] == statuses[0]);
        }
        lemma_prefix(opened, statuses.drop_last());
    }
}

/// Whatever the answers are, a setup leaves the calls a number that counts a
/// successful publication, the successful calls of `initialize` and a call of
/// `fuzz_init` that was kept.
pub proof fn law_setup_leaves_a_number(
    runner: StatelessAptosRunnerView,
    address: AccountAddress,
    statuses: Seq<TransactionStatus>,
)
    requires
        runner.well_formed(),
        runner.state is AwaitingAccount,
        is_identifier(runner.target_module),
        statuses.len() == 2 + calls_made(
            initialize_calls(runner.helpers.helpers, address@),
            statuses,
        ).len(),
    ensures
        after_outputs(runner.after_event(SetupEvent::AccountOpened(address)).0, statuses)
            == (StatelessAptosRunnerView {
            state: RunnerStateView::Ready {
                package_address: address@,
                sequence_number: (successes(statuses.drop_last()) + if statuses.last().kept() {
                    1nat
                } else {
                    0nat
                }) as u64,
            },
            ..runner
        }),
{
    let opened = runner.after_event(SetupEvent::AccountOpened(address)).0;
    lemma_calls_not_more(runner.helpers.helpers, address@);
    assert(statuses.drop_last()[0] == statuses[0]);
    lemma_prefix(opened, statuses.drop_last());
}

/// Of a module whose name is no identifier nothing is called: the setup is over once
/// the publication was answered.
pub proof fn law_bad_names_end_the_setup(
    runner: StatelessAptosRunnerView,
    address: AccountAddress,
    status: TransactionStatus,
)
    requires
        runner.well_formed(),
        runner.state is AwaitingAccount,
        !is_identifier(runner.target_module),
    ensures
        ({
            let opened = runner.after_event(SetupEvent::AccountOpened(address)).0;
            let (next, action) = opened.after_output(status);
            &&& action.step is Finished
            &&& action.apply_write_set == status.kept()
            &&& next.state == RunnerStateView::Ready {
                package_address: address@,
                sequence_number: if status.succeeded() {
                    1
                } else {
                    0
                },
            }
        }),
{
}

/// Where every transaction of the setup succeeds, the calls are numbered after
/// them: without helpers, publication has number zero, `fuzz_init` number one, and
/// the calls number two.
pub proof fn law_successful_setup(
    runner: StatelessAptosRunnerView,
    address: AccountAddress,
    statuses: Seq<TransactionStatus>,
)
    requires
        runner.well_formed(),
        runner.state is AwaitingAccount,
        is_identifier(runner.target_module),
        forall|i: int| 0 <= i < statuses.len() ==> (#[trigger] statuses[i]).succeeded(),
        statuses.len() == 2 + initialize_calls(runner.helpers.helpers, address@).len(),
    ensures
        after_outputs(runner.after_event(SetupEvent::AccountOpened(address)).0, statuses).state
            == (RunnerStateView::Ready {
            package_address: address@,
            sequence_number: statuses.len() as u64,
        }),
{
    assert(statuses[0].succeeded());
    assert(statuses.last().succeeded());
    let fewer = statuses.drop_last();
    assert forall|i: int| 0 <= i < fewer.len() implies (#[trigger] fewer[i]).succeeded() by {
        assert(statuses[i].succeeded());
    }
    lemma_all_successes(fewer);
    law_setup_leaves_a_number(runner, address, statuses);
}

proof fn lemma_all_successes(statuses: Seq<TransactionStatus>)
    requires
        forall|i: int| 0 <= i < statuses.len() ==> (#[trigger] statuses[i]).succeeded(),
    ensures
        successes(statuses) == statuses.len(),
    decreases statuses.len(),
{
    if statuses.len() > 0 {
        let fewer = statuses.drop_last();
        assert forall|i: int| 0 <= i < fewer.len() implies (#[trigger] fewer[i]).succeeded() by {
            assert(statuses[i].succeeded());
        }
        lemma_all_successes(fewer);
        assert(statuses[statuses.len() - 1].succeeded());
    }
}

/// Where a setup stands after some of its answers.
proof fn lemma_prefix(opened: StatelessAptosRunnerView, statuses: Seq<TransactionStatus>)
    requires
        opened.state is Running,
        opened.state->progress.stage is Publishing,
        opened.state->Running_sequence_number == 0,
        is_identifier(opened.target_module),
        opened.state->progress.calls.len() <= KNOWN_HELPERS,
        statuses.len() < 2 + calls_made(opened.state->progress.calls, statuses).len(),
    ensures
        successes(statuses) <= statuses.len(),
        ({
            let calls = calls_made(opened.state->progress.calls, statuses);
            let count = statuses.len() as int;
            after_outputs(opened, statuses) == (StatelessAptosRunnerView {
                state: RunnerStateView::Running {
                    progress: SetupProgressView {
                        stage: if count == 0 {
                            SetupStage::Publishing
                        } else if count <= calls.len() {
                            SetupStage::Initializing
                        } else {
                            SetupStage::FuzzInit
                        },
                        package_address: opened.state->progress.package_address,
                        calls: if count <= calls.len() {
                            calls.skip(count)
                        } else {
                            Seq::empty()
                        },
                    },
                    sequence_number: successes(statuses) as u64,
                },
                ..opened
            })
        }),
    decreases statuses.len(),
{
    let calls = calls_made(opened.state->progress.calls, statuses);
    if statuses.len() > 0 {
        let fewer = statuses.drop_last();
        if fewer.len() > 0 {
            assert(fewer[0] == statuses[0]);
        }
        lemma_prefix(opened, fewer);
        if statuses.len() <= calls.len() {
            assert(calls.skip(fewer.len() as int).drop_first() =~= calls.skip(
                statuses.len() as int,
            ));
        } else if fewer.len() > 0 {
            assert(calls.skip(fewer.len() as int) =~= Seq::empty());
        }
        if fewer.len() == 0 && calls.len() == 0 {
            assert(calls =~= Seq::empty());
            assert(calls.skip(0) =~= Seq::empty());
        }
    } else {
        assert(calls.skip(0) =~= calls);
    }
}

/// The one setup starts on a chain in its genesis state, which nothing else asks for.
pub proof fn law_setup_starts_from_genesis(runner: StatelessAptosRunnerView, event: SetupEvent)
    requires
        runner.expects(event),
    ensures
        runner.after_event(event).1.reset_chain <==> event is Start && runner.state is Fresh,
{
}

/// The package is set up once: a runner that is ready has nothing to do.
pub proof fn law_setup_happens_once(runner: StatelessAptosRunnerView)
    requires
        runner.state is Ready,
    ensures
        runner.after_event(SetupEvent::Start).0 == runner,
        runner.after_event(SetupEvent::Start).1.step is Finished,
        !runner.after_event(SetupEvent::Start).1.apply_write_set,
        !runner.after_event(SetupEvent::Start).1.reset_chain,
{
}

/// All calls of a ready runner have the same sequence number, whichever functions
/// are called and whatever they are called with.
pub proof fn law_calls_share_their_number(
    runner: StatelessAptosRunnerView,
    target: FuzzerValue,
    one: Seq<char>,
    one_args: Seq<TransactionArgumentView>,
    other: Seq<char>,
    other_args: Seq<TransactionArgumentView>,
)
    requires
        runner.state is Ready,
    ensures
        runner.call(one, one_args).sequence_number == (StatelessAptosRunnerView {
            target_function: target,
            ..runner
        }).call(other, other_args).sequence_number,
{
}

/// A call gives its gas exactly where its transaction was kept, even where it failed;
/// otherwise it is an error that says why.
pub proof fn law_kept_calls_give_their_gas(output: TransactionOutput)
    ensures
        output.status is Keep ==> call_result(output) == Ok::<u64, Seq<char>>(output.gas_used),
        output.status matches TransactionStatus::Discard(reason) ==> call_result(output) == Err::<
            u64,
            Seq<char>,
        >("Transaction discarded: "@ + reason@),
        output.status is Retry ==> call_result(output) == Err::<u64, Seq<char>>(
            "Transaction retry requested"@,
        ),
{
}

/// A call goes to the function of the target module at the package's address, with
/// every argument encoded in its place, at a price of one hundred and with the number
/// that the setup left.
pub proof fn law_transaction_of_a_call(
    runner: StatelessAptosRunnerView,
    function: Seq<char>,
    args: Seq<TransactionArgumentView>,
)
    requires
        runner.state is Ready,
    ensures
        ({
            let made = runner.call(function, args);
            &&& made.payload is EntryFunction
            &&& made.payload->module_address == runner.state->package_address
            &&& made.payload->module_name == runner.target_module
            &&& made.payload->function_name == function
            &&& made.payload->args.len() == args.len()
            &&& forall|i: int|
                0 <= i < args.len() ==> #[trigger] made.payload->args[i] == args[i].encoding()
            &&& made.sequence_number == runner.state->Ready_sequence_number
            &&& made.gas_unit_price == Some(100u64)
        }),
{
}

/// Why the target cannot be called: it is no function, or a name is no identifier.
pub proof fn law_what_can_be_called(runner: StatelessAptosRunnerView)
    ensures
        runner.target_function matches FuzzerValue::Function(name, _, _) ==> {
            &&& runner.call_error() is None <==> is_identifier(runner.target_module)
                && is_identifier(name)
            &&& runner.function_name() == Some(name)
        },
        !(runner.target_function is Function) ==> runner.function_name() is None
            && runner.call_error() == Some("Invalid target function type"@),
{
}

/// The account of a package is opened where the package says, or anywhere with ten
/// thousand million of balance where it does not.
pub proof fn law_account_of_the_package(runner: StatelessAptosRunnerView)
    requires
        runner.state is Fresh,
    ensures
        ({
            let (next, action) = runner.after_event(SetupEvent::Start);
            &&& next.state is AwaitingAccount
            &&& action.step is OpenAccount
            &&& package_address(runner.modules, runner.target_module) matches Some(address)
                ==> action.step->OpenAccount_0 == AccountRequestView::At(address)
            &&& package_address(runner.modules, runner.target_module) is None
                ==> action.step->OpenAccount_0 == (AccountRequestView::Fresh {
                balance: 10_000_000_000,
                sequence_number: 0,
            })
        }),
{
}

/// Inputs can be used exactly where the helpers accept them for the target, and
/// whatever they are where the target is no function: the call is refused then.
pub proof fn law_which_inputs_can_be_used(
    runner: StatelessAptosRunnerView,
    inputs: Seq<FuzzerValue>,
)
    ensures
        runner.target_function matches FuzzerValue::Function(name, _, _) ==> runner.accepts(inputs)
            == runner.helpers.accepts(runner.target_module, name, inputs),
        !(runner.target_function is Function) ==> runner.accepts(inputs),
{
}

/// A runner can be told that a setup starts before it has begun or when it is over,
/// that an account was opened once it has asked for one, and of an answer once it has
/// sent something.
pub proof fn law_what_a_runner_can_be_told(
    runner: StatelessAptosRunnerView,
    address: AccountAddress,
    status: TransactionStatus,
)
    ensures
        runner.expects(SetupEvent::Start) <==> runner.state is Fresh || runner.state is Ready,
        runner.expects(SetupEvent::AccountOpened(address)) <==> runner.state is AwaitingAccount,
        runner.expects(SetupEvent::Executed(status)) <==> runner.state is Running,
{
}

} // verus!
