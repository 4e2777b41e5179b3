//! What holds of call sequences as a whole.
use crate::fuzzer::stats::Stats;
use crate::mutator::types::FuzzerValue;
use crate::worker::stateful_worker::{
    all_functions, arranged, counted, lemma_sequences_are_functions, valid_picks, with_repetitions,
    without_first, CallReportView, CallStageView, FunctionAbiView, StatefulWorkerView,
    WorkerActionView, WorkerEventView, WorkerPhaseView,
};
use vstd::prelude::*;

verus! {

/// Repetitions make a sequence longer by one call each, keep what was there, and
/// bring in nothing new.
proof fn lemma_repetitions(pool: Seq<FuzzerValue>, picks: Seq<usize>)
    requires
        valid_picks(pool.len(), picks),
    ensures
        with_repetitions(pool, picks).len() == pool.len() + picks.len(),
        with_repetitions(pool, picks).take(pool.len() as int) == pool,
        forall|i: int|
            0 <= i < pool.len() + picks.len() ==> pool.contains(
                #[trigger] with_repetitions(pool, picks)[i],
            ),
        forall|k: int|
            0 <= k < picks.len() ==> with_repetitions(pool, picks)[pool.len() + k]
                == with_repetitions(pool, picks)[#[trigger] picks[k] as int],
    decreases picks.len(),
{
    let all = with_repetitions(pool, picks);
    if picks.len() == 0 {
        assert(all.take(pool.len() as int) =~= pool);
        assert forall|i: int| 0 <= i < pool.len() implies pool.contains(#[trigger] all[i]) by {
            assert(pool[i] == all[i]);
        }
    } else {
        let fewer = picks.drop_last();
        assert forall|i: int| 0 <= i < fewer.len() implies #[trigger] fewer[i] < pool.len() + i by {
            assert(picks[i] < pool.len() + i);
        }
        lemma_repetitions(pool, fewer);
        let shorter = with_repetitions(pool, fewer);
        assert(picks[picks.len() - 1] < pool.len() + picks.len() - 1);
        assert(all.take(pool.len() as int) =~= shorter.take(pool.len() as int));
        assert forall|i: int| 0 <= i < pool.len() + picks.len() implies pool.contains(
            #[trigger] all[i],
        ) by {
            if i < shorter.len() {
                assert(all[i] == shorter[i]);
            } else {
                assert(all[i] == shorter[picks.last() as int]);
            }
        }
        assert forall|k: int| 0 <= k < picks.len() implies all[pool.len() + k]
            == all[#[trigger] picks[k] as int] by {
            assert(picks[k] < pool.len() + k);
            if k < fewer.len() {
                assert(fewer[k] == picks[k]);
                assert(shorter[pool.len() + k] == shorter[fewer[k] as int]);
            }
        }
    }
}

/// Before it is shuffled, a sequence is the pool followed by one call for each pick.
/// The call of a pick is the very call at the picked position of that sequence, be it
/// one of the pool or an earlier repetition.
pub proof fn law_picks_repeat_what_they_point_at(pool: Seq<FuzzerValue>, picks: Seq<usize>)
    requires
        valid_picks(pool.len(), picks),
    ensures
        with_repetitions(pool, picks).len() == pool.len() + picks.len(),
        forall|i: int|
            0 <= i < pool.len() ==> #[trigger] with_repetitions(pool, picks)[i] == pool[i],
        forall|k: int|
            0 <= k < picks.len() ==> with_repetitions(pool, picks)[pool.len() + k]
                == with_repetitions(pool, picks)[#[trigger] picks[k] as int],
{
    lemma_repetitions(pool, picks);
    let all = with_repetitions(pool, picks);
    assert forall|i: int| 0 <= i < pool.len() implies #[trigger] all[i] == pool[i] by {
        assert(all.take(pool.len() as int)[i] == all[i]);
    }
}

/// A pick is possible exactly where it points at a call that stands in the sequence
/// by then.
pub proof fn law_possible_picks(pool: nat, picks: Seq<usize>, pick: usize)
    ensures
        valid_picks(pool, Seq::empty()),
        valid_picks(pool, picks.push(pick)) <==> valid_picks(pool, picks) && pick < pool
            + picks.len(),
{
    let more = picks.push(pick);
    if valid_picks(pool, more) {
        assert(more[picks.len() as int] < pool + picks.len());
        assert forall|i: int| 0 <= i < picks.len() implies #[trigger] picks[i] < pool + i by {
            assert(more[i] < pool + i);
        }
    }
    if valid_picks(pool, picks) && pick < pool + picks.len() {
        assert forall|i: int| 0 <= i < more.len() implies #[trigger] more[i] < pool + i by {
            if i < picks.len() {
                assert(picks[i] < pool + i);
            }
        }
    }
}

/// Calls in a given order are the calls at the given positions, one after the other.
pub proof fn law_order_of_calls(calls: Seq<FuzzerValue>, order: Seq<usize>)
    ensures
        arranged(calls, order).len() == order.len(),
        forall|i: int|
            0 <= i < order.len() ==> arranged(calls, order)[i] == calls[#[trigger] order[i] as int],
{
}

/// A sequence has one call for each function and one for each pick. It calls every
/// function, and only functions of the pool.
pub proof fn law_sequences_cover_the_pool(
    pool: Seq<FuzzerValue>,
    picks: Seq<usize>,
    calls: Seq<FuzzerValue>,
)
    requires
        valid_picks(pool.len(), picks),
        calls.to_multiset() == with_repetitions(pool, picks).to_multiset(),
    ensures
        calls.len() == pool.len() + picks.len(),
        forall|function: FuzzerValue| #[trigger]
            calls.contains(function) <==> pool.contains(function),
{
    broadcast use vstd::seq_lib::group_to_multiset_ensures;

    lemma_repetitions(pool, picks);
    let all = with_repetitions(pool, picks);
    assert(calls.to_multiset().len() == all.to_multiset().len());
    assert forall|function: FuzzerValue| #[trigger] calls.contains(function) <==> pool.contains(
        function,
    ) by {
        assert(calls.contains(function) <==> calls.to_multiset().count(function) > 0);
        assert(all.contains(function) <==> all.to_multiset().count(function) > 0);
        if pool.contains(function) {
            let i = pool.index_of(function);
            assert(all.take(pool.len() as int)[i] == function);
            assert(all[i] == function);
        }
        if all.contains(function) {
            let i = all.index_of(function);
            assert(pool.contains(all[i]));
        }
    }
}

/// A worker's step at one point of a run.
pub open spec fn step_at(
    states: Seq<StatefulWorkerView>,
    events: Seq<WorkerEventView>,
    i: int,
) -> bool {
    states[i].steps(events[i], states[i + 1])
}

/// A worker runs through `states` as it is told of `events`.
pub open spec fn is_run(states: Seq<StatefulWorkerView>, events: Seq<WorkerEventView>) -> bool {
    &&& states.len() == events.len() + 1
    &&& forall|i: int| 0 <= i < events.len() ==> #[trigger] step_at(states, events, i)
}

/// Every step keeps a worker well formed.
pub proof fn law_steps_keep_workers_well_formed(
    worker: StatefulWorkerView,
    event: WorkerEventView,
    next: StatefulWorkerView,
)
    requires
        worker.well_formed(),
        worker.steps(event, next),
    ensures
        next.well_formed(),
{
    let pool = worker.pool();
    assert(all_functions(pool));
    match event {
        WorkerEventView::SizeDrawn { size } => {
            if size == 0 {
                lemma_sequences_are_functions(pool, Seq::empty(), next.phase->calls);
            }
        },
        WorkerEventView::PickDrawn { pick } => {
            let before = worker.phase->picks;
            let picks = before.push(pick);
            assert forall|i: int| 0 <= i < picks.len() implies #[trigger] picks[i] < pool.len()
                + i by {
                if i < before.len() {
                    assert(before[i] < pool.len() + i);
                }
            }
            if picks.len() == worker.phase->size {
                lemma_sequences_are_functions(pool, picks, next.phase->calls);
            }
        },
        _ => {},
    }
}

/// A worker never comes to an end: whatever it asks for, it takes every answer to it.
pub proof fn law_worker_goes_on(worker: StatefulWorkerView)
    requires
        worker.well_formed(),
    ensures
        match worker.next_action() {
            WorkerActionView::DrawSize { .. } => forall|size: u32|
                worker.pool().len() > 0 && worker.pool().len() + size <= usize::MAX
                    ==> #[trigger] worker.expects(WorkerEventView::SizeDrawn { size }),
            WorkerActionView::DrawPick { greatest, .. } => forall|pick: usize|
                pick <= greatest ==> #[trigger] worker.expects(WorkerEventView::PickDrawn { pick }),
            WorkerActionView::SetTarget { .. } => forall|max_gas: u64| #[trigger]
                worker.expects(WorkerEventView::TargetSet { max_gas }),
            WorkerActionView::Mutate { .. } => forall|inputs: Seq<FuzzerValue>| #[trigger]
                worker.expects(WorkerEventView::InputsMutated { inputs }),
            WorkerActionView::Execute { .. } => forall|
                second_passed: bool,
                result: Result<u64, Seq<char>>,
            |
                worker.sec_elapsed < u64::MAX ==> #[trigger] worker.expects(
                    WorkerEventView::CallExecuted { second_passed, result },
                ),
            WorkerActionView::Reset => worker.expects(WorkerEventView::StateReset),
        },
{
}

/// `worker` has come from `start`: only its phase and its seconds are others.
pub open spec fn comes_from(worker: StatefulWorkerView, start: StatefulWorkerView) -> bool {
    worker == (StatefulWorkerView {
        phase: worker.phase,
        sec_elapsed: worker.sec_elapsed,
        ..start
    })
}

/// The first `count` picks of a run that begins with the size of a sequence.
pub open spec fn drawn_picks(events: Seq<WorkerEventView>, count: nat) -> Seq<usize> {
    Seq::new(count, |i: int| events[i + 1]->pick)
}

/// Where a run stands that begins with the drawing of a sequence, while it draws and
/// when all is drawn.
proof fn lemma_drawing(states: Seq<StatefulWorkerView>, events: Seq<WorkerEventView>, i: int)
    requires
        is_run(states, events),
        states[0].well_formed(),
        states[0].phase is AwaitingSize,
        events.len() > 0,
        1 <= i <= 1 + events[0]->size,
        i < states.len(),
    ensures
        events[0] is SizeDrawn,
        comes_from(states[i], states[0]),
        states[i].well_formed(),
        i <= events[0]->size ==> {
            &&& states[i].phase is Drawing
            &&& states[i].phase->size == events[0]->size
            &&& states[i].phase->picks == drawn_picks(events, (i - 1) as nat)
        },
        i == 1 + events[0]->size ==> {
            &&& states[i].phase is Calling
            &&& states[i].phase->position == 0
            &&& states[i].phase->stage is Targeting
            &&& valid_picks(states[0].pool().len(), drawn_picks(events, events[0]->size as nat))
            &&& states[i].phase->calls.to_multiset() == with_repetitions(
                states[0].pool(),
                drawn_picks(events, events[0]->size as nat),
            ).to_multiset()
            &&& states[i].phase->calls.len() == states[0].pool().len() + events[0]->size
            &&& forall|function: FuzzerValue| #[trigger]
                states[i].phase->calls.contains(function) <==> states[0].pool().contains(function)
        },
    decreases i,
{
    assert(step_at(states, events, i - 1));
    let size = events[0]->size as nat;
    let pool = states[0].pool();
    if i == 1 {
        law_steps_keep_workers_well_formed(states[0], events[0], states[1]);
        assert(drawn_picks(events, 0) =~= Seq::empty());
        if size == 0 {
            law_sequences_cover_the_pool(pool, Seq::empty(), states[1].phase->calls);
        }
    } else {
        lemma_drawing(states, events, i - 1);
        law_steps_keep_workers_well_formed(states[i - 1], events[i - 1], states[i]);
        assert(drawn_picks(events, (i - 1) as nat) =~= drawn_picks(events, (i - 2) as nat).push(
            events[i - 1]->pick,
        ));
        if i == 1 + size {
            let before = states[i - 1].phase->picks;
            let picks = before.push(events[i - 1]->pick);
            assert forall|j: int| 0 <= j < picks.len() implies #[trigger] picks[j] < pool.len()
                + j by {
                if j < before.len() {
                    assert(before[j] < pool.len() + j);
                }
            }
            law_sequences_cover_the_pool(pool, picks, states[i].phase->calls);
        }
    }
}

/// Where a run stands that has begun a sequence of calls at `first`, before its call
/// number `k`.
proof fn lemma_calling(
    states: Seq<StatefulWorkerView>,
    events: Seq<WorkerEventView>,
    first: int,
    k: int,
)
    requires
        is_run(states, events),
        0 <= first,
        first + 3 * k < states.len(),
        states[first].well_formed(),
        states[first].phase is Calling,
        states[first].phase->position == 0,
        states[first].phase->stage is Targeting,
        0 <= k <= states[first].phase->calls.len(),
    ensures
        comes_from(states[first + 3 * k], states[first]),
        states[first + 3 * k].phase == (WorkerPhaseView::Calling {
            calls: states[first].phase->calls,
            position: k as nat,
            stage: CallStageView::Targeting,
        }),
        k > 0 ==> is_call(states, events, first + 3 * (k - 1), states[first].phase->calls[k - 1]),
    decreases k,
{
    if k > 0 {
        let at = first + 3 * (k - 1);
        lemma_calling(states, events, first, k - 1);
        assert(step_at(states, events, at));
        assert(step_at(states, events, at + 1));
        assert(step_at(states, events, at + 2));
    }
}

/// From `i` on, a run makes one call of `function`: the function becomes the target,
/// the inputs that it starts from are mutated four times with the gas that it has used
/// at most, and it is executed once with what came of that.
pub open spec fn is_call(
    states: Seq<StatefulWorkerView>,
    events: Seq<WorkerEventView>,
    i: int,
    function: FuzzerValue,
) -> bool {
    &&& states[i].next_action() == (WorkerActionView::SetTarget { function })
    &&& events[i] is TargetSet
    &&& states[i + 1].next_action() == (WorkerActionView::Mutate {
        inputs: function->Function_1,
        mutations: 4,
        gas: Some(events[i]->max_gas),
    })
    &&& events[i + 1] is InputsMutated
    &&& states[i + 2].next_action() == (WorkerActionView::Execute {
        inputs: events[i + 1]->InputsMutated_inputs,
    })
    &&& events[i + 2] is CallExecuted
}

/// How many steps a sequence takes of which `size` was drawn: one for its size, one
/// for each pick, three for each call, and one for the reset.
pub open spec fn steps_of_a_sequence(pool: nat, size: nat) -> nat {
    2 + size + 3 * (pool + size)
}

/// The course of a whole sequence, whatever is drawn, mutated and answered. A size is
/// drawn between one and the greatest size. Exactly as many picks are drawn as it says,
/// each between zero and the last position of the sequence as it has grown. Then every
/// function of the pool and what every pick points at is called, each once, in the
/// order of the sequence. The state is reset once, after the last call and not before, and the
/// worker is where it began.
pub proof fn law_course_of_a_sequence(
    states: Seq<StatefulWorkerView>,
    events: Seq<WorkerEventView>,
)
    requires
        is_run(states, events),
        states[0].well_formed(),
        states[0].phase is AwaitingSize,
        events.len() > 0,
        events.len() >= steps_of_a_sequence(states[0].pool().len(), events[0]->size as nat),
    ensures
        ({
            let start = states[0];
            let pool = start.pool();
            let size = events[0]->size as int;
            let first = 1 + size;
            let calls = states[first].phase->calls;
            let last = first + 3 * (pool.len() + size);
            &&& start.next_action() == (WorkerActionView::DrawSize {
                least: 1,
                greatest: start.max_call_sequence_size as nat,
            })
            &&& events[0] is SizeDrawn
            &&& forall|i: int|
                1 <= i <= size ==> #[trigger] states[i].next_action() == (
                WorkerActionView::DrawPick { least: 0, greatest: (pool.len() + i - 2) as nat })
            &&& calls.len() == pool.len() + size
            &&& valid_picks(pool.len(), drawn_picks(events, size as nat))
            &&& calls.to_multiset() == with_repetitions(
                pool,
                drawn_picks(events, size as nat),
            ).to_multiset()
            &&& forall|function: FuzzerValue| #[trigger]
                calls.contains(function) <==> pool.contains(function)
            &&& forall|k: int|
                0 <= k < calls.len() ==> is_call(states, events, first + 3 * k, #[trigger] calls[k])
            &&& forall|i: int| 0 <= i < last ==> !(#[trigger] states[i].next_action() is Reset)
            &&& states[last].next_action() is Reset
            &&& events[last] is StateReset
            &&& comes_from(states[last + 1], start)
            &&& states[last + 1].phase is AwaitingSize
        }),
{
    let start = states[0];
    let pool = start.pool();
    let size = events[0]->size as int;
    let first = 1 + size;
    let last = first + 3 * (pool.len() + size);
    lemma_drawing(states, events, first);
    let calls = states[first].phase->calls;
    assert forall|i: int| 1 <= i <= size implies #[trigger] states[i].next_action() == (
    WorkerActionView::DrawPick { least: 0, greatest: (pool.len() + i - 2) as nat }) by {
        lemma_drawing(states, events, i);
    }
    assert forall|k: int| 0 <= k < calls.len() implies is_call(
        states,
        events,
        first + 3 * k,
        #[trigger] calls[k],
    ) by {
        lemma_calling(states, events, first, k + 1);
    }
    assert forall|i: int| 0 <= i < last implies !(#[trigger] states[i].next_action() is Reset) by {
        if i >= first {
            let k = (i - first) / 3;
            assert(is_call(states, events, first + 3 * k, calls[k]));
            assert(i == first + 3 * k || i == first + 3 * k + 1 || i == first + 3 * k + 2);
        } else if i >= 1 {
            lemma_drawing(states, events, i);
        }
    }
    lemma_calling(states, events, first, calls.len() as int);
    assert(step_at(states, events, last));
}

/// A call as it went: whether a second had passed, and whether it failed.
pub ghost struct CallRecord {
    pub second_passed: bool,
    pub failed: bool,
}

/// The seconds that were counted after a number of calls.
pub open spec fn elapsed_after(elapsed: u64, records: Seq<CallRecord>) -> u64
    decreases records.len(),
{
    if records.len() == 0 {
        elapsed
    } else if records.last().second_passed {
        (elapsed_after(elapsed, records.drop_last()) + 1) as u64
    } else {
        elapsed_after(elapsed, records.drop_last())
    }
}

/// The counts after a number of calls.
pub open spec fn stats_after(stats: Stats, elapsed: u64, records: Seq<CallRecord>) -> Stats
    decreases records.len(),
{
    if records.len() == 0 {
        stats
    } else {
        counted(
            stats_after(stats, elapsed, records.drop_last()),
            records.last().second_passed,
            elapsed_after(elapsed, records),
            records.last().failed,
        )
    }
}

/// How many of the calls failed.
pub open spec fn failures(records: Seq<CallRecord>) -> nat
    decreases records.len(),
{
    if records.len() == 0 {
        0
    } else {
        failures(records.drop_last()) + if records.last().failed {
            1nat
        } else {
            0nat
        }
    }
}

/// Every call is counted once, and every failed call is counted as a crash once.
pub proof fn law_calls_are_counted(stats: Stats, elapsed: u64, records: Seq<CallRecord>)
    requires
        stats.execs + records.len() <= u64::MAX,
        stats.crashes + failures(records) <= u64::MAX,
    ensures
        stats_after(stats, elapsed, records).execs == stats.execs + records.len(),
        stats_after(stats, elapsed, records).crashes == stats.crashes + failures(records),
        failures(records) <= records.len(),
    decreases records.len(),
{
    if records.len() > 0 {
        law_calls_are_counted(stats, elapsed, records.drop_last());
    }
}

/// What one call adds to the counts. It is counted once, a failure once as a crash,
/// and a second that has passed once. Only then is the speed taken anew: the calls so
/// far divided by the seconds so far, rounded down.
pub proof fn law_what_a_call_adds(stats: Stats, second_passed: bool, elapsed: u64, failed: bool)
    requires
        stats.execs < u64::MAX,
        failed ==> stats.crashes < u64::MAX,
        second_passed ==> stats.secs_since_last_cov < u64::MAX && elapsed > 0,
    ensures
        ({
            let after = counted(stats, second_passed, elapsed, failed);
            &&& after.execs == stats.execs + 1
            &&& failed ==> after.crashes == stats.crashes + 1
            &&& !failed ==> after.crashes == stats.crashes
            &&& second_passed ==> {
                &&& after.secs_since_last_cov == stats.secs_since_last_cov + 1
                &&& after.execs_per_sec * elapsed <= stats.execs + 1
                &&& stats.execs + 1 < (after.execs_per_sec + 1) * elapsed
            }
            &&& !second_passed ==> {
                &&& after.secs_since_last_cov == stats.secs_since_last_cov
                &&& after.execs_per_sec == stats.execs_per_sec
            }
        }),
{
    if second_passed {
        let execs = (stats.execs + 1) as int;
        let elapsed = elapsed as int;
        let speed = execs / elapsed;
        vstd::arithmetic::div_mod::lemma_fundamental_div_mod(execs, elapsed);
        assert(speed * elapsed <= execs < (speed + 1) * elapsed) by (nonlinear_arith)
            requires
                execs == elapsed * speed + execs % elapsed,
                0 <= execs % elapsed < elapsed,
        ;
    }
}

/// A second is counted with the call during which it passed, and with nothing else.
pub proof fn law_seconds_are_counted(
    worker: StatefulWorkerView,
    event: WorkerEventView,
    next: StatefulWorkerView,
)
    requires
        worker.steps(event, next),
    ensures
        event matches WorkerEventView::CallExecuted { second_passed, .. } ==> next.sec_elapsed
            == worker.sec_elapsed + if second_passed {
            1int
        } else {
            0int
        },
        !(event is CallExecuted) ==> next.sec_elapsed == worker.sec_elapsed,
{
}

/// A worker takes what it has asked for and nothing else. A size is taken where there
/// is something to pick from and the sequence fits in memory; a pick where it points at
/// a call that stands in the sequence by then.
pub proof fn law_what_a_worker_takes(worker: StatefulWorkerView)
    requires
        worker.well_formed(),
    ensures
        forall|size: u32| #[trigger]
            worker.expects(WorkerEventView::SizeDrawn { size }) <==> {
                &&& worker.next_action() is DrawSize
                &&& size == 0 || worker.fuzz_functions.len() + worker.target_functions.len() > 0
                &&& worker.fuzz_functions.len() + worker.target_functions.len() + size
                    <= usize::MAX
            },
        forall|pick: usize| #[trigger]
            worker.expects(WorkerEventView::PickDrawn { pick }) <==> {
                &&& worker.next_action() is DrawPick
                &&& pick < worker.fuzz_functions.len() + worker.target_functions.len()
                    + worker.phase->picks.len()
            },
        forall|max_gas: u64| #[trigger]
            worker.expects(WorkerEventView::TargetSet { max_gas }) <==> worker.next_action() is SetTarget,
        forall|inputs: Seq<FuzzerValue>| #[trigger]
            worker.expects(WorkerEventView::InputsMutated { inputs })
                <==> worker.next_action() is Mutate,
        forall|second_passed: bool, result: Result<u64, Seq<char>>| #[trigger]
            worker.expects(WorkerEventView::CallExecuted { second_passed, result }) <==> {
                &&& worker.next_action() is Execute
                &&& second_passed ==> worker.sec_elapsed < u64::MAX
            },
        worker.expects(WorkerEventView::StateReset) <==> worker.next_action() is Reset,
{
}

/// The functions with the prefix come first in the pool, the targets after them.
pub proof fn law_pool_of_a_worker(worker: StatefulWorkerView)
    ensures
        worker.pool().len() == worker.fuzz_functions.len() + worker.target_functions.len(),
        forall|i: int|
            0 <= i < worker.fuzz_functions.len() ==> worker.pool()[i]
                == #[trigger] worker.fuzz_functions[i],
        forall|i: int|
            0 <= i < worker.target_functions.len() ==> worker.pool()[worker.fuzz_functions.len()
                + i] == #[trigger] worker.target_functions[i],
{
}

/// Exactly the failed calls are reported as crashes, each with its name, the inputs
/// that it was executed with and its error, however often the same crash was seen
/// before. Of every other call its gas is reported.
pub proof fn law_failures_are_reported(
    worker: StatefulWorkerView,
    result: Result<u64, Seq<char>>,
)
    requires
        worker.well_formed(),
        worker.next_action() is Execute,
    ensures
        worker.report(result) is NewCrash <==> result is Err,
        result matches Ok(gas) ==> worker.report(result) == (CallReportView::GasUsed {
            function: worker.phase->calls[worker.phase->position as int],
            gas_used: gas,
        }),
        worker.report(result) matches CallReportView::NewCrash { name, inputs, error } ==> {
            &&& worker.phase->calls[worker.phase->position as int]->Function_0 == name
            &&& worker.next_action() == (WorkerActionView::Execute { inputs })
            &&& result == Err::<u64, Seq<char>>(error)
        },
{
}

/// The function that prepares the state is never called by a sequence, given that
/// no two functions have the same name.
pub proof fn law_preparation_is_left_out(abis: Seq<FunctionAbiView>, name: Seq<char>)
    requires
        forall|i: int, j: int|
            0 <= i < j < abis.len() ==> (#[trigger] abis[i]).name != (#[trigger] abis[j]).name,
    ensures
        forall|i: int|
            0 <= i < without_first(abis, name).len() ==> (#[trigger] without_first(
                abis,
                name,
            )[i]).name != name && abis.contains(without_first(abis, name)[i]),
        forall|i: int|
            0 <= i < abis.len() && (#[trigger] abis[i]).name != name ==> without_first(
                abis,
                name,
            ).contains(abis[i]),
    decreases abis.len(),
{
    if abis.len() > 0 {
        let rest = abis.drop_first();
        let left = without_first(abis, name);
        assert(rest.len() + 1 == abis.len());
        assert forall|i: int| 0 <= i < rest.len() implies rest[i] == abis[i + 1] by {}
        if abis[0].name == name {
            assert forall|i: int| 0 <= i < left.len() implies (#[trigger] left[i]).name != name
                && abis.contains(left[i]) by {
                assert(left[i] == abis[i + 1]);
            }
            assert forall|i: int| 0 <= i < abis.len() && (#[trigger] abis[i]).name
                != name implies left.contains(abis[i]) by {
                assert(left[i - 1] == abis[i]);
            }
        } else {
            assert forall|i: int, j: int| 0 <= i < j < rest.len() implies (#[trigger] rest[i]).name
                != (#[trigger] rest[j]).name by {
                assert(abis[i + 1].name != abis[j + 1].name);
            }
            law_preparation_is_left_out(rest, name);
            let tail = without_first(rest, name);
            assert(left =~= seq![abis[0]] + tail);
            assert forall|i: int| 0 <= i < left.len() implies (#[trigger] left[i]).name != name
                && abis.contains(left[i]) by {
                if i > 0 {
                    assert(left[i] == tail[i - 1]);
                    let j = rest.index_of(tail[i - 1]);
                    assert(abis[j + 1] == left[i]);
                } else {
                    assert(abis[0] == left[0]);
                }
            }
            assert forall|i: int| 0 <= i < abis.len() && (#[trigger] abis[i]).name
                != name implies left.contains(abis[i]) by {
                if i > 0 {
                    assert(rest[i - 1] == abis[i]);
                    let j = tail.index_of(rest[i - 1]);
                    assert(left[j + 1] == abis[i]);
                } else {
                    assert(left[0] == abis[0]);
                }
            }
        }
    }
}

} // verus!
