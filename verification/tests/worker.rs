use move_fuzzer::fuzzer::error::Error;
use move_fuzzer::fuzzer::stats::Stats;
use move_fuzzer::mutator::types::FuzzerType;
use move_fuzzer::runner::move_model::{
    AbiError, FunctionModel, ModuleModel, MoveType, PrimitiveType,
};
use move_fuzzer::worker::stateful_worker::{
    arrange_calls, generate_abi_from_source_starts_with, starts_with, CallReport, StatefulWorker,
    WorkerAction,
};

fn function(name: &str, parameters: Vec<MoveType>) -> FunctionModel {
    FunctionModel {
        name: name.to_string(),
        parameters,
        result: MoveType::Primitive(PrimitiveType::Bool),
        bytecode_len: Some(3),
    }
}

fn package() -> Vec<ModuleModel> {
    let signer = MoveType::Reference(false, Box::new(MoveType::Primitive(PrimitiveType::Signer)));
    vec![ModuleModel {
        matches_target: true,
        functions: vec![
            function("fuzz_init", vec![]),
            function("fuzz_add", vec![signer, MoveType::Primitive(PrimitiveType::U8)]),
            function("mint", vec![MoveType::Primitive(PrimitiveType::Signer), MoveType::Struct]),
            function("fuzz_sub", vec![]),
        ],
    }]
}

fn named(name: &str, parameters: Vec<FuzzerType>) -> FuzzerType {
    FuzzerType::Function(name.to_string(), parameters, None)
}

fn signer_input() -> FuzzerType {
    FuzzerType::Reference(false, Box::new(FuzzerType::Address([0; 32])))
}

fn pool() -> Vec<FuzzerType> {
    vec![
        named("fuzz_add", vec![signer_input(), FuzzerType::U8(0)]),
        named("fuzz_sub", vec![]),
        named("mint", vec![FuzzerType::Struct(vec![FuzzerType::U64(0)])]),
    ]
}

fn worker() -> StatefulWorker {
    StatefulWorker::new(&package(), &vec!["mint".to_string()], "fuzz_", 6).ok().unwrap()
}

fn name_of(function: &FuzzerType) -> String {
    match function {
        FuzzerType::Function(name, _, _) => name.clone(),
        _ => panic!("no function"),
    }
}

fn sorted_names(calls: &[FuzzerType]) -> Vec<String> {
    let mut names: Vec<String> = calls.iter().map(name_of).collect();
    names.sort();
    names
}

fn zero_stats() -> Stats {
    Stats { execs: 0, crashes: 0, secs_since_last_cov: 0, execs_per_sec: 0 }
}

#[test]
fn prefixes_are_compared_character_by_character() {
    assert!(starts_with("fuzz_add", "fuzz_"));
    assert!(starts_with("fuzz_", "fuzz_"));
    assert!(starts_with("x", ""));
    assert!(!starts_with("fuz", "fuzz_"));
    assert!(!starts_with("fuzzer", "fuzz_"));
    assert!(starts_with("\u{e9}t\u{e9}", "\u{e9}"));
}

#[test]
fn prefixed_functions_keep_all_parameters() {
    let abis = generate_abi_from_source_starts_with(&package(), "fuzz_").ok().unwrap();
    assert_eq!(abis.len(), 3);
    assert_eq!(abis[0].name, "fuzz_init");
    assert_eq!(abis[1].name, "fuzz_add");
    assert_eq!(abis[1].parameters, vec![signer_input(), FuzzerType::U8(0)]);
    assert_eq!(abis[1].results, vec![FuzzerType::Bool(false)]);
    assert_eq!(abis[2].name, "fuzz_sub");
    assert_eq!(
        generate_abi_from_source_starts_with(&vec![], "fuzz_").err(),
        Some(AbiError::ModuleNotFound)
    );
}

#[test]
fn workers_need_their_targets() {
    let names = vec!["mint".to_string(), "burn".to_string()];
    let missing = StatefulWorker::new(&package(), &names, "fuzz_", 1);
    assert_eq!(missing.err(), Some(AbiError::FunctionNotFound));
    let no_module = StatefulWorker::new(&vec![], &vec![], "fuzz_", 1);
    assert_eq!(no_module.err(), Some(AbiError::ModuleNotFound));
}

#[test]
fn calls_are_repeated_as_picked() {
    let worker = worker();
    assert_eq!(worker.ordered_calls(&vec![]), pool());
    let calls = worker.ordered_calls(&vec![2, 3, 0]);
    let mut expected = pool();
    expected.push(pool()[2].clone());
    expected.push(pool()[2].clone());
    expected.push(pool()[0].clone());
    assert_eq!(calls, expected);
}

#[test]
fn sizes_and_picks_have_bounds() {
    let mut full = worker();
    match full.next_action() {
        WorkerAction::DrawSize { least, greatest } => assert_eq!((least, greatest), (1, 6)),
        _ => panic!("no size asked for"),
    }
    assert!(full.accepts_size(1) && full.accepts_size(0) && !full.accepts_pick(0));
    full.size_drawn(3);
    for drawn in 0..3u64 {
        match full.next_action() {
            WorkerAction::DrawPick { least, greatest } => {
                assert_eq!((least, greatest), (0, 2 + drawn));
                assert!(full.accepts_pick(greatest as usize));
                assert!(!full.accepts_pick(greatest as usize + 1));
                assert!(!full.accepts_size(1));
                full.pick_drawn(greatest as usize);
            }
            _ => panic!("no pick asked for"),
        }
    }
    assert!(matches!(full.next_action(), WorkerAction::SetTarget { .. }));
}

#[test]
fn nothing_can_be_picked_from_an_empty_pool() {
    let mut empty = StatefulWorker::new(&package(), &vec![], "none_", 6).ok().unwrap();
    assert!(!empty.accepts_size(1));
    assert!(empty.accepts_size(0));
    empty.size_drawn(0);
    assert!(matches!(empty.next_action(), WorkerAction::Reset));
    empty.state_reset();
    assert!(matches!(empty.next_action(), WorkerAction::DrawSize { .. }));
}

#[test]
fn calls_can_be_arranged() {
    let calls = pool();
    let arranged = arrange_calls(&calls, &vec![2, 0, 2]);
    assert_eq!(arranged, vec![calls[2].clone(), calls[0].clone(), calls[2].clone()]);
}

#[test]
fn sequences_hold_every_function() {
    let worker = worker();
    let picks = vec![0, 0, 4];
    let calls = worker.generate_call_sequence(&picks);
    assert_eq!(calls.len(), 6);
    assert_eq!(sorted_names(&calls), sorted_names(&worker.ordered_calls(&picks)));
}

#[test]
fn sequences_are_shuffled() {
    let worker = worker();
    let picks: Vec<usize> = (0..60).collect();
    let ordered = worker.ordered_calls(&picks);
    let shuffled = (0..20).any(|_| worker.generate_call_sequence(&picks) != ordered);
    assert!(shuffled);
}

/// Begins a sequence that repeats the given picks.
fn begin(worker: &mut StatefulWorker, picks: &[usize]) {
    worker.size_drawn(picks.len() as u32);
    for pick in picks {
        worker.pick_drawn(*pick);
    }
}

/// Brings the next call to its execution and gives its function.
fn prepare_call(worker: &mut StatefulWorker, inputs: Vec<FuzzerType>) -> FuzzerType {
    match worker.next_action() {
        WorkerAction::SetTarget { function } => {
            worker.target_set(7);
            worker.inputs_mutated(inputs);
            function
        }
        _ => panic!("no call"),
    }
}

#[test]
fn sequences_are_called_and_then_reset() {
    let mut worker = worker();
    let mut stats = zero_stats();
    for _ in 0..2 {
        let mut called = Vec::new();
        begin(&mut worker, &[1]);
        while let WorkerAction::SetTarget { function } = worker.next_action() {
            worker.target_set(33);
            match (worker.next_action(), &function) {
                (
                    WorkerAction::Mutate { inputs, mutations, gas },
                    FuzzerType::Function(_, parameters, _),
                ) => {
                    assert_eq!(&inputs, parameters);
                    assert_eq!((mutations, gas), (4, Some(33)));
                }
                _ => panic!("no mutation asked for"),
            }
            worker.inputs_mutated(vec![FuzzerType::U8(called.len() as u8)]);
            match worker.next_action() {
                WorkerAction::Execute { inputs } => {
                    assert_eq!(inputs, vec![FuzzerType::U8(called.len() as u8)]);
                }
                _ => panic!("no execution asked for"),
            }
            match worker.call_executed(&mut stats, false, Ok(5)) {
                CallReport::GasUsed { function: reported, gas_used } => {
                    assert_eq!(reported, function);
                    assert_eq!(gas_used, 5);
                }
                CallReport::NewCrash { .. } => panic!("no crash expected"),
            }
            called.push(function);
        }
        assert_eq!(sorted_names(&called), ["fuzz_add", "fuzz_sub", "fuzz_sub", "mint"]);
        assert!(matches!(worker.next_action(), WorkerAction::Reset));
        worker.state_reset();
        assert!(matches!(worker.next_action(), WorkerAction::DrawSize { .. }));
    }
    assert_eq!(stats, Stats { execs: 8, ..zero_stats() });
}

#[test]
fn every_failure_is_reported() {
    let mut worker = worker();
    let mut stats = zero_stats();
    begin(&mut worker, &[]);
    for crashes in 1..4u64 {
        let function = prepare_call(&mut worker, vec![FuzzerType::U8(9)]);
        let error = Error::Unknown { message: "Transaction was discarded".to_string() };
        match worker.call_executed(&mut stats, false, Err(error)) {
            CallReport::NewCrash { name, inputs, error } => {
                assert_eq!(name, name_of(&function));
                assert_eq!(inputs, vec![FuzzerType::U8(9)]);
                assert_eq!(
                    error,
                    Error::Unknown { message: "Transaction was discarded".to_string() }
                );
            }
            CallReport::GasUsed { .. } => panic!("no gas expected"),
        }
        assert_eq!(stats.crashes, crashes);
        assert_eq!(stats.execs, crashes);
    }
}

#[test]
fn seconds_are_counted() {
    let mut worker = worker();
    let mut stats = zero_stats();
    stats.execs = 100;
    begin(&mut worker, &[]);
    let expected = [(true, (101, 1, 101)), (true, (102, 2, 51)), (false, (103, 2, 51))];
    for (second_passed, counts) in expected {
        prepare_call(&mut worker, vec![]);
        worker.call_executed(&mut stats, second_passed, Ok(1));
        assert_eq!((stats.execs, stats.secs_since_last_cov, stats.execs_per_sec), counts);
    }
    assert_eq!(worker.sec_elapsed(), 2);
}
