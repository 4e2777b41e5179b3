use move_fuzzer::fuzzer::error::Error;
use move_fuzzer::mutator::types::FuzzerType;
use move_fuzzer::runner::aptos_helpers::usdcx_mint_helper::UsdcxMintHelper;
use move_fuzzer::runner::aptos_helpers::AptosHelper;
use move_fuzzer::runner::chain::AccountAddress;
use move_fuzzer::runner::move_model::{
    AbiError, FunctionModel, ModuleModel, MoveType, PrimitiveType,
};
use move_fuzzer::runner::move_value::{MoveValue, TransactionArgument};
use move_fuzzer::runner::package::{resolve_package_address, CompiledModule, ModuleHeader};
use move_fuzzer::runner::setup::{SetupAction, SetupEvent, SetupStep};
use move_fuzzer::runner::stateful_runner::aptos_runner::AptosRunner;
use move_fuzzer::runner::stateless_runner::aptos_runner::StatelessAptosRunner;
use move_fuzzer::runner::table::StringTable;
use move_fuzzer::runner::transaction::{
    AccountRequest, EntryFunction, ExecutionStatus, Transaction, TransactionOutput,
    TransactionPayload, TransactionStatus,
};

fn address(byte: u8) -> AccountAddress {
    AccountAddress { bytes: [byte; 32] }
}

fn compiled(byte: u8, header: Option<(u8, &str)>) -> CompiledModule {
    CompiledModule {
        bytes: vec![byte; 3],
        header: header
            .map(|(at, name)| ModuleHeader { address: address(at), name: name.to_string() }),
    }
}

fn modules() -> Vec<CompiledModule> {
    vec![compiled(1, Some((7, "other"))), compiled(2, Some((8, "usdcx")))]
}

fn helpers(used: bool) -> StringTable<String> {
    let mut table = StringTable::new();
    if used {
        table.insert("usdcx::mint".to_string(), "usdcx_mint_v1".to_string());
    }
    table
}

fn package() -> Vec<ModuleModel> {
    vec![ModuleModel {
        matches_target: true,
        functions: vec![FunctionModel {
            name: "mint".to_string(),
            parameters: vec![MoveType::Primitive(PrimitiveType::U16)],
            result: MoveType::Other,
            bytecode_len: Some(12),
        }],
    }]
}

fn stateless_with(module: &str, modules: Vec<CompiledModule>, helped: bool) -> StatelessAptosRunner {
    StatelessAptosRunner::new(
        &package(),
        module,
        "mint",
        vec![9, 9],
        modules,
        5,
        helpers(helped),
    )
    .ok()
    .unwrap()
}

fn stateful_with(module: &str, modules: Vec<CompiledModule>, helped: bool) -> AptosRunner {
    AptosRunner::new(module, vec![9, 9], modules, 5, helpers(helped))
}

fn success() -> TransactionStatus {
    TransactionStatus::Keep(ExecutionStatus::Success)
}

fn failure() -> TransactionStatus {
    TransactionStatus::Keep(ExecutionStatus::Failure("Abort".to_string()))
}

fn discard() -> TransactionStatus {
    TransactionStatus::Discard("SEQUENCE_NUMBER_TOO_OLD".to_string())
}

fn publication(sequence_number: u64, gas_unit_price: Option<u64>) -> Transaction {
    Transaction {
        payload: TransactionPayload::PublishPackage {
            metadata: vec![9, 9],
            modules: vec![vec![1; 3], vec![2; 3]],
        },
        sequence_number,
        gas_unit_price,
    }
}

fn call(
    at: AccountAddress,
    function: &str,
    args: Vec<Vec<u8>>,
    sequence_number: u64,
    gas_unit_price: Option<u64>,
) -> Transaction {
    Transaction {
        payload: TransactionPayload::EntryFunction(EntryFunction {
            module_address: at,
            module_name: "usdcx".to_string(),
            function_name: function.to_string(),
            args,
        }),
        sequence_number,
        gas_unit_price,
    }
}

fn executes(action: &SetupAction, apply: bool, transaction: &Transaction) {
    assert_eq!(action.apply_write_set, apply);
    match &action.step {
        SetupStep::Execute(asked) => assert_eq!(asked, transaction),
        _ => panic!("no transaction"),
    }
}

fn finishes(action: &SetupAction, apply: bool) {
    assert_eq!(action.apply_write_set, apply);
    assert!(matches!(action.step, SetupStep::Finished));
}

fn opens(action: &SetupAction, request: AccountRequest) {
    assert!(!action.apply_write_set);
    match &action.step {
        SetupStep::OpenAccount(asked) => assert_eq!(*asked, request),
        _ => panic!("no account"),
    }
}

fn message(text: &str) -> Error {
    Error::Unknown { message: text.to_string() }
}

fn ready_stateless() -> StatelessAptosRunner {
    let mut runner = stateless_with("usdcx", modules(), false);
    runner.ensure_initialized(SetupEvent::Start);
    runner.ensure_initialized(SetupEvent::AccountOpened(address(8)));
    runner.ensure_initialized(SetupEvent::Executed(success()));
    runner.ensure_initialized(SetupEvent::Executed(success()));
    assert!(runner.is_initialized());
    runner
}

#[test]
fn package_address_prefers_the_target() {
    let both = modules();
    assert_eq!(resolve_package_address(&both, "usdcx"), Some(address(8)));
    assert_eq!(resolve_package_address(&both, "missing"), Some(address(7)));
    let unreadable = vec![compiled(1, None), compiled(2, Some((4, "x")))];
    assert_eq!(resolve_package_address(&unreadable, "usdcx"), Some(address(4)));
    assert_eq!(resolve_package_address(&vec![compiled(1, None)], "usdcx"), None);
    assert_eq!(resolve_package_address(&vec![], "usdcx"), None);
}

#[test]
fn stateless_setup_without_helpers() {
    let mut runner = stateless_with("usdcx", modules(), false);
    assert!(!runner.is_initialized());
    let start = runner.ensure_initialized(SetupEvent::Start);
    assert!(start.reset_chain);
    opens(&start, AccountRequest::At(address(8)));
    let action = runner.ensure_initialized(SetupEvent::AccountOpened(address(8)));
    executes(&action, false, &publication(0, Some(100)));
    let action = runner.ensure_initialized(SetupEvent::Executed(success()));
    executes(&action, true, &call(address(8), "fuzz_init", vec![], 1, Some(100)));
    finishes(&runner.ensure_initialized(SetupEvent::Executed(failure())), true);
    assert!(runner.is_initialized());
    let sent = runner.send_transaction("mint", &vec![]).unwrap();
    assert_eq!(sent, call(address(8), "mint", vec![], 2, Some(100)));
    let again = runner.ensure_initialized(SetupEvent::Start);
    assert!(!again.reset_chain);
    finishes(&again, false);
    assert_eq!(runner.send_transaction("mint", &vec![]).unwrap().sequence_number, 2);
}

#[test]
fn stateless_setup_with_a_helper() {
    let mut runner = stateless_with("usdcx", modules(), true);
    let args = UsdcxMintHelper::new(5).unwrap().initialize_args(&address(8)).unwrap();
    runner.ensure_initialized(SetupEvent::Start);
    runner.ensure_initialized(SetupEvent::AccountOpened(address(8)));
    let action = runner.ensure_initialized(SetupEvent::Executed(success()));
    executes(&action, true, &call(address(8), "initialize", args, 1, Some(100)));
    let action = runner.ensure_initialized(SetupEvent::Executed(success()));
    executes(&action, true, &call(address(8), "fuzz_init", vec![], 2, Some(100)));
    finishes(&runner.ensure_initialized(SetupEvent::Executed(success())), true);
    assert_eq!(runner.send_transaction("mint", &vec![]).unwrap().sequence_number, 3);
}

#[test]
fn stateless_setup_goes_on_after_failures() {
    let mut runner = stateless_with("usdcx", modules(), true);
    runner.ensure_initialized(SetupEvent::Start);
    runner.ensure_initialized(SetupEvent::AccountOpened(address(8)));
    let action = runner.ensure_initialized(SetupEvent::Executed(failure()));
    executes(&action, true, &call(address(8), "fuzz_init", vec![], 0, Some(100)));
    finishes(&runner.ensure_initialized(SetupEvent::Executed(discard())), false);
    assert_eq!(runner.send_transaction("mint", &vec![]).unwrap().sequence_number, 0);

    let mut runner = stateless_with("usdcx", modules(), true);
    runner.ensure_initialized(SetupEvent::Start);
    runner.ensure_initialized(SetupEvent::AccountOpened(address(8)));
    runner.ensure_initialized(SetupEvent::Executed(success()));
    let action = runner.ensure_initialized(SetupEvent::Executed(failure()));
    executes(&action, false, &call(address(8), "fuzz_init", vec![], 1, Some(100)));
    finishes(&runner.ensure_initialized(SetupEvent::Executed(TransactionStatus::Retry)), false);
    assert_eq!(runner.send_transaction("mint", &vec![]).unwrap().sequence_number, 1);
}

#[test]
fn stateless_setup_opens_a_fresh_account() {
    let mut runner = stateless_with("usdcx", vec![compiled(1, None)], false);
    opens(
        &runner.ensure_initialized(SetupEvent::Start),
        AccountRequest::Fresh { balance: 10_000_000_000, sequence_number: 0 },
    );
}

#[test]
fn stateless_setup_skips_calls_of_bad_names() {
    let mut runner = stateless_with("not a name", modules(), true);
    runner.ensure_initialized(SetupEvent::Start);
    runner.ensure_initialized(SetupEvent::AccountOpened(address(7)));
    finishes(&runner.ensure_initialized(SetupEvent::Executed(success())), true);
    assert_eq!(
        runner.send_transaction("mint", &vec![]),
        Err(message("Invalid module name: Invalid identifier 'not a name'"))
    );
}

#[test]
fn stateless_runner_needs_its_function() {
    let runner = StatelessAptosRunner::new(
        &package(),
        "usdcx",
        "burn",
        vec![],
        vec![],
        0,
        helpers(false),
    );
    assert_eq!(runner.err(), Some(AbiError::FunctionNotFound));
    let runner =
        StatelessAptosRunner::new(&vec![], "usdcx", "burn", vec![], vec![], 0, helpers(false));
    assert_eq!(runner.err(), Some(AbiError::ModuleNotFound));
}

#[test]
fn stateless_runner_knows_its_target() {
    let mut runner = stateless_with("usdcx", modules(), false);
    let target = FuzzerType::Function("mint".to_string(), vec![FuzzerType::U16(0)], None);
    assert_eq!(runner.get_target_function(), target);
    assert_eq!(runner.get_target_parameters(), vec![FuzzerType::U16(0)]);
    assert_eq!(runner.get_target_module(), "usdcx");
    assert_eq!(runner.get_max_coverage(), 12);
    runner.set_target_function(&FuzzerType::Bool(true));
    assert_eq!(runner.get_target_function(), FuzzerType::Bool(true));
    assert_eq!(runner.get_target_parameters(), vec![]);
}

#[test]
fn stateless_calls_drop_narrow_numbers() {
    let runner = ready_stateless();
    let inputs = vec![FuzzerType::U16(3), FuzzerType::U64(4)];
    assert!(runner.accepts(&inputs));
    let prepared = runner.prepare(inputs).unwrap();
    assert_eq!(prepared.function, "mint");
    assert_eq!(prepared.args, vec![TransactionArgument::U64(4)]);
    let sent = runner.send_transaction(&prepared.function, &prepared.args).unwrap();
    let encoded = vec![vec![4, 0, 0, 0, 0, 0, 0, 0]];
    assert_eq!(sent, call(address(8), "mint", encoded, 2, Some(100)));
}

#[test]
fn stateless_calls_repeat_their_number() {
    let runner = ready_stateless();
    let first = runner.send_transaction("mint", &vec![]).unwrap();
    let outcome = runner.complete(TransactionOutput { status: success(), gas_used: 31 });
    assert!(!outcome.apply_write_set);
    assert_eq!(outcome.result, Ok(31));
    let second = runner.send_transaction("mint", &vec![TransactionArgument::Bool(true)]).unwrap();
    assert_eq!(first.sequence_number, second.sequence_number);
}

#[test]
fn stateless_calls_end_as_answered() {
    let runner = ready_stateless();
    let kept = runner.complete(TransactionOutput { status: failure(), gas_used: 8 });
    assert_eq!(kept.result, Ok(8));
    let discarded = runner.complete(TransactionOutput { status: discard(), gas_used: 8 });
    assert_eq!(
        discarded.result,
        Err(message("Transaction discarded: SEQUENCE_NUMBER_TOO_OLD"))
    );
    let retried =
        runner.complete(TransactionOutput { status: TransactionStatus::Retry, gas_used: 8 });
    assert_eq!(retried.result, Err(message("Transaction retry requested")));
    assert!(!kept.apply_write_set && !discarded.apply_write_set && !retried.apply_write_set);
}

#[test]
fn stateless_calls_need_a_function() {
    let mut runner = ready_stateless();
    runner.set_target_function(&FuzzerType::U8(0));
    let refused = runner.prepare(vec![]);
    assert_eq!(refused.err(), Some(message("Invalid target function type")));
    assert_eq!(
        runner.send_transaction("9", &vec![]),
        Err(message("Invalid function name: Invalid identifier '9'"))
    );
}

#[test]
fn stateless_calls_use_their_helper() {
    let mut runner = stateless_with("usdcx", modules(), true);
    assert!(runner.helper_for_function("mint").is_some());
    assert!(runner.helper_for_function("burn").is_none());
    let raw = vec![FuzzerType::Address([1; 32])];
    assert!(runner.accepts(&raw));
    let prepared = runner.prepare(raw.clone()).unwrap();
    assert_eq!(prepared.args.len(), 3);
    match (&prepared.args[0], &prepared.args[1], &prepared.args[2]) {
        (
            TransactionArgument::U8Vector(payload),
            TransactionArgument::U8Vector(signature),
            TransactionArgument::U64(fee),
        ) => {
            assert_eq!(payload.len(), 240);
            assert_eq!(signature.len(), 65);
            assert_eq!(*fee, 0);
        }
        _ => panic!("no minted arguments"),
    }
    runner.set_target_function(&FuzzerType::Function("burn".to_string(), vec![], None));
    assert!(!runner.accepts(&raw));
}

#[test]
fn stateful_setup_with_a_helper() {
    let mut runner = stateful_with("usdcx", modules(), true);
    let args = UsdcxMintHelper::new(5).unwrap().initialize_args(&address(8)).unwrap();
    opens(&runner.setup(SetupEvent::Start), AccountRequest::At(address(8)));
    let action = runner.setup(SetupEvent::AccountOpened(address(8)));
    executes(&action, false, &publication(0, None));
    let action = runner.setup(SetupEvent::Executed(success()));
    executes(&action, true, &call(address(8), "initialize", args, 1, None));
    let action = runner.setup(SetupEvent::Executed(discard()));
    executes(&action, true, &call(address(8), "fuzz_init", vec![], 2, None));
    finishes(&runner.setup(SetupEvent::Executed(failure())), true);
    assert_eq!(runner.next_sequence_number(), 3);
}

#[test]
fn stateful_setup_resets_the_chain() {
    let mut used = stateful_with("usdcx", modules(), true);
    for round in 0..3u64 {
        let mut fresh = stateful_with("usdcx", modules(), true);
        let start = used.setup(SetupEvent::Start);
        assert!(start.reset_chain);
        opens(&start, AccountRequest::At(address(8)));
        assert!(fresh.setup(SetupEvent::Start).reset_chain);
        assert_eq!(used.next_sequence_number(), 0);

        let action = used.setup(SetupEvent::AccountOpened(address(8)));
        assert!(!action.reset_chain);
        executes(&action, false, &publication(0, None));
        fresh.setup(SetupEvent::AccountOpened(address(8)));
        for _ in 0..2 {
            let action = used.setup(SetupEvent::Executed(success()));
            assert!(!action.reset_chain);
            match fresh.setup(SetupEvent::Executed(success())).step {
                SetupStep::Execute(transaction) => executes(&action, true, &transaction),
                _ => panic!("no transaction"),
            }
        }
        finishes(&used.setup(SetupEvent::Executed(success())), true);
        finishes(&fresh.setup(SetupEvent::Executed(success())), true);

        for _ in 0..=round {
            assert_eq!(
                used.send_transaction("mint", &vec![TransactionArgument::Bool(true)]),
                fresh.send_transaction("mint", &vec![TransactionArgument::Bool(true)])
            );
            used.complete(TransactionOutput { status: success(), gas_used: 1 });
            fresh.complete(TransactionOutput { status: success(), gas_used: 1 });
        }
        assert_eq!(used.next_sequence_number(), 4 + round);
    }
}

#[test]
fn stateful_setup_recovers_from_failure() {
    let mut runner = stateful_with("usdcx", modules(), false);
    runner.setup(SetupEvent::Start);
    runner.setup(SetupEvent::AccountOpened(address(8)));
    runner.setup(SetupEvent::Executed(failure()));
    assert!(runner.setup(SetupEvent::Start).reset_chain);
    let action = runner.setup(SetupEvent::AccountOpened(address(8)));
    executes(&action, false, &publication(0, None));
}

#[test]
fn stateful_setup_fails_where_nothing_is_published() {
    let answers = [
        (failure(), "Publish failed with status: Abort"),
        (discard(), "Publish discarded: SEQUENCE_NUMBER_TOO_OLD"),
        (TransactionStatus::Retry, "Publish needs retry"),
    ];
    for (status, text) in answers {
        let mut runner = stateful_with("usdcx", modules(), true);
        runner.setup(SetupEvent::Start);
        runner.setup(SetupEvent::AccountOpened(address(8)));
        let action = runner.setup(SetupEvent::Executed(status));
        assert!(!action.apply_write_set);
        match action.step {
            SetupStep::Failed(error) => assert_eq!(error, message(text)),
            _ => panic!("no failure"),
        }
        assert_eq!(runner.next_sequence_number(), 0);
    }
}

#[test]
fn stateful_setup_without_modules() {
    let mut runner = stateful_with("usdcx", vec![], false);
    opens(
        &runner.setup(SetupEvent::Start),
        AccountRequest::Fresh { balance: 1_000_000_000_000_000, sequence_number: 0 },
    );
    let action = runner.setup(SetupEvent::AccountOpened(address(3)));
    executes(&action, false, &call(address(3), "fuzz_init", vec![], 0, None));
    finishes(&runner.setup(SetupEvent::Executed(success())), true);
}

#[test]
fn stateful_setup_skips_calls_of_bad_names() {
    let mut runner = stateful_with("9", vec![], true);
    assert!(runner.is_idle());
    runner.setup(SetupEvent::Start);
    assert!(!runner.is_idle());
    finishes(&runner.setup(SetupEvent::AccountOpened(address(3))), false);
    assert!(runner.is_idle());
    assert_eq!(runner.next_sequence_number(), 0);
}

#[test]
fn stateful_calls_are_committed_and_numbered() {
    let mut runner = stateful_with("usdcx", vec![], false);
    let mut framework = [0u8; 32];
    framework[31] = 1;
    let at = AccountAddress { bytes: framework };
    runner.set_target_function(&FuzzerType::Function("mint".to_string(), vec![], None));
    let prepared = runner.prepare(vec![FuzzerType::U16(3), FuzzerType::U32(4)]).unwrap();
    assert_eq!(prepared.args, vec![TransactionArgument::U16(3), TransactionArgument::U32(4)]);
    for number in 0..3u64 {
        let sent = runner.send_transaction(&prepared.function, &prepared.args).unwrap();
        let encoded = vec![vec![3, 0], vec![4, 0, 0, 0]];
        assert_eq!(sent, call(at, "mint", encoded, number, None));
        let outcome = runner.complete(TransactionOutput { status: discard(), gas_used: 1 });
        assert!(outcome.apply_write_set);
    }
    assert_eq!(runner.next_sequence_number(), 3);
}

#[test]
fn stateful_calls_end_as_answered() {
    let mut runner = stateful_with("usdcx", vec![], false);
    let kept = runner.complete(TransactionOutput { status: failure(), gas_used: 8 });
    assert_eq!(kept.result, Ok(8));
    let discarded = runner.complete(TransactionOutput { status: discard(), gas_used: 8 });
    assert_eq!(discarded.result, Err(message("Transaction was discarded")));
    let retried =
        runner.complete(TransactionOutput { status: TransactionStatus::Retry, gas_used: 8 });
    assert_eq!(retried.result, Err(message("Transaction should be retried")));
}

#[test]
fn stateful_calls_need_a_function() {
    let mut runner = stateful_with("usdcx", vec![], false);
    assert_eq!(runner.prepare(vec![]).err(), Some(message("Invalid target function")));
    runner.set_target_function(&FuzzerType::U8(0));
    assert_eq!(runner.prepare(vec![]).err(), Some(message("Invalid target function")));
    assert_eq!(
        runner.send_transaction("_", &vec![]),
        Err(message("Invalid function name: Invalid identifier '_'"))
    );
}

#[test]
fn stateful_runner_knows_its_target() {
    let mut runner = stateful_with("usdcx", vec![], true);
    let target = FuzzerType::Function("mint".to_string(), vec![FuzzerType::U8(1)], None);
    runner.set_target_function(&target);
    assert_eq!(runner.get_target_function(), target);
    assert_eq!(runner.get_target_parameters(), vec![FuzzerType::U8(1)]);
    assert_eq!(runner.get_target_module(), "usdcx");
    assert_eq!(runner.get_max_coverage(), 100);
    assert!(runner.helper_for_function("mint").is_some());
    assert!(runner.accepts(&vec![FuzzerType::Address([0; 32])]));
}

#[test]
fn stateful_values_keep_narrow_numbers() {
    let runner = stateful_with("usdcx", vec![], false);
    let expected = [
        (MoveValue::U16(1), Some(TransactionArgument::U16(1))),
        (MoveValue::U32(1), Some(TransactionArgument::U32(1))),
        (MoveValue::U64(1), Some(TransactionArgument::U64(1))),
        (MoveValue::U256([1; 32]), None),
        (MoveValue::Vector(vec![]), None),
        (
            MoveValue::Vector(vec![MoveValue::U8(4)]),
            Some(TransactionArgument::U8Vector(vec![4])),
        ),
    ];
    for (value, arg) in expected {
        assert_eq!(runner.convert_move_value_to_aptos_arg(&value), arg);
    }
}
