use move_fuzzer::mutator::types::FuzzerType;
use move_fuzzer::runner::aptos_helpers::registry::{build_helpers, AssignedHelpers};
use move_fuzzer::runner::aptos_helpers::usdcx_mint_helper::UsdcxMintHelper;
use move_fuzzer::runner::aptos_helpers::AptosHelper;
use move_fuzzer::runner::chain::AccountAddress;
use move_fuzzer::runner::table::StringTable;

struct Idle;

impl AptosHelper for Idle {}

fn table(entries: &[(&str, &str)]) -> StringTable<String> {
    let mut table = StringTable::new();
    for (key, name) in entries {
        table.insert(key.to_string(), name.to_string());
    }
    table
}

#[test]
fn tables_keep_one_value_for_each_name() {
    let mut counts: StringTable<u8> = StringTable::new();
    counts.insert("a".to_string(), 1);
    counts.insert("b".to_string(), 2);
    counts.insert("a".to_string(), 3);
    assert_eq!(counts.len(), 2);
    assert_eq!(counts.get("a"), Some(&3));
    assert_eq!(counts.get("b"), Some(&2));
    assert_eq!(counts.get("c"), None);
    assert_eq!((*counts.value_at(0), *counts.value_at(1)), (3, 2));
}

#[test]
fn helpers_are_built_once_for_each_known_name() {
    let helpers = build_helpers(
        &table(&[
            ("usdcx::mint", "usdcx_mint_v1"),
            ("usdcx::mint_again", "usdcx_mint_v1"),
            ("usdcx::burn", "unheard_of"),
        ]),
        1,
    );
    assert_eq!(helpers.len(), 1);
    assert!(helpers.get("usdcx_mint_v1").is_some());
    assert!(helpers.get("unheard_of").is_none());
    assert_eq!(build_helpers(&table(&[]), 1).len(), 0);
}

#[test]
fn helpers_belong_to_configured_functions() {
    let config = table(&[("usdcx::mint", "usdcx_mint_v1"), ("usdcx::burn", "unheard_of")]);
    let helpers = AssignedHelpers::new(config, 4);
    assert!(helpers.helper_for("usdcx", "mint").is_some());
    assert!(helpers.helper_for("usdcx", "burn").is_none());
    assert!(helpers.helper_for("other", "mint").is_none());

    let raw = vec![FuzzerType::Address([0; 32]), FuzzerType::Bool(true)];
    let minted = UsdcxMintHelper::new(4).unwrap().transform_inputs(&raw).unwrap();
    assert!(helpers.accepts("usdcx", "mint", &raw));
    assert_eq!(helpers.adjust_inputs("usdcx", "mint", &raw), minted);
    assert!(!helpers.accepts("usdcx", "burn", &raw));
    assert_eq!(helpers.adjust_inputs("usdcx", "burn", &raw), raw);
}

#[test]
fn helpers_ask_for_initialization() {
    let admin = AccountAddress { bytes: [3; 32] };
    let helpers = AssignedHelpers::new(table(&[("usdcx::mint", "usdcx_mint_v1")]), 4);
    let expected = UsdcxMintHelper::new(4).unwrap().initialize_args(&admin).unwrap();
    assert_eq!(helpers.initialize_calls(&admin), vec![expected]);
    let none = AssignedHelpers::new(table(&[("usdcx::burn", "unheard_of")]), 4);
    assert_eq!(none.initialize_calls(&admin), Vec::<Vec<Vec<u8>>>::new());
}

#[test]
fn helpers_do_nothing_by_default() {
    assert!(Idle.initialize_args(&AccountAddress { bytes: [0; 32] }).is_none());
    assert!(Idle.transform_inputs(&vec![FuzzerType::U8(1)]).is_none());
}
