use move_fuzzer::mutator::types::FuzzerType;
use move_fuzzer::runner::chain::AccountAddress;
use move_fuzzer::runner::move_model::{
    AbiError, FunctionModel, ModuleModel, MoveType, PrimitiveType,
};
use move_fuzzer::runner::move_value::{
    arguments_encodable, encode_arguments, MoveValue, TransactionArgument,
};
use move_fuzzer::runner::stateful_runner::aptos_runner::generate_inputs as stateful_generate_inputs;
use move_fuzzer::runner::stateless_runner::aptos_runner_utils::{
    convert_move_type_to_fuzzer_type, convert_move_value_to_aptos_arg, convert_move_values,
    generate_abi_from_source, generate_inputs, generate_inputs_from, inputs_convertible,
    inputs_short, is_signer_param,
};

fn address(byte: u8) -> AccountAddress {
    AccountAddress { bytes: [byte; 32] }
}

fn primitive(primitive: PrimitiveType) -> MoveType {
    MoveType::Primitive(primitive)
}

fn reference(inner: MoveType) -> MoveType {
    MoveType::Reference(true, Box::new(inner))
}

fn function(name: &str, parameters: Vec<MoveType>, bytecode_len: Option<usize>) -> FunctionModel {
    FunctionModel { name: name.to_string(), parameters, result: MoveType::Other, bytecode_len }
}

fn package() -> Vec<ModuleModel> {
    vec![
        ModuleModel {
            matches_target: false,
            functions: vec![function("run", vec![primitive(PrimitiveType::Bool)], Some(1))],
        },
        ModuleModel {
            matches_target: true,
            functions: vec![
                function(
                    "run",
                    vec![
                        reference(primitive(PrimitiveType::Signer)),
                        primitive(PrimitiveType::U8),
                        primitive(PrimitiveType::Signer),
                        MoveType::Vector(Box::new(primitive(PrimitiveType::U16))),
                    ],
                    Some(17),
                ),
                function("native", vec![], None),
                function("run", vec![], Some(99)),
            ],
        },
        ModuleModel { matches_target: true, functions: vec![function("late", vec![], None)] },
    ]
}

#[test]
fn primitive_types_start_from_zero() {
    let expected = [
        (PrimitiveType::Bool, FuzzerType::Bool(false)),
        (PrimitiveType::U8, FuzzerType::U8(0)),
        (PrimitiveType::U16, FuzzerType::U16(0)),
        (PrimitiveType::U32, FuzzerType::U32(0)),
        (PrimitiveType::U64, FuzzerType::U64(0)),
        (PrimitiveType::U128, FuzzerType::U128(0)),
        (PrimitiveType::U256, FuzzerType::U64(0)),
        (PrimitiveType::Address, FuzzerType::Address([0; 32])),
        (PrimitiveType::Signer, FuzzerType::Address([0; 32])),
        (PrimitiveType::Num, FuzzerType::U64(0)),
        (PrimitiveType::Range, FuzzerType::U64(0)),
        (PrimitiveType::EventStore, FuzzerType::U64(0)),
    ];
    for (move_type, input) in expected {
        assert_eq!(convert_move_type_to_fuzzer_type(&primitive(move_type)), input);
    }
    assert_eq!(convert_move_type_to_fuzzer_type(&MoveType::Other), FuzzerType::U64(0));
}

#[test]
fn compound_types_start_from_their_parts() {
    let vector = MoveType::Vector(Box::new(primitive(PrimitiveType::U8)));
    assert_eq!(
        convert_move_type_to_fuzzer_type(&vector),
        FuzzerType::Vector(Box::new(FuzzerType::U8(0)), vec![FuzzerType::U8(0)])
    );
    assert_eq!(
        convert_move_type_to_fuzzer_type(&MoveType::Struct),
        FuzzerType::Struct(vec![FuzzerType::U64(0)])
    );
    assert_eq!(
        convert_move_type_to_fuzzer_type(&reference(primitive(PrimitiveType::Bool))),
        FuzzerType::Reference(false, Box::new(FuzzerType::Bool(false)))
    );
}

#[test]
fn signers_are_recognized_through_references() {
    assert!(is_signer_param(&primitive(PrimitiveType::Signer)));
    assert!(is_signer_param(&reference(reference(primitive(PrimitiveType::Signer)))));
    assert!(!is_signer_param(&primitive(PrimitiveType::Address)));
    assert!(!is_signer_param(&MoveType::Vector(Box::new(primitive(PrimitiveType::Signer)))));
}

#[test]
fn abi_leaves_out_signers() {
    let (parameters, max_coverage) = generate_abi_from_source(&package(), "run").unwrap();
    assert_eq!(max_coverage, 17);
    assert_eq!(
        parameters,
        vec![
            FuzzerType::U8(0),
            FuzzerType::Vector(Box::new(FuzzerType::U16(0)), vec![FuzzerType::U16(0)]),
        ]
    );
}

#[test]
fn abi_without_bytecode_has_no_coverage() {
    assert_eq!(generate_abi_from_source(&package(), "native"), Ok((vec![], 0)));
}

#[test]
fn abi_needs_the_function_and_the_module() {
    assert_eq!(generate_abi_from_source(&package(), "late"), Err(AbiError::FunctionNotFound));
    assert_eq!(generate_abi_from_source(&vec![], "run"), Err(AbiError::ModuleNotFound));
}

#[test]
fn inputs_become_move_values() {
    let inputs = vec![
        FuzzerType::U8(1),
        FuzzerType::U16(2),
        FuzzerType::U32(3),
        FuzzerType::U64(4),
        FuzzerType::U128(5),
        FuzzerType::Bool(true),
        FuzzerType::Struct(vec![FuzzerType::U8(6), FuzzerType::Bool(false)]),
    ];
    let expected = vec![
        MoveValue::U8(1),
        MoveValue::U16(2),
        MoveValue::U32(3),
        MoveValue::U64(4),
        MoveValue::U128(5),
        MoveValue::Bool(true),
        MoveValue::Struct(vec![MoveValue::U8(6), MoveValue::Bool(false)]),
    ];
    assert_eq!(generate_inputs(inputs.clone()), expected);
    assert_eq!(stateful_generate_inputs(inputs), expected);
}

#[test]
fn references_take_addresses_in_order() {
    let hidden = FuzzerType::Reference(false, Box::new(FuzzerType::Address([0; 32])));
    let inputs = vec![
        hidden.clone(),
        FuzzerType::Vector(
            Box::new(hidden.clone()),
            vec![hidden.clone(), FuzzerType::U8(1), hidden.clone()],
        ),
        hidden,
    ];
    let addresses = vec![address(1), address(2), address(3), address(4), address(5)];
    assert_eq!(
        generate_inputs_from(&inputs, &addresses),
        vec![
            MoveValue::Address(address(1)),
            MoveValue::Vector(vec![
                MoveValue::Address(address(2)),
                MoveValue::U8(1),
                MoveValue::Address(address(3)),
            ]),
            MoveValue::Address(address(4)),
        ]
    );
}

#[test]
fn references_get_addresses_of_their_own() {
    let target = FuzzerType::Reference(false, Box::new(FuzzerType::U8(0)));
    let values = generate_inputs(vec![target.clone(), target]);
    match (&values[0], &values[1]) {
        (MoveValue::Address(one), MoveValue::Address(other)) => {
            assert_ne!(one, other);
            assert_ne!(one.bytes[..16], one.bytes[16..]);
        }
        _ => panic!("no addresses"),
    }
    assert_eq!(values.len(), 2);
}

#[test]
fn halves_make_an_address() {
    let joined = AccountAddress::from_halves([7; 16], [8; 16]);
    assert_eq!(joined.bytes[..16], [7; 16]);
    assert_eq!(joined.bytes[16..], [8; 16]);
}

#[test]
fn addresses_and_functions_have_no_values() {
    let bare = FuzzerType::Address([0; 32]);
    assert!(!inputs_convertible(&vec![FuzzerType::U8(0), bare.clone()]));
    assert!(!inputs_convertible(&vec![FuzzerType::Struct(vec![bare.clone()])]));
    assert!(!inputs_convertible(&vec![FuzzerType::Function("f".to_string(), vec![], None)]));
    assert!(inputs_convertible(&vec![FuzzerType::Reference(true, Box::new(bare))]));
    assert!(inputs_convertible(&vec![]));
}

#[test]
fn values_become_arguments() {
    let bytes = MoveValue::Vector(vec![MoveValue::U8(1), MoveValue::Bool(true), MoveValue::U8(2)]);
    let expected = [
        (MoveValue::Bool(true), Some(TransactionArgument::Bool(true))),
        (MoveValue::U8(1), Some(TransactionArgument::U8(1))),
        (MoveValue::U16(1), None),
        (MoveValue::U32(1), None),
        (MoveValue::U64(1), Some(TransactionArgument::U64(1))),
        (MoveValue::U128(1), Some(TransactionArgument::U128(1))),
        (MoveValue::U256([1; 32]), None),
        (MoveValue::Address(address(1)), Some(TransactionArgument::Address(address(1)))),
        (MoveValue::Signer(address(1)), None),
        (bytes, Some(TransactionArgument::U8Vector(vec![1, 2]))),
        (MoveValue::Vector(vec![]), None),
        (MoveValue::Vector(vec![MoveValue::U64(1), MoveValue::U8(2)]), None),
        (MoveValue::Struct(vec![MoveValue::U8(1)]), None),
    ];
    for (value, arg) in expected {
        assert_eq!(convert_move_value_to_aptos_arg(&value), arg);
    }
}

#[test]
fn values_without_arguments_are_left_out() {
    let values = vec![MoveValue::U8(1), MoveValue::U16(2), MoveValue::Bool(false)];
    assert_eq!(
        convert_move_values(&values),
        vec![TransactionArgument::U8(1), TransactionArgument::Bool(false)]
    );
}

#[test]
fn arguments_are_encoded() {
    let args = vec![
        TransactionArgument::U8(1),
        TransactionArgument::U16(0x0102),
        TransactionArgument::U32(0x0102_0304),
        TransactionArgument::U64(0x0102_0304_0506_0708),
        TransactionArgument::U128(1 << 120),
        TransactionArgument::U256([9; 32]),
        TransactionArgument::Bool(true),
        TransactionArgument::Bool(false),
        TransactionArgument::Address(address(4)),
        TransactionArgument::U8Vector(vec![7, 8]),
        TransactionArgument::Serialized(vec![5, 6]),
    ];
    let mut high = vec![0u8; 16];
    high[15] = 1;
    assert!(arguments_encodable(&args));
    assert_eq!(
        encode_arguments(&args),
        vec![
            vec![1],
            vec![2, 1],
            vec![4, 3, 2, 1],
            vec![8, 7, 6, 5, 4, 3, 2, 1],
            high,
            vec![9; 32],
            vec![1],
            vec![0],
            vec![4; 32],
            vec![2, 7, 8],
            vec![5, 6],
        ]
    );
}

#[test]
fn long_lengths_take_several_digits() {
    let encoded = TransactionArgument::U8Vector(vec![3; 300]).to_bytes();
    assert_eq!(encoded[..2], [0xac, 0x02]);
    assert_eq!(encoded[2..], [3; 300]);
}

#[test]
fn starting_inputs_are_convertible_without_addresses() {
    let plain = [
        primitive(PrimitiveType::U128),
        MoveType::Struct,
        MoveType::Other,
        MoveType::Vector(Box::new(MoveType::Struct)),
        reference(primitive(PrimitiveType::Address)),
    ];
    for move_type in plain {
        assert!(inputs_convertible(&vec![convert_move_type_to_fuzzer_type(&move_type)]));
    }
    let holding = [
        primitive(PrimitiveType::Address),
        primitive(PrimitiveType::Signer),
        MoveType::Vector(Box::new(primitive(PrimitiveType::Address))),
    ];
    for move_type in holding {
        assert!(!inputs_convertible(&vec![convert_move_type_to_fuzzer_type(&move_type)]));
    }
}

#[test]
fn inputs_without_references_leave_nothing_to_chance() {
    let inputs = vec![
        FuzzerType::Struct(vec![FuzzerType::U8(6)]),
        FuzzerType::Vector(Box::new(FuzzerType::Bool(true)), vec![FuzzerType::Bool(false)]),
    ];
    let drawn = generate_inputs(inputs.clone());
    assert_eq!(drawn, generate_inputs(inputs.clone()));
    assert_eq!(drawn, generate_inputs_from(&inputs, &vec![]));
    assert_eq!(drawn.len(), inputs.len());
}

#[test]
fn bytes_reach_the_chain() {
    let bytes: Vec<FuzzerType> = [1u8, 2, 3].iter().map(|byte| FuzzerType::U8(*byte)).collect();
    let inputs = vec![
        FuzzerType::Vector(Box::new(FuzzerType::U8(0)), bytes),
        FuzzerType::Vector(Box::new(FuzzerType::U8(0)), vec![]),
    ];
    assert!(inputs_short(&inputs));
    let args = convert_move_values(&generate_inputs(inputs));
    assert_eq!(args, vec![TransactionArgument::U8Vector(vec![1, 2, 3])]);
    assert_eq!(encode_arguments(&args), vec![vec![3, 1, 2, 3]]);
}
