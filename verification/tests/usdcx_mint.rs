use libsecp256k1::{recover, Message, PublicKey, RecoveryId, SecretKey, Signature};
use move_fuzzer::mutator::types::FuzzerType;
use move_fuzzer::runner::aptos_helpers::usdcx_mint_helper::{
    derive_secp256k1_key, draw_intent, encode_payload, fuzzer_vec_from_u8, mint_inputs, mix_seed,
    u64_to_u256_bytes, u8_vec_from_fuzzer, MintIntent, UsdcxMintHelper,
};
use move_fuzzer::runner::aptos_helpers::AptosHelper;
use move_fuzzer::runner::chain::AccountAddress;
use rand::rngs::StdRng;
use rand::{RngCore, SeedableRng};
use tiny_keccak::{Hasher, Keccak};

fn byte_vector(bytes: &[u8]) -> FuzzerType {
    let items = bytes.iter().map(|byte| FuzzerType::U8(*byte)).collect();
    FuzzerType::Vector(Box::new(FuzzerType::U8(0)), items)
}

fn bytes_of(input: &FuzzerType) -> Vec<u8> {
    u8_vec_from_fuzzer(input)
}

fn minted(seed: u64, inputs: Vec<FuzzerType>) -> Vec<FuzzerType> {
    UsdcxMintHelper::new(seed).unwrap().transform_inputs(&inputs).unwrap()
}

#[test]
fn mix_seed_folds_bytes() {
    assert_eq!(mix_seed(7, &[]), 7);
    assert_eq!(mix_seed(1, &[2, 3]), (31 + 2) * 31 + 3);
}

#[test]
fn mix_seed_wraps_around() {
    assert_eq!(mix_seed(u64::MAX, &[255]), 224);
    assert_eq!(mix_seed(1 << 63, &[0]), 1 << 63);
}

#[test]
fn mix_seed_appends() {
    let first = mix_seed(99, &[1, 2, 200]);
    assert_eq!(mix_seed(first, &[4, 5]), mix_seed(99, &[1, 2, 200, 4, 5]));
}

#[test]
fn bytes_come_back_out_of_vectors() {
    let vector = fuzzer_vec_from_u8(vec![3, 0, 255]);
    assert_eq!(vector, byte_vector(&[3, 0, 255]));
    assert_eq!(u8_vec_from_fuzzer(&vector), vec![3, 0, 255]);
    assert_eq!(u8_vec_from_fuzzer(&fuzzer_vec_from_u8(vec![])), Vec::<u8>::new());
}

#[test]
fn other_items_are_left_out_of_bytes() {
    let mixed = FuzzerType::Vector(
        Box::new(FuzzerType::U8(0)),
        vec![FuzzerType::U8(1), FuzzerType::U16(2), FuzzerType::U8(3)],
    );
    assert_eq!(u8_vec_from_fuzzer(&mixed), vec![1, 3]);
    assert_eq!(u8_vec_from_fuzzer(&FuzzerType::U8(1)), Vec::<u8>::new());
    assert_eq!(u8_vec_from_fuzzer(&FuzzerType::Struct(vec![FuzzerType::U8(1)])), Vec::<u8>::new());
}

#[test]
fn numbers_become_big_endian_words() {
    let mut expected = [0u8; 32];
    expected[24..].copy_from_slice(&0x0102_0304_0506_0708u64.to_be_bytes());
    assert_eq!(u64_to_u256_bytes(0x0102_0304_0506_0708), expected);
    assert_eq!(u64_to_u256_bytes(0), [0u8; 32]);
    assert_eq!(u64_to_u256_bytes(u64::MAX)[23..], [0, 255, 255, 255, 255, 255, 255, 255, 255]);
}

#[test]
fn keys_are_derived_from_the_seed() {
    for seed in [0u64, 1, 42, u64::MAX] {
        let (secret, public) = derive_secp256k1_key(seed).unwrap();
        let mut bytes = [0u8; 32];
        StdRng::seed_from_u64(seed).fill_bytes(&mut bytes);
        assert_eq!(secret, bytes);
        let expected = PublicKey::from_secret_key(&SecretKey::parse(&bytes).unwrap()).serialize();
        assert_eq!(public, expected[1..].to_vec());
    }
}

#[test]
fn intents_are_drawn_from_the_seed() {
    let mut rng = StdRng::seed_from_u64(77);
    let magic = rng.next_u32();
    let amount = 1 + rng.next_u64() % 1_000_000_000;
    let mut words = [[0u8; 32]; 5];
    for word in words.iter_mut() {
        rng.fill_bytes(word);
    }
    let intent = draw_intent(77, 5);
    assert_eq!(intent.magic, magic);
    assert_eq!(intent.version, 1);
    assert_eq!(intent.amount, amount);
    assert_eq!(intent.max_fee, amount);
    assert_eq!(intent.remote_domain, 5);
    assert_eq!(intent.remote_token, words[0]);
    assert_eq!(intent.remote_recipient, words[1]);
    assert_eq!(intent.local_token, words[2]);
    assert_eq!(intent.local_depositor, words[3]);
    assert_eq!(intent.nonce, words[4]);
}

#[test]
fn amounts_stay_within_their_limits() {
    for seed in 0..200u64 {
        let intent = draw_intent(seed, 0);
        assert!(1 <= intent.amount && intent.amount <= 1_000_000_000);
    }
}

#[test]
fn payloads_have_a_fixed_layout() {
    let intent = MintIntent {
        magic: 0x01020304,
        version: 1,
        amount: 500,
        remote_domain: 9,
        remote_token: [1; 32],
        remote_recipient: [2; 32],
        local_token: [3; 32],
        local_depositor: [4; 32],
        max_fee: 500,
        nonce: [5; 32],
    };
    let payload = encode_payload(&intent, &vec![7, 8, 9]);
    assert_eq!(payload.len(), 243);
    assert_eq!(payload[0..8], [1, 2, 3, 4, 0, 0, 0, 1]);
    assert_eq!(payload[8..40], u64_to_u256_bytes(500));
    assert_eq!(payload[40..44], [0, 0, 0, 9]);
    assert_eq!(payload[44..76], [1; 32]);
    assert_eq!(payload[76..108], [2; 32]);
    assert_eq!(payload[108..140], [3; 32]);
    assert_eq!(payload[140..172], [4; 32]);
    assert_eq!(payload[172..204], u64_to_u256_bytes(500));
    assert_eq!(payload[204..236], [5; 32]);
    assert_eq!(payload[236..240], [0, 0, 0, 3]);
    assert_eq!(payload[240..], [7, 8, 9]);
}

#[test]
fn hook_data_is_cut_off() {
    let hook: Vec<u8> = (0..40).collect();
    let inputs = minted(3, vec![byte_vector(&[]), byte_vector(&hook)]);
    let payload = bytes_of(&inputs[0]);
    assert_eq!(payload.len(), 272);
    assert_eq!(payload[236..240], [0, 0, 0, 32]);
    assert_eq!(payload[240..], hook[..32]);
    let exact = minted(3, vec![byte_vector(&[]), byte_vector(&hook[..32])]);
    assert_eq!(exact, inputs);
}

#[test]
fn signed_inputs_are_put_together() {
    let inputs = mint_inputs(vec![1, 2], &[9u8; 64], 3, 44);
    let mut signature = vec![9u8; 64];
    signature.push(3);
    assert_eq!(
        inputs,
        vec![byte_vector(&[1, 2]), byte_vector(&signature), FuzzerType::U64(44)]
    );
}

#[test]
fn payloads_are_signed_with_the_registered_key() {
    let helper = UsdcxMintHelper::new(11).unwrap();
    let args = helper.initialize_args(&AccountAddress { bytes: [6; 32] }).unwrap();
    let raw = vec![byte_vector(&[1, 2, 3]), byte_vector(&[4]), FuzzerType::U64(u64::MAX)];
    let inputs = helper.transform_inputs(&raw).unwrap();
    assert_eq!(inputs.len(), 3);

    let payload = bytes_of(&inputs[0]);
    let mut expected = encode_payload(&draw_intent(mix_seed(11, &[1, 2, 3]), 0), &vec![4]);
    assert_eq!(payload, expected);
    expected.clear();

    let mut hasher = Keccak::v256();
    hasher.update(&payload);
    let mut digest = [0u8; 32];
    hasher.finalize(&mut digest);
    let signed = bytes_of(&inputs[1]);
    assert_eq!(signed.len(), 65);
    let signature = Signature::parse_standard_slice(&signed[..64]).unwrap();
    let id = RecoveryId::parse(signed[64]).unwrap();
    let public = recover(&Message::parse(&digest), &signature, &id).unwrap().serialize();
    assert_eq!(args[8][..2], [1, 64]);
    assert_eq!(args[8][2..], public[1..]);
}

#[test]
fn fees_are_capped_by_the_amount() {
    let amount = draw_intent(mix_seed(8, &[1]), 0).amount;
    let high = minted(8, vec![byte_vector(&[1]), byte_vector(&[]), FuzzerType::U64(u64::MAX)]);
    assert_eq!(high[2], FuzzerType::U64(amount));
    let low = minted(8, vec![byte_vector(&[1]), byte_vector(&[]), FuzzerType::U64(1)]);
    assert_eq!(low[2], FuzzerType::U64(1));
    let wrong_type = minted(8, vec![byte_vector(&[1]), byte_vector(&[]), FuzzerType::U32(5)]);
    assert_eq!(wrong_type[2], FuzzerType::U64(0));
}

#[test]
fn missing_inputs_count_as_empty() {
    let none = minted(21, vec![]);
    let empty = minted(21, vec![byte_vector(&[]), byte_vector(&[]), FuzzerType::U64(0)]);
    assert_eq!(none, empty);
    assert_eq!(bytes_of(&none[0]).len(), 240);
}

#[test]
fn later_inputs_are_ignored() {
    let three = vec![byte_vector(&[1]), byte_vector(&[2]), FuzzerType::U64(3)];
    let mut more = three.clone();
    more.push(FuzzerType::Bool(true));
    assert_eq!(minted(5, three), minted(5, more));
}

#[test]
fn first_input_changes_the_intent() {
    let one = minted(5, vec![byte_vector(&[1])]);
    let other = minted(5, vec![byte_vector(&[2])]);
    assert_ne!(one[0], other[0]);
    assert_eq!(one, minted(5, vec![byte_vector(&[1])]));
}

#[test]
fn contract_is_initialized_with_nine_arguments() {
    let helper = UsdcxMintHelper::new(2).unwrap();
    let (_, public) = derive_secp256k1_key(2).unwrap();
    let args = helper.initialize_args(&AccountAddress { bytes: [0xab; 32] }).unwrap();
    let mut keys = vec![1u8, 64];
    keys.extend_from_slice(&public);
    assert_eq!(
        args,
        vec![
            vec![0, 0, 0, 0],
            vec![5, b'U', b'S', b'D', b'C', b'x'],
            vec![5, b'U', b'S', b'D', b'C', b'x'],
            vec![6],
            vec![0],
            vec![0],
            vec![0xab; 32],
            vec![0],
            keys,
        ]
    );
}
