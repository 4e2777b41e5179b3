use crate::bytes::{append_be, append_bytes, copy_bytes};
use crate::external::codec::{
    encode_array, encode_arrays, encode_byte_lists, encode_bytes, encode_u32, encode_u8,
};
use crate::external::crypto::{keccak256, parses_as_secret_key, public_key, sign_digest};
use crate::external::random::{next_bytes, next_u32, next_u64, seeded_rng};
use crate::mutator::types::FuzzerType;
use crate::runner::aptos_helpers::AptosHelper;
use crate::runner::chain::AccountAddress;
use vstd::prelude::*;

verus! {

use crate::bytes::{be_bytes, be_value, le_bytes, lemma_be_bytes_len};
use crate::external::codec::{arrays_encoding, byte_lists, byte_lists_encoding, bytes_encoding};
use crate::external::crypto::{
    is_secret_key, keccak256_digest, secp256k1_public_key, secp256k1_recovered_key,
    secp256k1_signature,
};
use crate::external::random::{
    lemma_skip_skip, lemma_word_bytes_skip, rng_words, seeded_words, skip_words, word_bytes,
    word_pair,
};
use crate::mutator::types::{values_of, FuzzerValue};
use crate::runner::aptos_helpers::usdcx_mint_laws::law_bytes_round_trip;

/// The greatest amount of a minting intent.
pub const MAX_AMOUNT: u64 = 1_000_000_000;

/// The most bytes of hook data that a payload carries.
pub const MAX_HOOK_DATA: usize = 32;

/// The version of the payload layout.
pub const PAYLOAD_VERSION: u32 = 1;

/// How many candidates are drawn for a secret key. Fewer than one candidate in
/// 2^127 is no key, so more than the first are practically never looked at.
pub const KEY_ATTEMPTS: u64 = 0xffff_ffff_ffff_ffff;

/// `base` and then `bytes`, folded into 64 bits: each byte multiplies what came
/// before by 31 and is added, modulo 2^64.
pub open spec fn mixed_seed(base: u64, bytes: Seq<u8>) -> u64
    decreases bytes.len(),
{
    if bytes.len() == 0 {
        base
    } else {
        ((mixed_seed(base, bytes.drop_last()) * 31 + bytes.last()) % 0x1_0000_0000_0000_0000) as u64
    }
}

/// Folds `bytes` into `base`.
pub fn mix_seed(base: u64, bytes: &[u8]) -> (seed: u64)
    ensures
        seed == mixed_seed(base, bytes@),
{
    let mut seed = base;
    let mut i: usize = 0;
    while i < bytes.len()
        invariant
            i <= bytes.len(),
            seed == mixed_seed(base, bytes@.take(i as int)),
        decreases bytes.len() - i,
    {
        assert(bytes@.take(i + 1).drop_last() =~= bytes@.take(i as int));
        seed = seed.wrapping_mul(31).wrapping_add(bytes[i] as u64);
        i += 1;
    }
    assert(bytes@.take(i as int) =~= bytes@);
    seed
}

/// The bytes among `items`, in order; items of other types are left out.
pub open spec fn byte_items(items: Seq<FuzzerValue>) -> Seq<u8>
    decreases items.len(),
{
    if items.len() == 0 {
        Seq::empty()
    } else {
        match items.last() {
            FuzzerValue::U8(byte) => byte_items(items.drop_last()).push(byte),
            _ => byte_items(items.drop_last()),
        }
    }
}

/// The bytes that an input holds: those of a vector, and none otherwise.
pub open spec fn fuzzer_bytes(input: FuzzerValue) -> Seq<u8> {
    match input {
        FuzzerValue::Vector(_, items) => byte_items(items),
        _ => Seq::empty(),
    }
}

/// The vector that holds `bytes`.
pub open spec fn bytes_value(bytes: Seq<u8>) -> FuzzerValue {
    FuzzerValue::Vector(
        Box::new(FuzzerValue::U8(0)),
        bytes.map_values(|byte: u8| FuzzerValue::U8(byte)),
    )
}

/// Collects the bytes of a vector input.
pub fn u8_vec_from_fuzzer(input: &FuzzerType) -> (bytes: Vec<u8>)
    ensures
        bytes@ == fuzzer_bytes(input@),
{
    let mut bytes: Vec<u8> = Vec::new();
    if let FuzzerType::Vector(_, items) = input {
        let ghost values = values_of(items@);
        let mut i: usize = 0;
        while i < items.len()
            invariant
                i <= items.len(),
                values == values_of(items@),
                bytes@ == byte_items(values.take(i as int)),
            decreases items.len() - i,
        {
            assert(values.take(i + 1).drop_last() =~= values.take(i as int));
            assert(values.take(i + 1).last() == items@[i as int]@);
            if let FuzzerType::U8(byte) = &items[i] {
                bytes.push(*byte);
            }
            i += 1;
        }
        assert(values.take(i as int) =~= values);
    }
    bytes
}

/// Puts bytes into a vector input.
pub fn fuzzer_vec_from_u8(bytes: Vec<u8>) -> (vector: FuzzerType)
    ensures
        vector@ == bytes_value(bytes@),
{
    let mut items: Vec<FuzzerType> = Vec::new();
    let mut i: usize = 0;
    while i < bytes.len()
        invariant
            i <= bytes.len(),
            items.len() == i,
            forall|j: int| 0 <= j < i ==> #[trigger] items@[j] == FuzzerType::U8(bytes@[j]),
        decreases bytes.len() - i,
    {
        items.push(FuzzerType::U8(bytes[i]));
        i += 1;
    }
    assert(values_of(items@) =~= bytes@.map_values(|byte: u8| FuzzerValue::U8(byte)));
    let element = FuzzerType::U8(0);
    assert(element@ == FuzzerValue::U8(0));
    FuzzerType::Vector(Box::new(element), items)
}

/// The 32 big-endian bytes of a number.
pub fn u64_to_u256_bytes(value: u64) -> (encoded: [u8; 32])
    ensures
        encoded@ == be_bytes(value as nat, 32),
{
    let mut encoded: [u8; 32] = [0u8; 32];
    let mut rest = value;
    let mut i: usize = 32;
    let ghost full = be_bytes(value as nat, 32);
    proof {
        lemma_be_bytes_len(value as nat, 32);
        assert(be_bytes(value as nat, 32) =~= full.take(32));
    }
    while i > 0
        invariant
            i <= 32,
            full.len() == 32,
            full.take(i as int) == be_bytes(rest as nat, i as nat),
            forall|j: int| i <= j < 32 ==> #[trigger] encoded@[j] == full[j],
        decreases i,
    {
        i -= 1;
        proof {
            let shorter = be_bytes((rest / 256) as nat, i as nat);
            lemma_be_bytes_len((rest / 256) as nat, i as nat);
            assert(full.take(i + 1)[i as int] == full[i as int]);
            assert(full.take(i as int) =~= full.take(i + 1).drop_last());
            assert(shorter.push((rest as nat % 256) as u8).drop_last() =~= shorter);
        }
        encoded[i] = (rest % 256) as u8;
        rest = rest / 256;
    }
    assert(encoded@ =~= full);
    encoded
}

/// The candidate for a secret key that is drawn at the given attempt.
pub open spec fn key_candidate(words: Map<nat, u32>, attempt: nat) -> Seq<u8> {
    word_bytes(words, 8 * attempt, 8)
}

/// The candidate at `attempt` is a secret key and no earlier one is.
pub open spec fn is_first_key(words: Map<nat, u32>, attempt: nat) -> bool {
    &&& is_secret_key(key_candidate(words, attempt))
    &&& forall|earlier: nat|
        earlier < attempt ==> !is_secret_key(#[trigger] key_candidate(words, earlier))
}

/// The first secret key among the candidates that a seed gives.
pub open spec fn derived_secret(seed: u64) -> Option<Seq<u8>> {
    let words = seeded_words(seed);
    if exists|attempt: nat| attempt < KEY_ATTEMPTS && is_first_key(words, attempt) {
        Some(
            key_candidate(
                words,
                choose|attempt: nat| attempt < KEY_ATTEMPTS && is_first_key(words, attempt),
            ),
        )
    } else {
        None
    }
}

/// The 64 bytes of the public key of `secret`, without the leading tag.
pub open spec fn raw_public_key(secret: Seq<u8>) -> Seq<u8> {
    secp256k1_public_key(secret).skip(1)
}

/// Draws candidates from the generator of `seed` until one is a secret key, and
/// pairs it with its raw public key. `None` means that none of the first
/// [`KEY_ATTEMPTS`] candidates was a key.
pub fn derive_secp256k1_key(seed: u64) -> (keys: Option<([u8; 32], Vec<u8>)>)
    ensures
        match keys {
            Some((secret, public)) => {
                &&& derived_secret(seed) == Some(secret@)
                &&& is_secret_key(secret@)
                &&& public@ == raw_public_key(secret@)
                &&& public@.len() == 64
            },
            None => derived_secret(seed) is None,
        },
{
    let ghost words = seeded_words(seed);
    let mut rng = seeded_rng(seed);
    let mut attempt: u64 = 0;
    assert(skip_words(words, 0) =~= words);
    while attempt < KEY_ATTEMPTS
        invariant
            words == seeded_words(seed),
            rng_words(rng) =~= skip_words(words, 8 * attempt as nat),
            forall|earlier: nat|
                earlier < attempt ==> !is_secret_key(#[trigger] key_candidate(words, earlier)),
        decreases KEY_ATTEMPTS - attempt,
    {
        let bytes = next_bytes(&mut rng);
        proof {
            lemma_word_bytes_skip(words, 8 * attempt as nat, 0, 8);
            lemma_skip_skip(words, 8 * attempt as nat, 8);
            assert(bytes@ == key_candidate(words, attempt as nat));
        }
        if parses_as_secret_key(&bytes) {
            let serialized = public_key(&bytes);
            let mut public: Vec<u8> = Vec::new();
            append_bytes(&mut public, vstd::slice::slice_subrange(serialized.as_slice(), 1, 65));
            proof {
                assert(is_first_key(words, attempt as nat));
                let chosen = choose|attempt: nat|
                    attempt < KEY_ATTEMPTS && is_first_key(words, attempt);
                assert(chosen == attempt as nat) by {
                    if chosen < attempt {
                        assert(is_secret_key(key_candidate(words, chosen)));
                    } else if attempt < chosen {
                        assert(is_secret_key(key_candidate(words, attempt as nat)));
                    }
                }
                assert(public@ =~= raw_public_key(bytes@));
            }
            return Some((bytes, public));
        }
        attempt += 1;
    }
    None
}

/// A minting intent: what the payload of a `mint` call says before its hook data.
pub struct MintIntent {
    pub magic: u32,
    pub version: u32,
    pub amount: u64,
    pub remote_domain: u32,
    pub remote_token: [u8; 32],
    pub remote_recipient: [u8; 32],
    pub local_token: [u8; 32],
    pub local_depositor: [u8; 32],
    pub max_fee: u64,
    pub nonce: [u8; 32],
}

/// The mathematical content of a [`MintIntent`].
pub ghost struct MintIntentView {
    pub magic: nat,
    pub version: nat,
    pub amount: nat,
    pub remote_domain: nat,
    pub remote_token: Seq<u8>,
    pub remote_recipient: Seq<u8>,
    pub local_token: Seq<u8>,
    pub local_depositor: Seq<u8>,
    pub max_fee: nat,
    pub nonce: Seq<u8>,
}

impl View for MintIntent {
    type V = MintIntentView;

    open spec fn view(&self) -> MintIntentView {
        MintIntentView {
            magic: self.magic as nat,
            version: self.version as nat,
            amount: self.amount as nat,
            remote_domain: self.remote_domain as nat,
            remote_token: self.remote_token@,
            remote_recipient: self.remote_recipient@,
            local_token: self.local_token@,
            local_depositor: self.local_depositor@,
            max_fee: self.max_fee as nat,
            nonce: self.nonce@,
        }
    }
}

/// The hook data that a payload carries: at most [`MAX_HOOK_DATA`] leading bytes.
pub open spec fn carried_hook_data(hook_data: Seq<u8>) -> Seq<u8> {
    if hook_data.len() <= MAX_HOOK_DATA {
        hook_data
    } else {
        hook_data.take(MAX_HOOK_DATA as int)
    }
}

impl MintIntentView {
    /// The fields one after the other, numbers big-endian, then the length of the
    /// carried hook data and that data.
    pub open spec fn payload(self, hook_data: Seq<u8>) -> Seq<u8> {
        be_bytes(self.magic, 4) + be_bytes(self.version, 4) + be_bytes(self.amount, 32) + be_bytes(
            self.remote_domain,
            4,
        ) + self.remote_token + self.remote_recipient + self.local_token + self.local_depositor
            + be_bytes(self.max_fee, 32) + self.nonce + be_bytes(
            carried_hook_data(hook_data).len(),
            4,
        ) + carried_hook_data(hook_data)
    }

    /// The fields have the widths that the payload gives them, and the fee limit
    /// is the amount, which is at least one.
    pub open spec fn well_formed(self) -> bool {
        &&& self.magic < 0x1_0000_0000
        &&& self.version == PAYLOAD_VERSION
        &&& 1 <= self.amount <= MAX_AMOUNT
        &&& self.max_fee == self.amount
        &&& self.remote_domain < 0x1_0000_0000
        &&& self.remote_token.len() == 32
        &&& self.remote_recipient.len() == 32
        &&& self.local_token.len() == 32
        &&& self.local_depositor.len() == 32
        &&& self.nonce.len() == 32
    }
}

/// The intent for `domain` that a generator holding `words` gives.
pub open spec fn drawn_intent(words: Map<nat, u32>, domain: u32) -> MintIntentView {
    let amount = 1 + word_pair(words, 1) % (MAX_AMOUNT as nat);
    MintIntentView {
        magic: words[0] as nat,
        version: PAYLOAD_VERSION as nat,
        amount,
        remote_domain: domain as nat,
        remote_token: word_bytes(words, 3, 8),
        remote_recipient: word_bytes(words, 11, 8),
        local_token: word_bytes(words, 19, 8),
        local_depositor: word_bytes(words, 27, 8),
        max_fee: amount,
        nonce: word_bytes(words, 35, 8),
    }
}

/// Draws an intent for `domain` from the generator of `seed`.
pub fn draw_intent(seed: u64, domain: u32) -> (intent: MintIntent)
    ensures
        intent@ == drawn_intent(seeded_words(seed), domain),
        intent@.well_formed(),
{
    let ghost words = seeded_words(seed);
    let mut rng = seeded_rng(seed);
    assert(skip_words(words, 0) =~= words);
    let magic = next_u32(&mut rng);
    let amount = 1 + next_u64(&mut rng) % MAX_AMOUNT;
    proof {
        lemma_skip_skip(words, 1, 2);
        lemma_word_bytes_skip(words, 3, 0, 8);
    }
    let remote_token = next_bytes(&mut rng);
    proof {
        lemma_skip_skip(words, 3, 8);
        lemma_word_bytes_skip(words, 11, 0, 8);
    }
    let remote_recipient = next_bytes(&mut rng);
    proof {
        lemma_skip_skip(words, 11, 8);
        lemma_word_bytes_skip(words, 19, 0, 8);
    }
    let local_token = next_bytes(&mut rng);
    proof {
        lemma_skip_skip(words, 19, 8);
        lemma_word_bytes_skip(words, 27, 0, 8);
    }
    let local_depositor = next_bytes(&mut rng);
    proof {
        lemma_skip_skip(words, 27, 8);
        lemma_word_bytes_skip(words, 35, 0, 8);
    }
    let nonce = next_bytes(&mut rng);
    MintIntent {
        magic,
        version: PAYLOAD_VERSION,
        amount,
        remote_domain: domain,
        remote_token,
        remote_recipient,
        local_token,
        local_depositor,
        max_fee: amount,
        nonce,
    }
}

/// Lays out the payload of an intent.
pub fn encode_payload(intent: &MintIntent, hook_data: &Vec<u8>) -> (payload: Vec<u8>)
    ensures
        payload@ == intent@.payload(hook_data@),
{
    let hook_len = if hook_data.len() < MAX_HOOK_DATA {
        hook_data.len()
    } else {
        MAX_HOOK_DATA
    };
    let carried = vstd::slice::slice_subrange(hook_data.as_slice(), 0, hook_len);
    assert(carried@ =~= carried_hook_data(hook_data@));
    let amount = u64_to_u256_bytes(intent.amount);
    let max_fee = u64_to_u256_bytes(intent.max_fee);
    let mut payload: Vec<u8> = Vec::new();
    append_be(&mut payload, intent.magic as u64, 4);
    append_be(&mut payload, intent.version as u64, 4);
    append_bytes(&mut payload, amount.as_slice());
    append_be(&mut payload, intent.remote_domain as u64, 4);
    append_bytes(&mut payload, intent.remote_token.as_slice());
    append_bytes(&mut payload, intent.remote_recipient.as_slice());
    append_bytes(&mut payload, intent.local_token.as_slice());
    append_bytes(&mut payload, intent.local_depositor.as_slice());
    append_bytes(&mut payload, max_fee.as_slice());
    append_bytes(&mut payload, intent.nonce.as_slice());
    append_be(&mut payload, hook_len as u64, 4);
    append_bytes(&mut payload, carried);
    assert(payload@ =~= intent@.payload(hook_data@));
    payload
}

/// The inputs of `mint`: payload, signature with its recovery id, and fee.
pub open spec fn mint_input_values(
    payload: Seq<u8>,
    signature: Seq<u8>,
    recovery_id: u8,
    fee_amount: u64,
) -> Seq<FuzzerValue> {
    seq![
        bytes_value(payload),
        bytes_value(signature.push(recovery_id)),
        FuzzerValue::U64(fee_amount),
    ]
}

/// Puts a signed payload and its fee into the inputs of `mint`.
pub fn mint_inputs(
    payload: Vec<u8>,
    signature: &[u8; 64],
    recovery_id: u8,
    fee_amount: u64,
) -> (inputs: Vec<FuzzerType>)
    ensures
        values_of(inputs@) == mint_input_values(payload@, signature@, recovery_id, fee_amount),
{
    let mut signature_bytes: Vec<u8> = Vec::new();
    append_bytes(&mut signature_bytes, signature.as_slice());
    signature_bytes.push(recovery_id);
    assert(signature_bytes@ =~= signature@.push(recovery_id));
    let fee = FuzzerType::U64(fee_amount);
    assert(fee@ == FuzzerValue::U64(fee_amount));
    let mut inputs: Vec<FuzzerType> = Vec::new();
    inputs.push(fuzzer_vec_from_u8(payload));
    inputs.push(fuzzer_vec_from_u8(signature_bytes));
    inputs.push(fee);
    assert(values_of(inputs@) =~= mint_input_values(
        payload@,
        signature@,
        recovery_id,
        fee_amount,
    ));
    inputs
}

/// Prepares the USDCx contract and its `mint` function: it initializes the
/// contract with an attester key of its own and signs every mint payload with it.
pub struct UsdcxMintHelper {
    seed: u64,
    secp_secret: [u8; 32],
    secp_pubkey: Vec<u8>,
    domain: u32,
}

/// The mathematical content of a [`UsdcxMintHelper`].
pub ghost struct UsdcxMintHelperView {
    pub seed: u64,
    pub secret: Seq<u8>,
    pub public_key: Seq<u8>,
    pub domain: u32,
}

impl View for UsdcxMintHelper {
    type V = UsdcxMintHelperView;

    closed spec fn view(&self) -> UsdcxMintHelperView {
        UsdcxMintHelperView {
            seed: self.seed,
            secret: self.secp_secret@,
            public_key: self.secp_pubkey@,
            domain: self.domain,
        }
    }
}

/// The bytes of the input at `index`, none where there is no such input.
pub open spec fn input_bytes(inputs: Seq<FuzzerValue>, index: int) -> Seq<u8> {
    if 0 <= index < inputs.len() {
        fuzzer_bytes(inputs[index])
    } else {
        Seq::empty()
    }
}

/// The fee that the raw inputs ask for: the third, where it is a `u64`.
pub open spec fn requested_fee(inputs: Seq<FuzzerValue>) -> u64 {
    if inputs.len() > 2 {
        match inputs[2] {
            FuzzerValue::U64(fee) => fee,
            _ => 0,
        }
    } else {
        0
    }
}

impl UsdcxMintHelperView {
    /// The intent that raw inputs lead to. Its randomness depends on the helper's
    /// seed and on the bytes of the first input.
    pub open spec fn intent(self, inputs: Seq<FuzzerValue>) -> MintIntentView {
        drawn_intent(seeded_words(mixed_seed(self.seed, input_bytes(inputs, 0))), self.domain)
    }

    /// The payload that raw inputs lead to, with the second input as hook data.
    pub open spec fn payload(self, inputs: Seq<FuzzerValue>) -> Seq<u8> {
        self.intent(inputs).payload(input_bytes(inputs, 1))
    }

    /// The fee that is paid: what was asked for, up to the intent's limit.
    pub open spec fn fee_amount(self, inputs: Seq<FuzzerValue>) -> u64 {
        let limit = self.intent(inputs).max_fee;
        if requested_fee(inputs) <= limit {
            requested_fee(inputs)
        } else {
            limit as u64
        }
    }

    /// The signature of the payload, and its recovery id.
    pub open spec fn signature(self, inputs: Seq<FuzzerValue>) -> (Seq<u8>, u8) {
        secp256k1_signature(keccak256_digest(self.payload(inputs)), self.secret)
    }

    /// The signed inputs that stand in for raw ones.
    pub open spec fn mint_inputs(self, inputs: Seq<FuzzerValue>) -> Seq<FuzzerValue> {
        let signed = self.signature(inputs);
        mint_input_values(self.payload(inputs), signed.0, signed.1, self.fee_amount(inputs))
    }

    /// The arguments of the contract's `initialize` function: the domain, the name
    /// twice, six decimals, two empty byte strings, the administrator, an empty
    /// list of addresses, and a list with the attester key.
    pub open spec fn initialize_args(self, admin: Seq<u8>) -> Seq<Seq<u8>> {
        seq![
            le_bytes(self.domain as nat, 4),
            bytes_encoding(usdcx_name()),
            bytes_encoding(usdcx_name()),
            le_bytes(6, 1),
            bytes_encoding(Seq::empty()),
            bytes_encoding(Seq::empty()),
            admin,
            arrays_encoding(Seq::empty()),
            byte_lists_encoding(seq![self.public_key]),
        ]
    }
}

/// `inputs` hold a payload and a signature by which it is attested: the signature has
/// 64 bytes and a recovery id, and from the payload's digest and the signature the
/// key whose raw bytes are `key` is recovered. A signature whose first half is zero
/// would attest nothing.
pub open spec fn attested_by(inputs: Seq<FuzzerValue>, key: Seq<u8>) -> bool {
    let payload = fuzzer_bytes(inputs[0]);
    let signed = fuzzer_bytes(inputs[1]);
    let recovered = secp256k1_recovered_key(
        keccak256_digest(payload),
        signed.take(64),
        signed[64],
    );
    &&& inputs.len() == 3
    &&& signed.len() == 65
    &&& signed[64] < 4
    &&& be_value(signed.take(32)) > 0 ==> recovered is Some && recovered->0.skip(1) == key
}

/// `USDCx` in ASCII.
pub open spec fn usdcx_name() -> Seq<u8> {
    seq![0x55u8, 0x53u8, 0x44u8, 0x43u8, 0x78u8]
}

impl UsdcxMintHelper {
    #[verifier::type_invariant]
    spec fn signs(&self) -> bool {
        &&& is_secret_key(self.secp_secret@)
        &&& self.secp_pubkey@ == raw_public_key(self.secp_secret@)
        &&& self.secp_pubkey@.len() == 64
    }

    /// The helper whose key is derived from `seed`. `None` means that the seed
    /// leads to no key.
    pub fn new(seed: u64) -> (helper: Option<Self>)
        ensures
            match helper {
                Some(h) => {
                    &&& derived_secret(seed) == Some(h@.secret)
                    &&& h@ == (UsdcxMintHelperView {
                        seed,
                        secret: h@.secret,
                        public_key: raw_public_key(h@.secret),
                        domain: 0,
                    })
                    &&& h@.public_key.len() == 64
                },
                None => derived_secret(seed) is None,
            },
    {
        match derive_secp256k1_key(seed) {
            Some((secp_secret, secp_pubkey)) => Some(
                UsdcxMintHelper { seed, secp_secret, secp_pubkey, domain: 0 },
            ),
            None => None,
        }
    }

    fn initialize_args_impl(&self, admin: &AccountAddress) -> (args: Vec<Vec<u8>>)
        ensures
            byte_lists(args@) == self@.initialize_args(admin@),
    {
        proof {
            use_type_invariant(self);
        }
        let mut name: Vec<u8> = Vec::new();
        name.push(0x55);
        name.push(0x53);
        name.push(0x44);
        name.push(0x43);
        name.push(0x78);
        assert(name@ =~= usdcx_name());
        let empty: Vec<u8> = Vec::new();
        let no_admins: Vec<[u8; 32]> = Vec::new();
        let mut attesters: Vec<Vec<u8>> = Vec::new();
        attesters.push(copy_bytes(self.secp_pubkey.as_slice()));
        assert(byte_lists(attesters@) =~= seq![self.secp_pubkey@]);
        let mut args: Vec<Vec<u8>> = Vec::new();
        args.push(encode_u32(self.domain));
        args.push(encode_bytes(&name));
        args.push(encode_bytes(&name));
        args.push(encode_u8(6));
        args.push(encode_bytes(&empty));
        args.push(encode_bytes(&empty));
        args.push(encode_array(&admin.bytes));
        args.push(encode_arrays(&no_admins));
        args.push(encode_byte_lists(&attesters));
        assert(byte_lists(args@) =~= self@.initialize_args(admin@));
        args
    }

    fn prepare_mint_inputs_impl(&self, inputs: &Vec<FuzzerType>) -> (prepared: Vec<FuzzerType>)
        ensures
            values_of(prepared@) == self@.mint_inputs(values_of(inputs@)),
            values_of(prepared@).len() == 3,
            inputs@.len() > 2 ==> (values_of(inputs@)[2] matches FuzzerValue::U64(fee)
                ==> values_of(prepared@)[2] == FuzzerValue::U64(
                if fee <= self@.intent(values_of(inputs@)).amount {
                    fee
                } else {
                    self@.intent(values_of(inputs@)).amount as u64
                },
            )),
            inputs@.len() <= 2 || !(values_of(inputs@)[2] is U64) ==> values_of(prepared@)[2]
                == FuzzerValue::U64(0),
            self@.signature(values_of(inputs@)).0.len() == 64,
            self@.signature(values_of(inputs@)).1 < 4,
            attested_by(self@.mint_inputs(values_of(inputs@)), self@.public_key),
    {
        proof {
            use_type_invariant(self);
        }
        let ghost values = values_of(inputs@);
        let intent_entropy = if inputs.len() > 0 {
            u8_vec_from_fuzzer(&inputs[0])
        } else {
            Vec::new()
        };
        let hook_data = if inputs.len() > 1 {
            u8_vec_from_fuzzer(&inputs[1])
        } else {
            Vec::new()
        };
        let fee_input: u64 = if inputs.len() > 2 {
            match &inputs[2] {
                FuzzerType::U64(fee) => *fee,
                _ => 0,
            }
        } else {
            0
        };
        assert(intent_entropy@ == input_bytes(values, 0));
        assert(hook_data@ == input_bytes(values, 1));
        assert(fee_input == requested_fee(values));
        let intent = draw_intent(mix_seed(self.seed, intent_entropy.as_slice()), self.domain);
        let fee_amount = if fee_input < intent.max_fee {
            fee_input
        } else {
            intent.max_fee
        };
        let payload = encode_payload(&intent, &hook_data);
        let digest = keccak256(payload.as_slice());
        let (signature, recovery_id) = sign_digest(&digest, &self.secp_secret);
        proof {
            let signed = signature@.push(recovery_id);
            law_bytes_round_trip(payload@);
            law_bytes_round_trip(signed);
            assert(signed.take(64) =~= signature@);
            assert(signed.take(32) =~= signature@.take(32));
        }
        mint_inputs(payload, &signature, recovery_id, fee_amount)
    }
}

impl AptosHelper for UsdcxMintHelper {
    fn initialize_args(&self, admin: &AccountAddress) -> (args: Option<Vec<Vec<u8>>>)
        ensures
            args is Some,
            byte_lists(args->0@) == self@.initialize_args(admin@),
    {
        Some(self.initialize_args_impl(admin))
    }

    fn transform_inputs(&self, inputs: &Vec<FuzzerType>) -> (transformed: Option<Vec<FuzzerType>>)
        ensures
            transformed is Some,
            values_of(transformed->0@) == self@.mint_inputs(values_of(inputs@)),
            inputs@.len() > 2 ==> (values_of(inputs@)[2] matches FuzzerValue::U64(fee)
                ==> values_of(transformed->0@)[2] == FuzzerValue::U64(
                if fee <= self@.intent(values_of(inputs@)).amount {
                    fee
                } else {
                    self@.intent(values_of(inputs@)).amount as u64
                },
            )),
            inputs@.len() <= 2 || !(values_of(inputs@)[2] is U64) ==> values_of(transformed->0@)[2]
                == FuzzerValue::U64(0),
            self@.signature(values_of(inputs@)).0.len() == 64,
            self@.signature(values_of(inputs@)).1 < 4,
            attested_by(self@.mint_inputs(values_of(inputs@)), self@.public_key),
    {
        Some(self.prepare_mint_inputs_impl(inputs))
    }
}

} // verus!
