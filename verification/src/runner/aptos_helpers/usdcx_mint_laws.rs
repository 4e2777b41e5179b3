//! What holds of minting intents, payloads and signed inputs as a whole.
use crate::bytes::{be_bytes, be_value, lemma_be_bytes_len, lemma_be_round_trip};
use crate::external::crypto::{keccak256_digest, secp256k1_signature};
use crate::external::codec::{byte_lists_encoding, bytes_encoding, joined_encodings, uleb128};
use crate::external::random::{lemma_word_bytes_len, seeded_words};
use crate::mutator::types::FuzzerValue;
use crate::runner::aptos_helpers::usdcx_mint_helper::{
    byte_items, bytes_value, carried_hook_data, drawn_intent, fuzzer_bytes, input_bytes,
    mixed_seed, raw_public_key, requested_fee, MintIntentView, UsdcxMintHelperView, MAX_AMOUNT,
    MAX_HOOK_DATA,
};
use vstd::arithmetic::power::pow;
use vstd::prelude::*;

verus! {

/// Folding one run of bytes after another is folding their concatenation.
pub proof fn law_mix_seed_appends(base: u64, first: Seq<u8>, second: Seq<u8>)
    ensures
        mixed_seed(base, first + second) == mixed_seed(mixed_seed(base, first), second),
    decreases second.len(),
{
    if second.len() == 0 {
        assert(first + second =~= first);
    } else {
        law_mix_seed_appends(base, first, second.drop_last());
        assert((first + second).drop_last() =~= first + second.drop_last());
    }
}

/// Bytes that are put into a vector input come back out of it.
pub proof fn law_bytes_round_trip(bytes: Seq<u8>)
    ensures
        fuzzer_bytes(bytes_value(bytes)) == bytes,
    decreases bytes.len(),
{
    let items = bytes.map_values(|byte: u8| FuzzerValue::U8(byte));
    if bytes.len() > 0 {
        let shorter = bytes.drop_last();
        law_bytes_round_trip(shorter);
        assert(items.drop_last() =~= shorter.map_values(|byte: u8| FuzzerValue::U8(byte)));
        assert(shorter.push(bytes.last()) =~= bytes);
    } else {
        assert(byte_items(items) =~= bytes);
    }
}

proof fn lemma_powers()
    ensures
        pow(256, 4) == 0x1_0000_0000,
        MAX_AMOUNT < pow(256, 32),
{
    vstd::arithmetic::power::lemma_pow_adds(256, 4, 28);
    vstd::arithmetic::power::lemma_pow_positive(256, 28);
    assert(pow(256, 4) == 0x1_0000_0000) by {
        reveal_with_fuel(pow, 5);
    }
    assert(0x1_0000_0000 * pow(256, 28) >= 0x1_0000_0000) by (nonlinear_arith)
        requires
            pow(256, 28) > 0,
    ;
}

/// A payload has 240 bytes of fields and at most 32 bytes of hook data.
pub proof fn law_payload_length(intent: MintIntentView, hook_data: Seq<u8>)
    requires
        intent.well_formed(),
    ensures
        intent.payload(hook_data).len() == 240 + carried_hook_data(hook_data).len(),
        intent.payload(hook_data).len() <= 240 + MAX_HOOK_DATA,
{
    lemma_be_bytes_len(intent.magic, 4);
    lemma_be_bytes_len(intent.version, 4);
    lemma_be_bytes_len(intent.amount, 32);
    lemma_be_bytes_len(intent.remote_domain, 4);
    lemma_be_bytes_len(intent.max_fee, 32);
    lemma_be_bytes_len(carried_hook_data(hook_data).len(), 4);
}

/// Every field of an intent, and the hook data that is carried, can be read back
/// from the payload at a fixed place.
pub proof fn law_payload_decodes(intent: MintIntentView, hook_data: Seq<u8>)
    requires
        intent.well_formed(),
    ensures
        ({
            let payload = intent.payload(hook_data);
            let carried = carried_hook_data(hook_data);
            &&& be_value(payload.subrange(0, 4)) == intent.magic
            &&& be_value(payload.subrange(4, 8)) == intent.version
            &&& be_value(payload.subrange(8, 40)) == intent.amount
            &&& be_value(payload.subrange(40, 44)) == intent.remote_domain
            &&& payload.subrange(44, 76) == intent.remote_token
            &&& payload.subrange(76, 108) == intent.remote_recipient
            &&& payload.subrange(108, 140) == intent.local_token
            &&& payload.subrange(140, 172) == intent.local_depositor
            &&& be_value(payload.subrange(172, 204)) == intent.max_fee
            &&& payload.subrange(204, 236) == intent.nonce
            &&& be_value(payload.subrange(236, 240)) == carried.len()
            &&& payload.skip(240) == carried
        }),
{
    let payload = intent.payload(hook_data);
    let carried = carried_hook_data(hook_data);
    law_payload_length(intent, hook_data);
    lemma_powers();
    lemma_be_bytes_len(intent.magic, 4);
    lemma_be_bytes_len(intent.version, 4);
    lemma_be_bytes_len(intent.amount, 32);
    lemma_be_bytes_len(intent.remote_domain, 4);
    lemma_be_bytes_len(intent.max_fee, 32);
    lemma_be_bytes_len(carried.len(), 4);
    lemma_be_round_trip(intent.magic, 4);
    lemma_be_round_trip(intent.version, 4);
    lemma_be_round_trip(intent.amount, 32);
    lemma_be_round_trip(intent.remote_domain, 4);
    lemma_be_round_trip(intent.max_fee, 32);
    lemma_be_round_trip(carried.len(), 4);
    assert(payload.subrange(0, 4) =~= be_bytes(intent.magic, 4));
    assert(payload.subrange(4, 8) =~= be_bytes(intent.version, 4));
    assert(payload.subrange(8, 40) =~= be_bytes(intent.amount, 32));
    assert(payload.subrange(40, 44) =~= be_bytes(intent.remote_domain, 4));
    assert(payload.subrange(44, 76) =~= intent.remote_token);
    assert(payload.subrange(76, 108) =~= intent.remote_recipient);
    assert(payload.subrange(108, 140) =~= intent.local_token);
    assert(payload.subrange(140, 172) =~= intent.local_depositor);
    assert(payload.subrange(172, 204) =~= be_bytes(intent.max_fee, 32));
    assert(payload.subrange(204, 236) =~= intent.nonce);
    assert(payload.subrange(236, 240) =~= be_bytes(carried.len(), 4));
    assert(payload.skip(240) =~= carried);
}

/// Two well-formed intents with the same payload are the same, and carry the same
/// hook data.
pub proof fn law_payload_is_unambiguous(
    one: MintIntentView,
    one_hook: Seq<u8>,
    other: MintIntentView,
    other_hook: Seq<u8>,
)
    requires
        one.well_formed(),
        other.well_formed(),
        one.payload(one_hook) == other.payload(other_hook),
    ensures
        one == other,
        carried_hook_data(one_hook) == carried_hook_data(other_hook),
{
    law_payload_decodes(one, one_hook);
    law_payload_decodes(other, other_hook);
}

/// Every intent that is drawn is well formed.
pub proof fn law_drawn_intents_are_well_formed(words: Map<nat, u32>, domain: u32)
    ensures
        drawn_intent(words, domain).well_formed(),
{
    lemma_word_bytes_len(words, 3, 8);
    lemma_word_bytes_len(words, 11, 8);
    lemma_word_bytes_len(words, 19, 8);
    lemma_word_bytes_len(words, 27, 8);
    lemma_word_bytes_len(words, 35, 8);
}

/// The fee never exceeds the limit that the payload states, which is the amount,
/// and is what was asked for wherever that is within the limit.
pub proof fn law_fee_within_limit(helper: UsdcxMintHelperView, inputs: Seq<FuzzerValue>)
    ensures
        helper.fee_amount(inputs) <= be_value(helper.payload(inputs).subrange(172, 204)),
        helper.fee_amount(inputs) <= be_value(helper.payload(inputs).subrange(8, 40)),
        helper.fee_amount(inputs) <= requested_fee(inputs),
        requested_fee(inputs) <= helper.intent(inputs).max_fee ==> helper.fee_amount(inputs)
            == requested_fee(inputs),
{
    law_drawn_intents_are_well_formed(
        seeded_words(mixed_seed(helper.seed, input_bytes(inputs, 0))),
        helper.domain,
    );
    law_payload_decodes(helper.intent(inputs), input_bytes(inputs, 1));
}

/// Only the first three raw inputs count.
pub proof fn law_later_inputs_are_ignored(helper: UsdcxMintHelperView, inputs: Seq<FuzzerValue>)
    requires
        inputs.len() >= 3,
    ensures
        helper.mint_inputs(inputs) == helper.mint_inputs(inputs.take(3)),
{
}

/// The second of the signed inputs is the signature of the first one's digest,
/// followed by its recovery id, made with the key whose public half the last
/// argument of `initialize` registers.
pub proof fn law_registered_key_signs(
    helper: UsdcxMintHelperView,
    inputs: Seq<FuzzerValue>,
    admin: Seq<u8>,
)
    requires
        helper.public_key == raw_public_key(helper.secret),
    ensures
        ({
            let signed = helper.mint_inputs(inputs);
            let made = secp256k1_signature(keccak256_digest(fuzzer_bytes(signed[0])), helper.secret);
            &&& fuzzer_bytes(signed[0]) == helper.payload(inputs)
            &&& fuzzer_bytes(signed[1]) == made.0.push(made.1)
            &&& helper.initialize_args(admin)[8] == byte_lists_encoding(
                seq![raw_public_key(helper.secret)],
            )
        }),
{
    let payload = helper.payload(inputs);
    let made = secp256k1_signature(keccak256_digest(payload), helper.secret);
    law_bytes_round_trip(payload);
    law_bytes_round_trip(made.0.push(made.1));
}

/// The last argument of `initialize` is a list of one key of 64 bytes: two bytes of
/// lengths, then the key.
pub proof fn law_registered_key_is_in_the_last_argument(
    helper: UsdcxMintHelperView,
    admin: Seq<u8>,
)
    requires
        helper.public_key.len() == 64,
    ensures
        helper.initialize_args(admin).len() == 9,
        helper.initialize_args(admin)[8] == seq![1u8, 64u8] + helper.public_key,
{
    let keys = seq![helper.public_key];
    assert(keys.drop_last() =~= Seq::empty());
    assert(joined_encodings(Seq::empty()) =~= Seq::<u8>::empty());
    assert(joined_encodings(keys) =~= bytes_encoding(helper.public_key));
    assert(uleb128(1) =~= seq![1u8]);
    assert(uleb128(64) =~= seq![64u8]);
    assert(byte_lists_encoding(keys) =~= seq![1u8, 64u8] + helper.public_key);
}

} // verus!
