//! What a minting helper makes of its inputs, part by part.
use crate::bytes::{be_value, le_bytes};
use crate::external::codec::{arrays_encoding, uleb128};
use crate::external::crypto::{is_secret_key, secp256k1_public_key};
use crate::external::random::{lemma_word_bytes_len, seeded_words, word_bytes};
use crate::mutator::types::FuzzerValue;
use crate::runner::aptos_helpers::usdcx_mint_helper::{
    byte_items, bytes_value, carried_hook_data, derived_secret, drawn_intent, fuzzer_bytes,
    input_bytes, is_first_key, key_candidate, mint_input_values, mixed_seed, raw_public_key,
    UsdcxMintHelperView, KEY_ATTEMPTS,
};
use crate::runner::aptos_helpers::usdcx_mint_laws::{
    law_bytes_round_trip, law_drawn_intents_are_well_formed, law_payload_decodes,
    law_payload_length,
};
use vstd::prelude::*;

verus! {

/// The fee that is paid is the number that was asked for, but no more than the limit
/// that the payload states. Where no number was asked for it is zero.
pub proof fn law_fee_is_what_was_asked_for(
    helper: UsdcxMintHelperView,
    inputs: Seq<FuzzerValue>,
)
    ensures
        ({
            let minted = helper.mint_inputs(inputs);
            let limit = be_value(fuzzer_bytes(minted[0]).subrange(172, 204));
            &&& minted.len() == 3
            &&& 1 <= limit <= 1_000_000_000
            &&& inputs.len() > 2 ==> (inputs[2] matches FuzzerValue::U64(asked) ==> {
                &&& asked <= limit ==> minted[2] == FuzzerValue::U64(asked)
                &&& asked > limit ==> minted[2] == FuzzerValue::U64(limit as u64)
            })
            &&& inputs.len() <= 2 || !(inputs[2] is U64) ==> minted[2] == FuzzerValue::U64(0)
        }),
{
    law_bytes_round_trip(helper.payload(inputs));
    law_drawn_intents_are_well_formed(
        seeded_words(mixed_seed(helper.seed, input_bytes(inputs, 0))),
        helper.domain,
    );
    law_payload_decodes(helper.intent(inputs), input_bytes(inputs, 1));
}

/// A greater request is never answered by a smaller fee, all else being equal.
pub proof fn law_fees_grow_with_requests(
    helper: UsdcxMintHelperView,
    inputs: Seq<FuzzerValue>,
    less: u64,
    more: u64,
)
    requires
        inputs.len() > 2,
        less <= more,
    ensures
        ({
            let one = helper.mint_inputs(inputs.update(2, FuzzerValue::U64(less)));
            let other = helper.mint_inputs(inputs.update(2, FuzzerValue::U64(more)));
            &&& one[0] == other[0]
            &&& one[1] == other[1]
            &&& one[2] is U64 && other[2] is U64
            &&& one[2]->U64_0 <= other[2]->U64_0
        }),
{
    let one = inputs.update(2, FuzzerValue::U64(less));
    let other = inputs.update(2, FuzzerValue::U64(more));
    assert(input_bytes(one, 0) == input_bytes(other, 0));
    assert(input_bytes(one, 1) == input_bytes(other, 1));
}

/// The inputs of `mint` are the payload, the signature with its recovery id at the end,
/// and the fee.
pub proof fn law_order_of_minted_inputs(
    payload: Seq<u8>,
    signature: Seq<u8>,
    recovery_id: u8,
    fee: u64,
)
    ensures
        ({
            let minted = mint_input_values(payload, signature, recovery_id, fee);
            &&& minted.len() == 3
            &&& fuzzer_bytes(minted[0]) == payload
            &&& fuzzer_bytes(minted[1]).len() == signature.len() + 1
            &&& fuzzer_bytes(minted[1]).take(signature.len() as int) == signature
            &&& fuzzer_bytes(minted[1]).last() == recovery_id
            &&& minted[2] == FuzzerValue::U64(fee)
        }),
{
    law_bytes_round_trip(payload);
    law_bytes_round_trip(signature.push(recovery_id));
    assert(signature.push(recovery_id).take(signature.len() as int) =~= signature);
}

/// Folding no byte changes nothing. Folding one multiplies by 31 and adds the byte,
/// modulo 2^64.
pub proof fn law_folding_a_byte(base: u64, byte: u8)
    ensures
        mixed_seed(base, Seq::empty()) == base,
        mixed_seed(base, seq![byte]) == (31 * base + byte) % 0x1_0000_0000_0000_0000,
{
    assert(seq![byte].drop_last() =~= Seq::<u8>::empty());
    assert(mixed_seed(base, seq![byte].drop_last()) == base);
}

/// The bytes of a list are those of its parts, in order.
pub proof fn law_byte_items_append(first: Seq<FuzzerValue>, second: Seq<FuzzerValue>)
    ensures
        byte_items(first + second) == byte_items(first) + byte_items(second),
    decreases second.len(),
{
    if second.len() == 0 {
        assert(first + second =~= first);
        assert(byte_items(first) + byte_items(second) =~= byte_items(first));
    } else {
        law_byte_items_append(first, second.drop_last());
        assert((first + second).drop_last() =~= first + second.drop_last());
        assert((first + second).last() == second.last());
        assert(byte_items(first + second) =~= byte_items(first) + byte_items(second));
    }
}

/// A byte is read as itself, and nothing else is read.
pub proof fn law_one_byte_item(item: FuzzerValue)
    ensures
        item matches FuzzerValue::U8(byte) ==> byte_items(seq![item]) == seq![byte],
        !(item is U8) ==> byte_items(seq![item]).len() == 0,
{
    assert(seq![item].drop_last() =~= Seq::<FuzzerValue>::empty());
    assert(byte_items(seq![item].drop_last()) =~= Seq::<u8>::empty());
    if let FuzzerValue::U8(byte) = item {
        assert(byte_items(seq![item]) =~= seq![byte]);
    }
}

/// Bytes are read from a vector alone, and from the input at the given place.
pub proof fn law_where_bytes_are_read(inputs: Seq<FuzzerValue>, index: int)
    ensures
        0 <= index < inputs.len() ==> {
            &&& inputs[index] matches FuzzerValue::Vector(_, items) ==> input_bytes(inputs, index)
                == byte_items(items)
            &&& !(inputs[index] is Vector) ==> input_bytes(inputs, index).len() == 0
        },
        index >= inputs.len() ==> input_bytes(inputs, index).len() == 0,
{
}

/// A vector of bytes holds each of them in its place, and has zero as its element.
pub proof fn law_vector_of_bytes(bytes: Seq<u8>)
    ensures
        bytes_value(bytes) matches FuzzerValue::Vector(element, items) && {
            &&& *element == FuzzerValue::U8(0)
            &&& items.len() == bytes.len()
            &&& forall|i: int|
                0 <= i < bytes.len() ==> #[trigger] items[i] == FuzzerValue::U8(bytes[i])
        },
{
}

/// Of the hook data the first 32 bytes are carried, or all where there are fewer.
pub proof fn law_carried_hook_data(hook_data: Seq<u8>)
    ensures
        hook_data.len() <= 32 ==> carried_hook_data(hook_data) == hook_data,
        hook_data.len() > 32 ==> carried_hook_data(hook_data).len() == 32,
        forall|i: int|
            0 <= i < carried_hook_data(hook_data).len() ==> #[trigger] carried_hook_data(
                hook_data,
            )[i] == hook_data[i],
{
}

/// What an intent takes from a generator: the first word, then two words for the
/// amount, then forty words for five fields of 32 bytes, one after the other. The limit
/// of the fee is the amount, and the version is one.
pub proof fn law_intent_of_a_generator(words: Map<nat, u32>, domain: u32)
    ensures
        ({
            let intent = drawn_intent(words, domain);
            &&& intent.magic == words[0]
            &&& intent.version == 1
            &&& intent.amount - 1 == (words[1] + words[2] * 0x1_0000_0000) % 1_000_000_000
            &&& intent.max_fee == intent.amount
            &&& intent.remote_domain == domain
            &&& intent.remote_token.len() == 32
            &&& intent.remote_recipient.len() == 32
            &&& intent.local_token.len() == 32
            &&& intent.local_depositor.len() == 32
            &&& intent.nonce.len() == 32
            &&& intent.remote_token + intent.remote_recipient + intent.local_token
                + intent.local_depositor + intent.nonce == word_bytes(words, 3, 40)
        }),
{
    law_drawn_intents_are_well_formed(words, domain);
    law_words_append(words, 3, 8, 8);
    law_words_append(words, 3, 16, 8);
    law_words_append(words, 3, 24, 8);
    law_words_append(words, 3, 32, 8);
}

/// The bytes of a run of words are those of its parts, in order.
pub proof fn law_words_append(words: Map<nat, u32>, start: nat, first: nat, second: nat)
    ensures
        word_bytes(words, start, first + second) == word_bytes(words, start, first) + word_bytes(
            words,
            start + first,
            second,
        ),
    decreases second,
{
    if second == 0 {
        assert(word_bytes(words, start, first) + word_bytes(words, start + first, 0)
            =~= word_bytes(words, start, first));
    } else {
        let fewer = (second - 1) as nat;
        law_words_append(words, start, first, fewer);
        assert((first + second - 1) as nat == first + fewer);
        assert(word_bytes(words, start, first + second) =~= word_bytes(words, start, first)
            + word_bytes(words, start + first, second));
    }
}

/// A word gives four bytes, least significant first.
pub proof fn law_bytes_of_a_word(words: Map<nat, u32>, start: nat)
    ensures
        word_bytes(words, start, 1) == le_bytes(words[start] as nat, 4),
{
    assert(word_bytes(words, start, 0) =~= Seq::<u8>::empty());
    assert(word_bytes(words, start, 1) =~= le_bytes(words[start] as nat, 4));
}

/// What raw inputs lead to. The intent is drawn from the generator of the helper's
/// seed with the bytes of the first input folded in; the bytes of the second are the
/// hook data; the payload states them all.
pub proof fn law_payload_of_raw_inputs(helper: UsdcxMintHelperView, inputs: Seq<FuzzerValue>)
    ensures
        ({
            let payload = fuzzer_bytes(helper.mint_inputs(inputs)[0]);
            let seed = mixed_seed(helper.seed, input_bytes(inputs, 0));
            let intent = drawn_intent(seeded_words(seed), helper.domain);
            let carried = carried_hook_data(input_bytes(inputs, 1));
            &&& payload.len() == 240 + carried.len()
            &&& be_value(payload.subrange(0, 4)) == seeded_words(seed)[0]
            &&& be_value(payload.subrange(4, 8)) == 1
            &&& be_value(payload.subrange(8, 40)) == intent.amount
            &&& be_value(payload.subrange(40, 44)) == helper.domain
            &&& payload.subrange(44, 172) == word_bytes(seeded_words(seed), 3, 32)
            &&& be_value(payload.subrange(172, 204)) == intent.amount
            &&& payload.subrange(204, 236) == word_bytes(seeded_words(seed), 35, 8)
            &&& be_value(payload.subrange(236, 240)) == carried.len()
            &&& payload.skip(240) == carried
        }),
{
    let payload = helper.payload(inputs);
    let words = seeded_words(mixed_seed(helper.seed, input_bytes(inputs, 0)));
    law_bytes_round_trip(payload);
    lemma_payload_fields(words, helper.domain, input_bytes(inputs, 1));
}

/// The fields of the payload of an intent that is drawn.
proof fn lemma_payload_fields(words: Map<nat, u32>, domain: u32, hook_data: Seq<u8>)
    ensures
        ({
            let intent = drawn_intent(words, domain);
            let payload = intent.payload(hook_data);
            let carried = carried_hook_data(hook_data);
            &&& payload.len() == 240 + carried.len()
            &&& be_value(payload.subrange(0, 4)) == words[0]
            &&& be_value(payload.subrange(4, 8)) == 1
            &&& be_value(payload.subrange(8, 40)) == intent.amount
            &&& be_value(payload.subrange(40, 44)) == domain
            &&& payload.subrange(44, 172) == word_bytes(words, 3, 32)
            &&& be_value(payload.subrange(172, 204)) == intent.amount
            &&& payload.subrange(204, 236) == word_bytes(words, 35, 8)
            &&& be_value(payload.subrange(236, 240)) == carried.len()
            &&& payload.skip(240) == carried
        }),
{
    let intent = drawn_intent(words, domain);
    law_drawn_intents_are_well_formed(words, domain);
    law_payload_length(intent, hook_data);
    law_payload_decodes(intent, hook_data);
    law_words_append(words, 3, 8, 8);
    law_words_append(words, 3, 16, 8);
    law_words_append(words, 3, 24, 8);
    lemma_middle(intent.payload(hook_data));
}

/// Four fields side by side.
proof fn lemma_middle(payload: Seq<u8>)
    requires
        payload.len() >= 172,
    ensures
        payload.subrange(44, 172) == payload.subrange(44, 76) + payload.subrange(76, 108)
            + payload.subrange(108, 140) + payload.subrange(140, 172),
{
    assert(payload.subrange(44, 172) =~= payload.subrange(44, 76) + payload.subrange(76, 108)
        + payload.subrange(108, 140) + payload.subrange(140, 172));
}

/// The candidates for a key are the blocks of 32 bytes that a generator gives, one
/// after the other.
pub proof fn law_candidates_for_a_key(words: Map<nat, u32>, n: nat)
    ensures
        key_candidate(words, n).len() == 32,
        word_bytes(words, 0, 8 * n) + key_candidate(words, n) == word_bytes(words, 0, 8 * n + 8),
{
    lemma_word_bytes_len(words, 8 * n, 8);
    law_words_append(words, 0, 8 * n, 8);
}

/// Where some candidate is a key, one is the first.
proof fn lemma_some_key_is_first(words: Map<nat, u32>, n: nat)
    requires
        is_secret_key(key_candidate(words, n)),
    ensures
        exists|first: nat| first <= n && #[trigger] is_first_key(words, first),
    decreases n,
{
    if exists|earlier: nat| earlier < n && is_secret_key(#[trigger] key_candidate(words, earlier)) {
        let earlier = choose|earlier: nat|
            earlier < n && is_secret_key(#[trigger] key_candidate(words, earlier));
        lemma_some_key_is_first(words, earlier);
    } else {
        assert(is_first_key(words, n));
    }
}

/// The key of a seed is the first candidate of its generator that is a key, and a seed
/// has none only where no candidate is one.
pub proof fn law_key_of_a_seed(seed: u64)
    ensures
        derived_secret(seed) matches Some(secret) ==> is_secret_key(secret) && exists|n: nat|
            secret == #[trigger] key_candidate(seeded_words(seed), n) && forall|earlier: nat|
                earlier < n ==> !is_secret_key(
                    #[trigger] key_candidate(seeded_words(seed), earlier),
                ),
        derived_secret(seed) is None ==> forall|n: nat|
            n < 0xffff_ffff_ffff_ffff ==> !is_secret_key(
                #[trigger] key_candidate(seeded_words(seed), n),
            ),
{
    let words = seeded_words(seed);
    if derived_secret(seed) is Some {
        let n = choose|attempt: nat| attempt < KEY_ATTEMPTS && is_first_key(words, attempt);
        assert(is_first_key(words, n));
        assert(derived_secret(seed) == Some(key_candidate(words, n)));
    } else {
        assert forall|n: nat| n < 0xffff_ffff_ffff_ffff implies !is_secret_key(
            #[trigger] key_candidate(words, n),
        ) by {
            if is_secret_key(key_candidate(words, n)) {
                lemma_some_key_is_first(words, n);
            }
        }
    }
}

/// The raw key is the public key without its first byte.
pub proof fn law_raw_key(secret: Seq<u8>)
    requires
        secp256k1_public_key(secret).len() > 0,
    ensures
        seq![secp256k1_public_key(secret)[0]] + raw_public_key(secret) == secp256k1_public_key(
            secret,
        ),
{
    assert(seq![secp256k1_public_key(secret)[0]] + raw_public_key(secret) =~= secp256k1_public_key(
        secret,
    ));
}

/// The first eight arguments of `initialize` as bytes: the domain, the name with its
/// length twice, six, two empty strings, the administrator, and an empty list.
pub proof fn law_arguments_of_initialize(helper: UsdcxMintHelperView, admin: Seq<u8>)
    ensures
        ({
            let args = helper.initialize_args(admin);
            let name = seq!['U' as u8, 'S' as u8, 'D' as u8, 'C' as u8, 'x' as u8];
            &&& args.len() == 9
            &&& args[0] == le_bytes(helper.domain as nat, 4)
            &&& args[1] == seq![5u8] + name
            &&& args[2] == seq![5u8] + name
            &&& args[3] == seq![6u8]
            &&& args[4] == seq![0u8]
            &&& args[5] == seq![0u8]
            &&& args[6] == admin
            &&& args[7] == seq![0u8]
        }),
{
    let args = helper.initialize_args(admin);
    assert(uleb128(5) =~= seq![5u8]);
    assert(uleb128(0) =~= seq![0u8]);
    assert(le_bytes(0, 0) =~= Seq::<u8>::empty());
    assert(le_bytes(6, 1) =~= seq![6u8]);
    assert(args[4] =~= seq![0u8]);
    assert(args[5] =~= seq![0u8]);
    assert(args[7] =~= seq![0u8]) by {
        let none = Seq::<[u8; 32]>::empty();
        let parts = none.map_values(|item: [u8; 32]| item@);
        assert(parts.len() == 0);
        assert(parts.flatten() =~= Seq::<u8>::empty());
        assert(arrays_encoding(none) =~= seq![0u8]);
    }
}

} // verus!
