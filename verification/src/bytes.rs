//! Fixed-width encodings of natural numbers.
use vstd::arithmetic::power::{lemma_pow0, pow};
use vstd::prelude::*;

verus! {

/// The `width` lowest base-256 digits of `value`, most significant first.
pub open spec fn be_bytes(value: nat, width: nat) -> Seq<u8>
    decreases width,
{
    if width == 0 {
        Seq::empty()
    } else {
        be_bytes(value / 256, (width - 1) as nat).push((value % 256) as u8)
    }
}

/// The `width` lowest base-256 digits of `value`, least significant first.
pub open spec fn le_bytes(value: nat, width: nat) -> Seq<u8>
    decreases width,
{
    if width == 0 {
        Seq::empty()
    } else {
        seq![(value % 256) as u8] + le_bytes(value / 256, (width - 1) as nat)
    }
}

/// The number that `bytes` spell out in base 256, most significant digit first.
pub open spec fn be_value(bytes: Seq<u8>) -> nat
    decreases bytes.len(),
{
    if bytes.len() == 0 {
        0
    } else {
        be_value(bytes.drop_last()) * 256 + bytes.last() as nat
    }
}

/// An encoding of `width` digits has `width` bytes.
pub proof fn lemma_be_bytes_len(value: nat, width: nat)
    ensures
        be_bytes(value, width).len() == width,
    decreases width,
{
    if width > 0 {
        lemma_be_bytes_len(value / 256, (width - 1) as nat);
    }
}

/// An encoding of `width` digits has `width` bytes.
pub proof fn lemma_le_bytes_len(value: nat, width: nat)
    ensures
        le_bytes(value, width).len() == width,
    decreases width,
{
    if width > 0 {
        lemma_le_bytes_len(value / 256, (width - 1) as nat);
    }
}

/// Decoding a big-endian encoding gives the number back when it fits the width.
pub proof fn lemma_be_round_trip(value: nat, width: nat)
    requires
        value < pow(256, width),
    ensures
        be_value(be_bytes(value, width)) == value,
    decreases width,
{
    lemma_be_bytes_len(value, width);
    if width == 0 {
        lemma_pow0(256);
    } else {
        let rest = (width - 1) as nat;
        assert(pow(256, width) == 256 * pow(256, rest)) by {
            reveal(pow);
        }
        assert(value / 256 < pow(256, rest)) by (nonlinear_arith)
            requires
                value < 256 * pow(256, rest),
        ;
        lemma_be_round_trip(value / 256, rest);
        assert(be_bytes(value, width).drop_last() =~= be_bytes(value / 256, rest));
    }
}

/// The last byte of a big-endian encoding is the remainder by 256, and the bytes
/// before it encode the quotient.
pub proof fn law_big_endian(value: nat, width: nat)
    requires
        width > 0,
    ensures
        be_bytes(value, width).len() == width,
        be_bytes(value, width)[width - 1] == value % 256,
        be_bytes(value, width).take(width - 1) == be_bytes(value / 256, (width - 1) as nat),
{
    lemma_be_bytes_len(value, width);
    lemma_be_bytes_len(value / 256, (width - 1) as nat);
    assert(be_bytes(value, width).take(width - 1) =~= be_bytes(value / 256, (width - 1) as nat));
}

/// One more byte on the right counts once, and everything before it 256 times.
pub proof fn law_big_endian_value(bytes: Seq<u8>, last: u8)
    ensures
        be_value(Seq::empty()) == 0,
        be_value(bytes.push(last)) == 256 * be_value(bytes) + last,
{
    assert(bytes.push(last).drop_last() =~= bytes);
}

/// The two orders of bytes mirror each other.
pub proof fn law_orders_mirror_each_other(value: nat, width: nat)
    ensures
        le_bytes(value, width).len() == width,
        forall|i: int|
            0 <= i < width ==> #[trigger] le_bytes(value, width)[i] == be_bytes(value, width)[width
                - 1 - i],
    decreases width,
{
    lemma_le_bytes_len(value, width);
    lemma_be_bytes_len(value, width);
    if width > 0 {
        let rest = (width - 1) as nat;
        law_orders_mirror_each_other(value / 256, rest);
        lemma_be_bytes_len(value / 256, rest);
        assert forall|i: int| 0 <= i < width implies #[trigger] le_bytes(value, width)[i]
            == be_bytes(value, width)[width - 1 - i] by {
            if i > 0 {
                assert(le_bytes(value, width)[i] == le_bytes(value / 256, rest)[i - 1]);
                assert(be_bytes(value, width)[width - 1 - i] == be_bytes(value / 256, rest)[rest - 1
                    - (i - 1)]);
            }
        }
    }
}

/// Appends the big-endian encoding of `value` in `width` bytes.
pub fn append_be(out: &mut Vec<u8>, value: u64, width: usize)
    ensures
        final(out)@ == old(out)@ + be_bytes(value as nat, width as nat),
    decreases width,
{
    if width > 0 {
        append_be(out, value / 256, width - 1);
        out.push((value % 256) as u8);
    }
    assert(out@ =~= old(out)@ + be_bytes(value as nat, width as nat));
}

/// Appends a run of bytes.
pub fn append_bytes(out: &mut Vec<u8>, bytes: &[u8])
    ensures
        final(out)@ == old(out)@ + bytes@,
{
    let mut i: usize = 0;
    while i < bytes.len()
        invariant
            i <= bytes.len(),
            out@ == old(out)@ + bytes@.take(i as int),
        decreases bytes.len() - i,
    {
        out.push(bytes[i]);
        i += 1;
        assert(out@ =~= old(out)@ + bytes@.take(i as int));
    }
    assert(bytes@.take(i as int) =~= bytes@);
}

/// Copies a run of bytes.
pub fn copy_bytes(bytes: &[u8]) -> (copy: Vec<u8>)
    ensures
        copy@ == bytes@,
{
    let mut copy: Vec<u8> = Vec::new();
    append_bytes(&mut copy, bytes);
    assert(copy@ =~= bytes@);
    copy
}

} // verus!
