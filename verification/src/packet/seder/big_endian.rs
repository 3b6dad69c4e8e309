//! Big-endian numbers as mathematics: what a run of bytes denotes, and the
//! bytes that denote a number.

use vstd::prelude::*;

verus! {

/// 256 to the power `n`.
pub open spec fn pow256(n: nat) -> nat
    decreases n,
{
    if n == 0 {
        1
    } else {
        256 * pow256((n - 1) as nat)
    }
}

/// The number that `bytes` denotes when the first byte is the most significant.
pub open spec fn be_value(bytes: Seq<u8>) -> nat
    decreases bytes.len(),
{
    if bytes.len() == 0 {
        0
    } else {
        be_value(bytes.drop_last()) * 256 + bytes.last() as nat
    }
}

/// The `width` low-order base-256 digits of `value`, most significant first.
pub open spec fn be_bytes(value: nat, width: nat) -> Seq<u8>
    decreases width,
{
    if width == 0 {
        Seq::empty()
    } else {
        be_bytes(value / 256, (width - 1) as nat).push((value % 256) as u8)
    }
}

/// The powers of 256 that bound the fixed-width integers.
pub proof fn lemma_pow256_values()
    ensures
        pow256(0) == 1,
        pow256(1) == 0x100,
        pow256(2) == 0x1_0000,
        pow256(4) == 0x1_0000_0000,
        pow256(16) == 0x1_0000_0000_0000_0000_0000_0000_0000_0000,
{
    reveal_with_fuel(pow256, 17);
}

/// A run of `n` bytes denotes a number below 256^n.
pub proof fn lemma_be_value_bound(bytes: Seq<u8>)
    ensures
        be_value(bytes) < pow256(bytes.len()),
    decreases bytes.len(),
{
    if bytes.len() > 0 {
        lemma_be_value_bound(bytes.drop_last());
    }
}

/// `be_bytes` yields exactly `width` bytes.
pub proof fn lemma_be_bytes_len(value: nat, width: nat)
    ensures
        be_bytes(value, width).len() == width,
    decreases width,
{
    if width > 0 {
        lemma_be_bytes_len(value / 256, (width - 1) as nat);
    }
}

/// Reading back the bytes of a number that fits the width gives the number.
pub proof fn lemma_be_value_of_bytes(value: nat, width: nat)
    requires
        value < pow256(width),
    ensures
        be_value(be_bytes(value, width)) == value,
    decreases width,
{
    if width > 0 {
        let rest = be_bytes(value / 256, (width - 1) as nat);
        lemma_be_value_of_bytes(value / 256, (width - 1) as nat);
        assert(be_bytes(value, width).drop_last() =~= rest);
    }
}

/// Writing the number that a run of bytes denotes gives the bytes back.
pub proof fn lemma_be_bytes_of_value(bytes: Seq<u8>)
    ensures
        be_bytes(be_value(bytes), bytes.len()) == bytes,
    decreases bytes.len(),
{
    if bytes.len() > 0 {
        let head = bytes.drop_last();
        lemma_be_bytes_of_value(head);
        assert(be_value(bytes) / 256 == be_value(head));
        assert(be_value(bytes) % 256 == bytes.last() as nat);
        assert(be_bytes(be_value(bytes), bytes.len()) =~= bytes);
    } else {
        assert(be_bytes(be_value(bytes), bytes.len()) =~= bytes);
    }
}

/// Two bytes denote `256 * first + second`.
pub proof fn lemma_be_value_2(bytes: Seq<u8>)
    requires
        bytes.len() == 2,
    ensures
        be_value(bytes) == bytes[0] as nat * 256 + bytes[1] as nat,
{
    reveal_with_fuel(be_value, 3);
    assert(bytes.drop_last().drop_last().len() == 0);
}

/// The number that up to sixteen bytes denote, most significant byte first.
pub(crate) fn be_fold(bytes: &[u8]) -> (value: u128)
    requires
        bytes@.len() <= 16,
    ensures
        value == be_value(bytes@),
{
    let mut value: u128 = 0;
    let mut i: usize = 0;
    while i < bytes.len()
        invariant
            i <= bytes@.len() <= 16,
            value == be_value(bytes@.subrange(0, i as int)),
        decreases bytes@.len() - i,
    {
        proof {
            let done = bytes@.subrange(0, i as int);
            let next = bytes@.subrange(0, i + 1);
            lemma_be_value_bound(done);
            lemma_pow256_values();
            lemma_pow256_monotonic(done.len(), 15);
            reveal_with_fuel(pow256, 2);
            assert(next.drop_last() =~= done);
        }
        value = value * 256 + bytes[i] as u128;
        i += 1;
    }
    assert(bytes@.subrange(0, i as int) =~= bytes@);
    value
}

/// The `width` low-order base-256 digits of `value`, most significant first.
pub fn be_encode(value: u128, width: usize) -> (bytes: Vec<u8>)
    ensures
        bytes@ == be_bytes(value as nat, width as nat),
    decreases width,
{
    if width == 0 {
        Vec::new()
    } else {
        let mut bytes = be_encode(value / 256, width - 1);
        bytes.push((value % 256) as u8);
        bytes
    }
}

/// 256^a is at most 256^b when a is at most b.
pub proof fn lemma_pow256_monotonic(a: nat, b: nat)
    requires
        a <= b,
    ensures
        pow256(a) <= pow256(b),
    decreases b,
{
    if a < b {
        lemma_pow256_monotonic(a, (b - 1) as nat);
    }
}

} // verus!
