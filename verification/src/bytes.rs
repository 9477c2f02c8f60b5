//! Fixed-width little-endian integers and decimal digits.

use vstd::prelude::*;

verus! {

/// The `width` least significant bytes of `n`, least significant first.
pub open spec fn le_bytes(n: nat, width: nat) -> Seq<u8>
    decreases width,
{
    if width == 0 {
        Seq::empty()
    } else {
        seq![(n % 256) as u8] + le_bytes(n / 256, (width - 1) as nat)
    }
}

/// The number that `bytes` stand for, least significant byte first.
pub open spec fn le_value(bytes: Seq<u8>) -> nat
    decreases bytes.len(),
{
    if bytes.len() == 0 {
        0
    } else {
        bytes[0] as nat + 256 * le_value(bytes.drop_first())
    }
}

/// 256 to the power of `width`.
pub open spec fn le_limit(width: nat) -> nat
    decreases width,
{
    if width == 0 {
        1
    } else {
        256 * le_limit((width - 1) as nat)
    }
}

/// `le_bytes` yields exactly `width` bytes.
pub proof fn lemma_le_bytes_len(n: nat, width: nat)
    ensures
        le_bytes(n, width).len() == width,
    decreases width,
{
    if width > 0 {
        lemma_le_bytes_len(n / 256, (width - 1) as nat);
    }
}

/// Decoding what was encoded gives the number back, for every number that
/// fits the width.
pub proof fn lemma_le_round_trip(n: nat, width: nat)
    requires
        n < le_limit(width),
    ensures
        le_value(le_bytes(n, width)) == n,
    decreases width,
{
    lemma_le_bytes_len(n, width);
    if width > 0 {
        let rest = (width - 1) as nat;
        lemma_le_round_trip(n / 256, rest);
        assert(le_bytes(n, width).drop_first() == le_bytes(n / 256, rest));
    }
}

/// Append the `width` least significant bytes of `n`, least significant first.
pub fn push_le(out: &mut Vec<u8>, n: u64, width: usize)
    ensures
        final(out)@ == old(out)@ + le_bytes(n as nat, width as nat),
{
    let mut rest: u64 = n;
    let mut left: usize = width;
    while left > 0
        invariant
            out@ + le_bytes(rest as nat, left as nat) == old(out)@ + le_bytes(
                n as nat,
                width as nat,
            ),
        decreases left,
    {
        let ghost before = out@;
        out.push((rest % 256) as u8);
        proof {
            let tail = le_bytes(rest as nat / 256, (left - 1) as nat);
            assert(before + (seq![(rest % 256) as u8] + tail) == out@ + tail);
        }
        rest = rest / 256;
        left = left - 1;
    }
    assert(out@ + le_bytes(rest as nat, 0) == out@);
}

proof fn lemma_le_value_bound(bytes: Seq<u8>)
    ensures
        le_value(bytes) < le_limit(bytes.len()),
    decreases bytes.len(),
{
    if bytes.len() > 0 {
        lemma_le_value_bound(bytes.drop_first());
    }
}

proof fn lemma_le_limit_8()
    ensures
        le_limit(8) == 0x1_0000_0000_0000_0000,
        le_limit(4) == 0x1_0000_0000,
        le_limit(2) == 0x1_0000,
{
    reveal_with_fuel(le_limit, 9);
}

/// Read a little-endian number of at most eight bytes.
pub fn read_le(bytes: &[u8]) -> (n: u64)
    requires
        bytes@.len() <= 8,
    ensures
        n as nat == le_value(bytes@),
        bytes@.len() <= 4 ==> n <= 0xffff_ffff,
        bytes@.len() <= 2 ==> n <= 0xffff,
{
    let mut n: u64 = 0;
    let mut at: usize = bytes.len();
    proof {
        lemma_le_limit_8();
    }
    assert(bytes@.skip(at as int) == Seq::<u8>::empty());
    while at > 0
        invariant
            at <= bytes@.len() <= 8,
            n as nat == le_value(bytes@.skip(at as int)),
        decreases at,
    {
        let ghost tail = bytes@.skip(at - 1);
        proof {
            assert(tail.drop_first() == bytes@.skip(at as int));
            lemma_le_value_bound(tail);
            lemma_le_limit_monotonic(tail.len(), 8);
            lemma_le_limit_8();
        }
        at = at - 1;
        n = bytes[at] as u64 + 256 * n;
    }
    proof {
        assert(bytes@.skip(0) == bytes@);
        lemma_le_value_bound(bytes@);
        lemma_le_limit_8();
        if bytes@.len() <= 4 {
            lemma_le_limit_monotonic(bytes@.len(), 4);
        }
        if bytes@.len() <= 2 {
            lemma_le_limit_monotonic(bytes@.len(), 2);
        }
    }
    n
}

proof fn lemma_le_limit_monotonic(a: nat, b: nat)
    requires
        a <= b,
    ensures
        0 < le_limit(a) <= le_limit(b),
    decreases b,
{
    if b > 0 {
        if a == b {
            lemma_le_limit_monotonic((a - 1) as nat, (b - 1) as nat);
        } else {
            lemma_le_limit_monotonic(a, (b - 1) as nat);
        }
    }
}

/// `len` zero bytes.
pub open spec fn zeros(len: nat) -> Seq<u8> {
    Seq::new(len, |i: int| 0u8)
}

/// The decimal digits of `n`, as character codes, without leading zeros.
pub open spec fn decimal_digits(n: nat) -> Seq<u8>
    decreases n,
{
    if n < 10 {
        seq![(48 + n) as u8]
    } else {
        decimal_digits(n / 10).push((48 + n % 10) as u8)
    }
}

/// Write a number in decimal.
pub fn decimal(n: u32) -> (digits: Vec<u8>)
    ensures
        digits@ == decimal_digits(n as nat),
    decreases n,
{
    if n < 10 {
        let mut digits: Vec<u8> = Vec::new();
        digits.push(48 + n as u8);
        assert(digits@ == decimal_digits(n as nat));
        digits
    } else {
        let mut digits = decimal(n / 10);
        digits.push(48 + (n % 10) as u8);
        digits
    }
}

/// Whether two byte strings are equal.
pub fn same_bytes(a: &[u8], b: &[u8]) -> (same: bool)
    ensures
        same == (a@ == b@),
{
    if a.len() != b.len() {
        return false;
    }
    for i in 0..a.len()
        invariant
            a.len() == b.len(),
            forall|j: int| 0 <= j < i ==> a@[j] == b@[j],
    {
        if a[i] != b[i] {
            return false;
        }
    }
    assert(a@ == b@);
    true
}

/// Append a byte string.
pub fn push_all(out: &mut Vec<u8>, data: &[u8])
    ensures
        final(out)@ == old(out)@ + data@,
{
    out.extend_from_slice(data);
    assert(out@ == old(out)@ + data@);
}

} // verus!
