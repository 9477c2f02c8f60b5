//! SHA-256 hashing and hexadecimal digests.

use sha2::{Digest, Sha256};
use vstd::prelude::*;

verus! {

/// The hasher of the `sha2` crate.
#[verifier::external_type_specification]
#[verifier::external_body]
pub struct ExSha256(Sha256);

/// The bytes that a hasher has taken in so far.
pub uninterp spec fn absorbed(hasher: Sha256) -> Seq<u8>;

/// The SHA-256 digest of a byte string.
pub uninterp spec fn sha256_of(data: Seq<u8>) -> Seq<u8>;

/// How many bytes a hasher can take in: the length in bits is kept in 64 bits.
pub open spec fn sha256_capacity() -> nat {
    0x1fff_ffff_ffff_ffff
}

/// `Sha256::new`: a hasher that has taken in nothing.
#[verifier::external_body]
pub(crate) fn new_hasher() -> (hasher: Sha256)
    ensures
        absorbed(hasher) == Seq::<u8>::empty(),
{
    Sha256::new()
}

/// `Sha256::update`: the hasher has taken in `data` after what it had taken in
/// before.
#[verifier::external_body]
pub(crate) fn absorb(hasher: &mut Sha256, data: &[u8])
    requires
        absorbed(*old(hasher)).len() + data@.len() <= sha256_capacity(),
    ensures
        absorbed(*final(hasher)) == absorbed(*old(hasher)) + data@,
{
    hasher.update(data);
}

/// `Sha256::finalize`: the 32-byte digest of everything that the hasher has
/// taken in.
#[verifier::external_body]
pub(crate) fn finish(hasher: Sha256) -> (digest: [u8; 32])
    requires
        absorbed(hasher).len() <= sha256_capacity(),
    ensures
        digest@ == sha256_of(absorbed(hasher)),
{
    hasher.finalize().into()
}

/// The SHA-256 digest of `data`.
pub fn sha256(data: &[u8]) -> (digest: [u8; 32])
    requires
        data@.len() <= sha256_capacity(),
    ensures
        digest@ == sha256_of(data@),
{
    let mut hasher = new_hasher();
    absorb(&mut hasher, data);
    assert(absorbed(hasher) == data@);
    finish(hasher)
}

/// The lower-case hexadecimal digit of a value below 16.
pub open spec fn hex_digit(n: int) -> char {
    if n < 10 {
        (48 + n) as char
    } else {
        (87 + n) as char
    }
}

/// Two lower-case hexadecimal digits for each byte.
pub open spec fn hex(bytes: Seq<u8>) -> Seq<char> {
    Seq::new(
        2 * bytes.len(),
        |i: int|
            if i % 2 == 0 {
                hex_digit(bytes[i / 2] as int / 16)
            } else {
                hex_digit(bytes[i / 2] as int % 16)
            },
    )
}

fn hex_char(n: u8) -> (c: char)
    requires
        n < 16,
    ensures
        c == hex_digit(n as int),
{
    if n < 10 {
        (48 + n) as char
    } else {
        (87 + n) as char
    }
}

/// Write bytes in lower-case hexadecimal.
pub fn hex_string(bytes: &[u8]) -> (s: String)
    ensures
        s@ == hex(bytes@),
{
    let mut s = String::new();
    for i in 0..bytes.len()
        invariant
            s@ == hex(bytes@.take(i as int)),
    {
        let b = bytes[i];
        s.push(hex_char(b / 16));
        s.push(hex_char(b % 16));
        assert(s@ == hex(bytes@.take(i + 1)));
    }
    assert(bytes@.take(bytes.len() as int) == bytes@);
    s
}

} // verus!
