//! Fingerprinting of a link within its scope.
//!
//! A tracked link is keyed by a deterministic, non-cryptographic hash of the
//! bytes `link ++ "-" ++ decimal(scope)`, rendered as lowercase hexadecimal.
//! The hash is 64-bit FNV-1a. A second key, `decimal(scope) ++ "-" ++
//! decimal(message)`, indexes the fingerprint by the originating message so
//! that a deletion event can find the record to remove.

use vstd::prelude::*;

use crate::bytes::push_all;

verus! {

/// FNV-1a 64-bit offset basis.
pub const FNV_OFFSET: u64 = 0xcbf29ce484222325;

/// FNV-1a 64-bit prime.
pub const FNV_PRIME: u64 = 0x100000001b3;

/// One FNV-1a round: fold byte `b` into the running hash `h`.
pub open spec fn fnv1a_step(h: u64, b: u8) -> u64 {
    vstd::wrapping::u64_specs::wrapping_mul(h ^ (b as u64), FNV_PRIME)
}

/// FNV-1a hash of the first `n` bytes of `bytes`.
pub open spec fn fnv1a_prefix(bytes: Seq<u8>, n: int) -> u64
    decreases n,
{
    if n <= 0 {
        FNV_OFFSET
    } else {
        fnv1a_step(fnv1a_prefix(bytes, n - 1), bytes[n - 1])
    }
}

/// FNV-1a hash of a whole byte sequence.
pub open spec fn fnv1a(bytes: Seq<u8>) -> u64 {
    fnv1a_prefix(bytes, bytes.len() as int)
}

/// Hash a byte vector with 64-bit FNV-1a.
pub fn fnv1a_hash(bytes: &Vec<u8>) -> (r: u64)
    ensures
        r == fnv1a(bytes@),
{
    let mut h: u64 = FNV_OFFSET;
    let mut i: usize = 0;
    while i < bytes.len()
        invariant
            i <= bytes.len(),
            h == fnv1a_prefix(bytes@, i as int),
        decreases bytes.len() - i,
    {
        h = (h ^ (bytes[i] as u64)).wrapping_mul(FNV_PRIME);
        i = i + 1;
    }
    h
}

/// The lowercase hexadecimal digit for `d`.
pub open spec fn hex_digit(d: u64) -> u8 {
    if d < 10 {
        (0x30 + d) as u8
    } else {
        (0x57 + d) as u8
    }
}

/// Lowercase hexadecimal rendering of `n`, most significant digit first,
/// without leading zeros (a lone `0` for zero).
pub open spec fn hex_seq(n: u64) -> Seq<u8>
    decreases n,
{
    if n < 16 {
        seq![hex_digit(n)]
    } else {
        hex_seq(n / 16).push(hex_digit(n % 16))
    }
}

/// The decimal digit for `d`.
pub open spec fn dec_digit(d: u64) -> u8 {
    (0x30 + d) as u8
}

/// Decimal rendering of `n`, most significant digit first, without leading
/// zeros (a lone `0` for zero).
pub open spec fn dec_seq(n: u64) -> Seq<u8>
    decreases n,
{
    if n < 10 {
        seq![dec_digit(n)]
    } else {
        dec_seq(n / 10).push(dec_digit(n % 10))
    }
}

/// Render `n` in lowercase hexadecimal.
pub fn hex_bytes(n: u64) -> (r: Vec<u8>)
    ensures
        r@ == hex_seq(n),
    decreases n,
{
    if n < 16 {
        let d: u8 = if n < 10 {
            (0x30 + n) as u8
        } else {
            (0x57 + n) as u8
        };
        let mut v: Vec<u8> = Vec::new();
        v.push(d);
        proof {
            assert(v@ =~= seq![hex_digit(n)]);
        }
        v
    } else {
        let mut v = hex_bytes(n / 16);
        let m: u64 = n % 16;
        let d: u8 = if m < 10 {
            (0x30 + m) as u8
        } else {
            (0x57 + m) as u8
        };
        v.push(d);
        v
    }
}

/// Render `n` in decimal.
pub fn dec_bytes(n: u64) -> (r: Vec<u8>)
    ensures
        r@ == dec_seq(n),
    decreases n,
{
    if n < 10 {
        let d: u8 = (0x30 + n) as u8;
        let mut v: Vec<u8> = Vec::new();
        v.push(d);
        proof {
            assert(v@ =~= seq![dec_digit(n)]);
        }
        v
    } else {
        let mut v = dec_bytes(n / 10);
        let d: u8 = (0x30 + (n % 10)) as u8;
        v.push(d);
        v
    }
}

/// The bytes whose hash fingerprints `link` within `scope`:
/// `link ++ "-" ++ decimal(scope)`.
pub open spec fn fingerprint_input(link: Seq<u8>, scope: u64) -> Seq<u8> {
    link + seq![0x2du8] + dec_seq(scope)
}

/// The fingerprint key for `link` within `scope`: the FNV-1a hash of
/// `fingerprint_input`, in lowercase hexadecimal.
pub open spec fn fingerprint_spec(link: Seq<u8>, scope: u64) -> Seq<u8> {
    hex_seq(fnv1a(fingerprint_input(link, scope)))
}

/// Compute the cache key under which a sighting of `link` in `scope` is
/// recorded.
pub fn fingerprint_key(link: &Vec<u8>, scope: u64) -> (r: Vec<u8>)
    ensures
        r@ == fingerprint_spec(link@, scope),
{
    let mut input: Vec<u8> = Vec::new();
    push_all(&mut input, link);
    input.push(0x2du8);
    let scope_digits = dec_bytes(scope);
    push_all(&mut input, &scope_digits);
    proof {
        assert(input@ =~= fingerprint_input(link@, scope));
    }
    let h = fnv1a_hash(&input);
    hex_bytes(h)
}

/// The reverse-lookup key for the message that first posted a link:
/// `decimal(scope) ++ "-" ++ decimal(message)`.
pub open spec fn index_key_spec(scope: u64, message: u64) -> Seq<u8> {
    dec_seq(scope) + seq![0x2du8] + dec_seq(message)
}

/// Compute the index key mapping an originating message to the fingerprint it
/// recorded.
pub fn index_key(scope: u64, message: u64) -> (r: Vec<u8>)
    ensures
        r@ == index_key_spec(scope, message),
{
    let mut key = dec_bytes(scope);
    key.push(0x2du8);
    let message_digits = dec_bytes(message);
    push_all(&mut key, &message_digits);
    proof {
        assert(key@ =~= index_key_spec(scope, message));
    }
    key
}

/// Every byte of a hexadecimal rendering is a decimal digit or a lowercase
/// letter `a`-`f`; in particular none is the dash byte `0x2d`.
pub proof fn lemma_hex_seq_no_dash(n: u64)
    ensures
        forall|i: int| 0 <= i < hex_seq(n).len() ==> hex_seq(n)[i] != 0x2du8,
    decreases n,
{
    if n < 16 {
    } else {
        lemma_hex_seq_no_dash(n / 16);
        assert forall|i: int| 0 <= i < hex_seq(n).len() implies hex_seq(n)[i] != 0x2du8 by {
            if i < hex_seq(n).len() - 1 {
                assert(hex_seq(n)[i] == hex_seq(n / 16)[i]);
            } else {
                assert(hex_seq(n)[i] == hex_digit(n % 16));
            }
        }
    }
}

/// A fingerprint key is pure hexadecimal while an index key holds a dash, so
/// the two keys a record writes to are always distinct.
pub proof fn lemma_fingerprint_key_ne_index_key(
    link: Seq<u8>,
    scope: u64,
    idx_scope: u64,
    message: u64,
)
    ensures
        fingerprint_spec(link, scope) != index_key_spec(idx_scope, message),
{
    let fp = fingerprint_spec(link, scope);
    let idx = index_key_spec(idx_scope, message);
    let d = dec_seq(idx_scope).len() as int;
    assert(idx[d] == 0x2du8);
    lemma_hex_seq_no_dash(fnv1a(fingerprint_input(link, scope)));
    if fp == idx {
        assert(fp[d] == 0x2du8);
        assert(false);
    }
}

} // verus!
