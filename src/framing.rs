//! The byte layout of the transfer channel: the big-endian length prefix of
//! the metadata header and the one-byte handshake.

use vstd::prelude::*;

verus! {

/// Width of the length prefix, in bytes.
pub const LENGTH_PREFIX_LEN: usize = 8;

/// The handshake byte that accepts a batch.
pub const ACCEPT_BYTE: u8 = 1;

/// The handshake byte that rejects a batch.
pub const REJECT_BYTE: u8 = 0;

/// `256` to the power `k`.
pub open spec fn pow256(k: nat) -> nat
    decreases k,
{
    if k == 0 {
        1
    } else {
        256 * pow256((k - 1) as nat)
    }
}

/// The number that the bytes `s` write, most significant byte first.
pub open spec fn be_value(s: Seq<u8>) -> nat
    decreases s.len(),
{
    if s.len() == 0 {
        0
    } else {
        be_value(s.drop_last()) * 256 + s.last() as nat
    }
}

/// The `k` low bytes of `n`, most significant first.
pub open spec fn be_bytes(n: nat, k: nat) -> Seq<u8>
    decreases k,
{
    if k == 0 {
        Seq::empty()
    } else {
        be_bytes(n / 256, (k - 1) as nat).push((n % 256) as u8)
    }
}

proof fn lemma_pow256_bounds(k: nat)
    requires
        k <= 8,
    ensures
        k <= 7 ==> pow256(k) <= pow256(7),
        pow256(7) == 0x100000000000000,
        pow256(8) == 0x10000000000000000,
    decreases k,
{
    reveal_with_fuel(pow256, 9);
    if k > 0 && k <= 7 {
        lemma_pow256_bounds((k - 1) as nat);
    }
}

/// Bytes written by `be_bytes` read back as the number, when it fits.
pub proof fn lemma_be_round_trip(n: nat, k: nat)
    requires
        n < pow256(k),
    ensures
        be_bytes(n, k).len() == k,
        be_value(be_bytes(n, k)) == n,
    decreases k,
{
    if k > 0 {
        let p = pow256((k - 1) as nat);
        assert(n / 256 < p) by (nonlinear_arith)
            requires
                n < 256 * p,
        ;
        lemma_be_round_trip(n / 256, (k - 1) as nat);
        let s = be_bytes(n, k);
        assert(s.drop_last() == be_bytes(n / 256, (k - 1) as nat));
        assert(n == (n / 256) * 256 + n % 256) by (nonlinear_arith);
    }
}

fn be_bytes_of(n: u64, k: usize) -> (r: Vec<u8>)
    ensures
        r@ == be_bytes(n as nat, k as nat),
    decreases k,
{
    if k == 0 {
        Vec::new()
    } else {
        let mut r = be_bytes_of(n / 256, k - 1);
        r.push((n % 256) as u8);
        r
    }
}

/// The metadata header: the length of `metadata` as eight big-endian bytes,
/// then `metadata` itself.
pub fn frame_header(metadata: &Vec<u8>) -> (r: Vec<u8>)
    ensures
        r@ == be_bytes(metadata@.len() as nat, 8) + metadata@,
{
    let mut r = be_bytes_of(metadata.len() as u64, LENGTH_PREFIX_LEN);
    let ghost prefix = r@;
    let mut i: usize = 0;
    while i < metadata.len()
        invariant
            i <= metadata@.len(),
            r@ == prefix + metadata@.subrange(0, i as int),
        decreases metadata@.len() - i,
    {
        r.push(metadata[i]);
        i = i + 1;
        assert(r@ =~= prefix + metadata@.subrange(0, i as int));
    }
    assert(metadata@.subrange(0, i as int) =~= metadata@);
    r
}

/// The length that a header's eight-byte prefix declares.
pub fn decode_length(prefix: &[u8; 8]) -> (r: u64)
    ensures
        r as nat == be_value(prefix@),
{
    let mut acc: u64 = 0;
    let mut i: usize = 0;
    while i < LENGTH_PREFIX_LEN
        invariant
            i <= 8,
            prefix@.len() == 8,
            acc as nat == be_value(prefix@.subrange(0, i as int)),
            acc < pow256(i as nat),
        decreases 8 - i,
    {
        proof {
            lemma_pow256_bounds(i as nat);
            lemma_pow256_bounds((i + 1) as nat);
            assert(pow256((i + 1) as nat) == 256 * pow256(i as nat));
        }
        let b = prefix[i];
        assert(acc * 256 + b < 256 * pow256(i as nat)) by (nonlinear_arith)
            requires
                acc < pow256(i as nat),
                b < 256,
        ;
        acc = acc * 256 + b as u64;
        proof {
            let s = prefix@.subrange(0, i + 1);
            assert(s.drop_last() =~= prefix@.subrange(0, i as int));
        }
        i = i + 1;
    }
    assert(prefix@.subrange(0, 8) =~= prefix@);
    acc
}

/// The byte with which the receiver answers a batch offer: accept only on an
/// explicit yes; a decision that never came counts as a no.
pub fn decision_byte(decision: Option<bool>) -> (r: u8)
    ensures
        r == (if decision == Some(true) { ACCEPT_BYTE } else { REJECT_BYTE }),
{
    match decision {
        Some(true) => ACCEPT_BYTE,
        _ => REJECT_BYTE,
    }
}

/// A length written into a header reads back unchanged.
pub proof fn lemma_length_prefix_round_trip(n: u64)
    ensures
        be_bytes(n as nat, 8).len() == 8,
        be_value(be_bytes(n as nat, 8)) == n,
{
    lemma_pow256_bounds(8);
    lemma_be_round_trip(n as nat, 8);
}

} // verus!
