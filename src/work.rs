//! The work function: the wrapping byte sum of a pre-hash followed by the
//! seal bytes of a nonce.
use vstd::prelude::*;
use crate::seal::{seal_bytes, Nonce};

verus! {

/// Size of the work domain, `2^64`.
pub open spec fn work_modulus() -> int {
    0x1_0000_0000_0000_0000
}

/// The sum of all bytes of `s`, as an unbounded number.
pub open spec fn byte_sum(s: Seq<u8>) -> nat
    decreases s.len(),
{
    if s.len() == 0 {
        0
    } else {
        byte_sum(s.drop_last()) + s.last() as nat
    }
}

/// The work value of `nonce` over `pre_hash`: the byte sum of the pre-hash
/// followed by the nonce's seal bytes, modulo `2^64`.
pub open spec fn work(pre_hash: Seq<u8>, nonce: u64) -> u64 {
    (byte_sum(pre_hash + seal_bytes(nonce)) as int % work_modulus()) as u64
}

/// The byte sum of a concatenation is the sum of the byte sums.
pub proof fn lemma_byte_sum_concat(a: Seq<u8>, b: Seq<u8>)
    ensures
        byte_sum(a + b) == byte_sum(a) + byte_sum(b),
    decreases b.len(),
{
    if b.len() == 0 {
        assert(a + b =~= a);
    } else {
        lemma_byte_sum_concat(a, b.drop_last());
        assert((a + b).drop_last() =~= a + b.drop_last());
    }
}

/// Adds every byte of `bytes` to `acc`, wrapping at `2^64`.
fn add_bytes(acc: u64, bytes: &[u8]) -> (r: u64)
    ensures
        r == (acc + byte_sum(bytes@)) % work_modulus(),
{
    let mut sum: u64 = acc;
    let mut i: usize = 0;
    while i < bytes.len()
        invariant
            i <= bytes@.len(),
            sum == (acc + byte_sum(bytes@.subrange(0, i as int))) % work_modulus(),
        decreases bytes@.len() - i,
    {
        let ghost prefix = bytes@.subrange(0, i as int);
        let ghost next = bytes@.subrange(0, i + 1);
        assert(next.drop_last() =~= prefix);
        let b = bytes[i];
        proof {
            vstd::arithmetic::div_mod::lemma_add_mod_noop(
                acc + byte_sum(prefix),
                b as int,
                work_modulus(),
            );
            vstd::arithmetic::div_mod::lemma_small_mod(b as nat, work_modulus() as nat);
            vstd::arithmetic::div_mod::lemma_mod_twice(acc + byte_sum(prefix), work_modulus());
        }
        sum = sum.wrapping_add(b as u64);
        i = i + 1;
    }
    assert(bytes@.subrange(0, bytes@.len() as int) =~= bytes@);
    sum
}

/// The work value of `nonce` over `pre_hash`; the whole of both inputs is
/// summed, so the result depends on nothing else.
pub fn checksum(pre_hash: &[u8], nonce: u64) -> (r: u64)
    ensures
        r == work(pre_hash@, nonce),
{
    let seal = Nonce(nonce).to_seal();
    let head = add_bytes(0, pre_hash);
    let r = add_bytes(head, seal.as_slice());
    proof {
        lemma_byte_sum_concat(pre_hash@, seal_bytes(nonce));
        vstd::arithmetic::div_mod::lemma_add_mod_noop(
            byte_sum(pre_hash@) as int,
            byte_sum(seal@) as int,
            work_modulus(),
        );
        vstd::arithmetic::div_mod::lemma_mod_twice(byte_sum(seal@) as int, work_modulus());
    }
    r
}

} // verus!
