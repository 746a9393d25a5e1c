//! Properties that relate the operations of the algorithm to one another.
use vstd::prelude::*;
use crate::difficulty::{threshold, work_max};
use crate::pow::{first_passing, in_window, mined, verifies, window_end, window_start, lemma_first_passing};
use crate::seal::{SEAL_LEN, le_bytes, seal_bytes, seal_nonce, lemma_seal_round_trip};
use crate::work::{byte_sum, work, work_modulus, lemma_byte_sum_concat};

verus! {

/// A seal that mining yields is accepted by verification on the same
/// pre-hash and difficulty.
pub proof fn lemma_mined_seal_verifies(pre_hash: Seq<u8>, d: nat, round: u32)
    ensures
        mined(pre_hash, d, round) matches Some(s) ==> verifies(pre_hash, s, d),
{
    let t = threshold(d);
    lemma_first_passing(pre_hash, t, window_start(round), window_end(round));
    if let Some(n) = first_passing(pre_hash, t, window_start(round), window_end(round)) {
        lemma_seal_round_trip(n);
    }
}

/// The windows of two successive rounds never share a nonce, and the window
/// of a round ends before that of the next round begins.
pub proof fn lemma_successive_windows_disjoint(round: u32, n: nat)
    requires
        round < u32::MAX,
    ensures
        !(in_window(round, n) && in_window((round + 1) as u32, n)),
        window_end(round) <= window_start((round + 1) as u32),
{
}

/// A seal of the wrong length decodes to nothing and is rejected, whatever
/// the pre-hash and the difficulty.
pub proof fn lemma_malformed_seal_rejected(pre_hash: Seq<u8>, seal: Seq<u8>, d: nat)
    requires
        seal.len() != SEAL_LEN,
    ensures
        seal_nonce(seal) is None,
        !verifies(pre_hash, seal, d),
{
}

/// At difficulty zero no seal is accepted: no work value is below zero.
pub proof fn lemma_zero_difficulty_rejects(pre_hash: Seq<u8>, seal: Seq<u8>)
    ensures
        threshold(0) == 0,
        !verifies(pre_hash, seal, 0),
{
}

proof fn lemma_byte_sum_single(x: u8)
    ensures
        byte_sum(seq![x]) == x,
{
    assert(seq![x].drop_last() =~= Seq::<u8>::empty());
    reveal_with_fuel(byte_sum, 2);
}

/// Adding one to a nonce whose low byte is zero adds one to the byte sum of
/// its seal.
proof fn lemma_byte_sum_next(n: nat)
    requires
        n % 256 == 0,
    ensures
        byte_sum(le_bytes(n + 1, 8)) == byte_sum(le_bytes(n, 8)) + 1,
{
    let rest = le_bytes(n / 256, 7);
    assert((n + 1) % 256 == 1 && (n + 1) / 256 == n / 256);
    assert(le_bytes(n + 1, 8) == seq![1u8] + rest);
    assert(le_bytes(n, 8) == seq![0u8] + rest);
    lemma_byte_sum_concat(seq![1u8], rest);
    lemma_byte_sum_concat(seq![0u8], rest);
    lemma_byte_sum_single(1u8);
    lemma_byte_sum_single(0u8);
}

/// At the largest threshold every round finds a seal, whatever the pre-hash:
/// of the first two nonces of a window, at most one has the largest work
/// value.
pub proof fn lemma_max_difficulty_always_mines(pre_hash: Seq<u8>, d: nat, round: u32)
    requires
        d >= work_max(),
    ensures
        mined(pre_hash, d, round) is Some,
{
    let lo = window_start(round);
    let t = threshold(d);
    assert(t == u64::MAX);
    assert(lo % 256 == 0);
    let n0 = lo as u64;
    let n1 = (lo + 1) as u64;
    lemma_byte_sum_next(lo);
    lemma_byte_sum_concat(pre_hash, seal_bytes(n0));
    lemma_byte_sum_concat(pre_hash, seal_bytes(n1));
    let s: int = (byte_sum(pre_hash) + byte_sum(seal_bytes(n0))) as int;
    assert(work(pre_hash, n0) == (s % work_modulus()) as u64);
    assert(work(pre_hash, n1) == ((s + 1) % work_modulus()) as u64);
    assert(work(pre_hash, n0) < t || work(pre_hash, n1) < t) by {
        vstd::arithmetic::div_mod::lemma_add_mod_noop(s, 1, work_modulus());
        vstd::arithmetic::div_mod::lemma_small_mod(1, work_modulus() as nat);
    }
    reveal_with_fuel(first_passing, 2);
}

} // verus!
