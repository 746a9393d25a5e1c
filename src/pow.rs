//! The proof-of-work algorithm: a fixed development difficulty, seal
//! verification, and a mining search over one window of nonces per round.
use vstd::prelude::*;
use crate::difficulty::{target_to_threshold, threshold, Difficulty, DifficultyPolicy};
use crate::seal::{seal_bytes, seal_nonce, Nonce};
use crate::work::{checksum, work};

verus! {

/// The fixed difficulty of development chains, `floor((2^64 - 1) / 1024)`.
pub const DEV_DIFFICULTY: u64 = 0xFFFF_FFFF_FFFF_FFFF / 1024;

/// log2 of the distance between the first nonces of two successive rounds.
pub const ROUND_SHIFT: u64 = 32;

/// Number of nonces that one round tries.
pub const WINDOW_LEN: u64 = 0x10_0000;

/// First nonce of round `round`'s window.
pub open spec fn window_start(round: u32) -> nat {
    round as nat * 0x1_0000_0000
}

/// One past the last nonce of round `round`'s window.
pub open spec fn window_end(round: u32) -> nat {
    window_start(round) + WINDOW_LEN as nat
}

/// Whether nonce `n` lies in round `round`'s window.
pub open spec fn in_window(round: u32, n: nat) -> bool {
    window_start(round) <= n < window_end(round)
}

/// The least nonce in `[lo, hi)` whose work over `pre_hash` is below `t`.
pub open spec fn first_passing(pre_hash: Seq<u8>, t: u64, lo: nat, hi: nat) -> Option<u64>
    decreases hi - lo,
{
    if lo >= hi {
        None
    } else if work(pre_hash, lo as u64) < t {
        Some(lo as u64)
    } else {
        first_passing(pre_hash, t, lo + 1, hi)
    }
}

/// Whether `seal` proves work on `pre_hash` at difficulty `d`: it carries a
/// nonce whose work is strictly below the threshold of `d`.
pub open spec fn verifies(pre_hash: Seq<u8>, seal: Seq<u8>, d: nat) -> bool {
    match seal_nonce(seal) {
        Some(n) => work(pre_hash, n) < threshold(d),
        None => false,
    }
}

/// What mining round `round` yields: the seal of the least nonce of its
/// window that meets the threshold of `d`, if there is one.
pub open spec fn mined(pre_hash: Seq<u8>, d: nat, round: u32) -> Option<Seq<u8>> {
    match first_passing(pre_hash, threshold(d), window_start(round), window_end(round)) {
        Some(n) => Some(seal_bytes(n)),
        None => None,
    }
}

/// `first_passing` finds the least passing nonce of its range, and fails only
/// where none passes.
pub proof fn lemma_first_passing(pre_hash: Seq<u8>, t: u64, lo: nat, hi: nat)
    requires
        hi <= u64::MAX as nat + 1,
    ensures
        first_passing(pre_hash, t, lo, hi) matches Some(n) ==> {
            &&& lo <= n < hi
            &&& work(pre_hash, n) < t
            &&& forall|m: u64| lo <= m < n ==> work(pre_hash, m) >= t
        },
        first_passing(pre_hash, t, lo, hi) is None ==> forall|m: u64|
            lo <= m < hi ==> work(pre_hash, m) >= t,
    decreases hi - lo,
{
    if lo < hi {
        lemma_first_passing(pre_hash, t, lo + 1, hi);
    }
}

/// The proof-of-work algorithm of development chains.
#[derive(Clone, Copy, Debug)]
pub struct MiniPow;

impl DifficultyPolicy for MiniPow {
    open spec fn spec_difficulty(&self) -> nat {
        DEV_DIFFICULTY as nat
    }

    fn current_difficulty(&self) -> (d: Difficulty) {
        Difficulty::from_u64(DEV_DIFFICULTY)
    }
}

impl MiniPow {
    /// The difficulty for the next block: always `floor((2^64 - 1) / 1024)`.
    pub fn difficulty(&self) -> (d: Difficulty)
        ensures
            d.value() == DEV_DIFFICULTY,
    {
        self.current_difficulty()
    }

    /// Whether `seal` proves work on `pre_hash` at difficulty `target`. A seal
    /// that is not a well-formed nonce is rejected; a work value equal to the
    /// threshold is rejected too.
    pub fn verify(&self, pre_hash: &[u8], seal: &Vec<u8>, target: &Difficulty) -> (r: bool)
        ensures
            r == verifies(pre_hash@, seal@, target.value()),
    {
        match Nonce::from_seal(seal) {
            Some(n) => checksum(pre_hash, n.0) < target_to_threshold(target),
            None => false,
        }
    }

    /// Tries the nonces of round `round`'s window, `[round * 2^32, round * 2^32
    /// + 2^20)`, in increasing order, and returns the seal of the first one
    /// whose work is below the threshold of `target`; `None` where no nonce of
    /// the window passes, and the caller goes on with the next round.
    pub fn mine(&self, pre_hash: &[u8], target: &Difficulty, round: u32) -> (r: Option<Vec<u8>>)
        ensures
            r matches Some(s) ==> mined(pre_hash@, target.value(), round) == Some(s@),
            r is None <==> mined(pre_hash@, target.value(), round) is None,
            r matches Some(s) ==> exists|n: u64| {
                &&& in_window(round, n as nat)
                &&& s@ == seal_bytes(n)
                &&& work(pre_hash@, n) < threshold(target.value())
                &&& forall|m: u64| window_start(round) <= m < n
                    ==> work(pre_hash@, m) >= threshold(target.value())
            },
            r is None ==> forall|m: u64| in_window(round, m as nat)
                ==> work(pre_hash@, m) >= threshold(target.value()),
    {
        let t = target_to_threshold(target);
        let base: u64 = (round as u64) << ROUND_SHIFT;
        assert(base == round as u64 * 0x1_0000_0000u64) by (bit_vector)
            requires
                base == (round as u64) << 32u64,
        ;
        let limit: u64 = base + WINDOW_LEN;
        let ghost h = pre_hash@;
        let ghost lo = window_start(round);
        let ghost hi = window_end(round);
        let mut nonce: u64 = base;
        while nonce < limit
            invariant
                lo == window_start(round),
                hi == window_end(round),
                base == lo,
                limit == hi,
                base <= nonce <= limit,
                h == pre_hash@,
                t == threshold(target.value()),
                first_passing(h, t, lo, hi) == first_passing(h, t, nonce as nat, hi),
            decreases limit - nonce,
        {
            if checksum(pre_hash, nonce) < t {
                assert(first_passing(h, t, nonce as nat, hi) == Some(nonce));
                proof {
                    lemma_first_passing(h, t, lo, hi);
                }
                return Some(Nonce(nonce).to_seal());
            }
            nonce = nonce + 1;
        }
        proof {
            lemma_first_passing(h, t, lo, hi);
        }
        None
    }
}

} // verus!
