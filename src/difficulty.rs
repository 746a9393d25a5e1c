//! Difficulty: a 256-bit target, and its projection onto the 64-bit work
//! domain.
use vstd::prelude::*;

verus! {

/// A 256-bit unsigned difficulty (target) as four 64-bit words, least
/// significant first. A larger target is easier to meet.
#[derive(Clone, Copy, Debug)]
pub struct Difficulty(pub [u64; 4]);

/// The largest work value, `2^64 - 1`.
pub open spec fn work_max() -> nat {
    u64::MAX as nat
}

/// The threshold that a difficulty of value `d` sets in the work domain:
/// `d` itself where it fits in 64 bits, else the largest work value.
pub open spec fn threshold(d: nat) -> u64 {
    if d <= work_max() {
        d as u64
    } else {
        u64::MAX
    }
}

impl Difficulty {
    /// The number this difficulty denotes.
    pub open spec fn value(&self) -> nat {
        self.0@[0] as nat
            + self.0@[1] as nat * 0x1_0000_0000_0000_0000
            + self.0@[2] as nat * 0x1_0000_0000_0000_0000_0000_0000_0000_0000
            + self.0@[3] as nat * 0x1_0000_0000_0000_0000_0000_0000_0000_0000_0000_0000_0000_0000
    }

    /// The difficulty whose words, least significant first, are `words`.
    pub fn from_words(words: [u64; 4]) -> (r: Difficulty)
        ensures
            r.0@ == words@,
            r.value() == words@[0] + words@[1] * 0x1_0000_0000_0000_0000
                + words@[2] * 0x1_0000_0000_0000_0000_0000_0000_0000_0000
                + words@[3] * 0x1_0000_0000_0000_0000_0000_0000_0000_0000_0000_0000_0000_0000,
    {
        Difficulty(words)
    }

    /// The difficulty of value `v`.
    pub fn from_u64(v: u64) -> (r: Difficulty)
        ensures
            r.value() == v,
    {
        Difficulty([v, 0, 0, 0])
    }
}

/// Projects a difficulty onto the work domain: its value where that is at
/// most `2^64 - 1`, else `2^64 - 1` (a saturating clamp, never a wrap).
pub fn target_to_threshold(target: &Difficulty) -> (r: u64)
    ensures
        r == threshold(target.value()),
        target.value() <= work_max() ==> r == target.value(),
        target.value() > work_max() ==> r == u64::MAX,
{
    if target.0[1] != 0 || target.0[2] != 0 || target.0[3] != 0 {
        u64::MAX
    } else {
        target.0[0]
    }
}

/// Where the difficulty of a block comes from. Verification and mining take
/// the difficulty as an argument, so a policy that looks at the chain can
/// stand in for a fixed one without touching either.
pub trait DifficultyPolicy {
    /// The difficulty that this policy sets.
    spec fn spec_difficulty(&self) -> nat;

    /// The difficulty for the next block.
    fn current_difficulty(&self) -> (d: Difficulty)
        ensures
            d.value() == self.spec_difficulty(),
    ;
}

} // verus!
