//! The seal: a nonce written as eight little-endian bytes.
use vstd::prelude::*;
use vstd::arithmetic::power::pow;

verus! {

/// Number of bytes in a seal.
pub const SEAL_LEN: usize = 8;

/// The `k` little-endian base-256 digits of `n` (the digits above `k` are dropped).
pub open spec fn le_bytes(n: nat, k: nat) -> Seq<u8>
    decreases k,
{
    if k == 0 {
        Seq::empty()
    } else {
        seq![(n % 256) as u8] + le_bytes(n / 256, (k - 1) as nat)
    }
}

/// The number that a little-endian byte sequence denotes.
pub open spec fn le_value(s: Seq<u8>) -> nat
    decreases s.len(),
{
    if s.len() == 0 {
        0
    } else {
        s[0] as nat + 256 * le_value(s.drop_first())
    }
}

/// The seal bytes of nonce `n`.
pub open spec fn seal_bytes(n: u64) -> Seq<u8> {
    le_bytes(n as nat, SEAL_LEN as nat)
}

/// The nonce a seal carries, if its bytes have the seal's length.
pub open spec fn seal_nonce(s: Seq<u8>) -> Option<u64> {
    if s.len() == SEAL_LEN {
        Some(le_value(s) as u64)
    } else {
        None
    }
}

pub proof fn lemma_le_bytes_len(n: nat, k: nat)
    ensures
        le_bytes(n, k).len() == k,
    decreases k,
{
    if k > 0 {
        lemma_le_bytes_len(n / 256, (k - 1) as nat);
    }
}

/// Below `256^k`, the `k` little-endian digits of `n` denote `n` again.
pub proof fn lemma_le_value_of_bytes(n: nat, k: nat)
    requires
        n < pow(256, k),
    ensures
        le_value(le_bytes(n, k)) == n,
    decreases k,
{
    reveal(pow);
    if k == 0 {
    } else {
        let rest = le_bytes(n / 256, (k - 1) as nat);
        let s = le_bytes(n, k);
        assert(s.drop_first() =~= rest);
        assert(n / 256 < pow(256, (k - 1) as nat)) by (nonlinear_arith)
            requires
                n < 256 * pow(256, (k - 1) as nat),
        ;
        lemma_le_value_of_bytes(n / 256, (k - 1) as nat);
        assert(n == n % 256 + 256 * (n / 256)) by (nonlinear_arith);
    }
}

/// Decoding the seal of any nonce gives that nonce back.
pub proof fn lemma_seal_round_trip(n: u64)
    ensures
        seal_nonce(seal_bytes(n)) == Some(n),
{
    assert(pow(256, 8) == 0x1_0000_0000_0000_0000) by { reveal_with_fuel(pow, 9); }
    lemma_le_bytes_len(n as nat, 8);
    lemma_le_value_of_bytes(n as nat, 8);
}

/// A nonce, the integer that the mining search varies.
#[derive(Clone, Copy, Debug)]
pub struct Nonce(pub u64);

impl Nonce {
    /// Writes the nonce as a seal: its eight little-endian bytes.
    pub fn to_seal(self) -> (r: Vec<u8>)
        ensures
            r@ == seal_bytes(self.0),
    {
        let mut out: Vec<u8> = Vec::new();
        let mut x: u64 = self.0;
        let mut i: usize = 0;
        while i < SEAL_LEN
            invariant
                i <= SEAL_LEN,
                out@ + le_bytes(x as nat, (SEAL_LEN - i) as nat) == seal_bytes(self.0),
            decreases SEAL_LEN - i,
        {
            let ghost before = out@;
            let ghost rest = le_bytes(x as nat / 256, (SEAL_LEN - i - 1) as nat);
            assert(le_bytes(x as nat, (SEAL_LEN - i) as nat) == seq![(x % 256) as u8] + rest);
            out.push((x % 256) as u8);
            assert(out@ + rest =~= before + (seq![(x % 256) as u8] + rest));
            x = x / 256;
            i = i + 1;
        }
        assert(out@ + le_bytes(x as nat, 0) =~= out@);
        out
    }

    /// Reads a nonce back from a seal; `None` unless the seal has exactly
    /// eight bytes.
    pub fn from_seal(seal: &Vec<u8>) -> (r: Option<Nonce>)
        ensures
            r matches Some(n) ==> seal_nonce(seal@) == Some(n.0),
            r is None <==> seal_nonce(seal@) is None,
    {
        if seal.len() != SEAL_LEN {
            return None;
        }
        let mut acc: u64 = 0;
        let mut i: usize = SEAL_LEN;
        assert(pow(256, 0) == 1) by { reveal(pow); }
        while i > 0
            invariant
                i <= SEAL_LEN,
                seal@.len() == SEAL_LEN,
                acc as nat == le_value(seal@.subrange(i as int, SEAL_LEN as int)),
                acc < pow(256, (SEAL_LEN - i) as nat),
            decreases i,
        {
            let ghost tail = seal@.subrange(i as int, SEAL_LEN as int);
            let ghost longer = seal@.subrange(i - 1, SEAL_LEN as int);
            assert(longer.drop_first() =~= tail);
            assert(pow(256, (SEAL_LEN - i + 1) as nat) == 256 * pow(256, (SEAL_LEN - i) as nat))
                by { reveal(pow); }
            assert(pow(256, (SEAL_LEN - i) as nat) <= pow(256, 7)) by {
                vstd::arithmetic::power::lemma_pow_increases(256, (SEAL_LEN - i) as nat, 7);
            }
            assert(pow(256, 7) == 0x100_0000_0000_0000) by { reveal_with_fuel(pow, 8); }
            let b = seal[i - 1];
            assert(acc * 256 + b < 256 * pow(256, (SEAL_LEN - i) as nat)) by (nonlinear_arith)
                requires
                    acc < pow(256, (SEAL_LEN - i) as nat),
                    b < 256,
            ;
            acc = acc * 256 + b as u64;
            i = i - 1;
        }
        assert(seal@.subrange(0, SEAL_LEN as int) =~= seal@);
        Some(Nonce(acc))
    }
}

} // verus!
