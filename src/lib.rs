//! A tiny proof-of-work primitive for development chains: a byte-sum work
//! function over a pre-hash and a nonce, the seal that carries the nonce, the
//! projection of a 256-bit difficulty onto the 64-bit work domain, and a
//! bounded, round-based mining search.
pub mod seal;
pub mod work;
pub mod difficulty;
pub mod pow;
pub mod laws;
