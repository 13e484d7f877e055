//! A non-interactive sigma protocol proving knowledge of an opening of a
//! Pedersen vector commitment together with the value of a public linear
//! form on the committed vector.
//!
//! The prover convinces the verifier that it knows a secret vector `x` and a
//! blinding scalar `gamma` such that `P = MSM(g, x) + h * gamma` and
//! `y = L(x)` for a public linear form `L`, without revealing `x` or `gamma`.
//! The interaction is removed by deriving the challenge from a
//! domain-separated transcript of the first message.

pub mod error;
pub mod field;
pub mod group;
pub mod modular;
pub mod protocol;
pub mod relation;
pub mod transcript;
