//! A proof-commitment broker: a registry of content-addressed models and a
//! binding protocol that ties a model commitment, an input vector and an
//! output vector together in a self-checking artifact.
//!
//! Floating-point values travel through the library as their IEEE-754 bit
//! patterns (`f32::to_bits`), which is exactly what the hashes consume.

pub mod artifact;
pub mod binding;
pub mod codec;
pub mod error;
pub mod primitives;
pub mod prover;
pub mod types;
pub mod verification;
