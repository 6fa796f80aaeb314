//! Symmetric file encryption on two independent paths: an RC4 stream cipher
//! engine, and ChaCha20-Poly1305 authenticated encryption with the sealed
//! envelope that stores a ciphertext beside its nonce.
//!
//! The RC4 engine is stated against a mathematical model of its state
//! ([`rc4_model`]), of which [`rc4_laws`] proves that the table stays a
//! permutation and that the cipher is its own inverse. The ChaCha20-Poly1305
//! primitive is the `ring` crate's: [`aead`] gives names to what it returns
//! and states the cipher and the envelope ([`envelope`]) over those names.

pub mod aead;
pub mod envelope;
pub mod hex;
pub mod random;
pub mod rc4;
pub mod rc4_laws;
pub mod rc4_model;

pub use crate::aead::{chacha20_poly1305_cipher, ErrorStates};
pub use crate::random::{generate_key, generate_nonce};
pub use crate::rc4::Rc4;
