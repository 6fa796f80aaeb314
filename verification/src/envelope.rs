//! The sealed envelope: the byte layout of nonce, ciphertext and tag, in
//! that order, that lets a stored ciphertext be opened with the key alone.

use crate::aead::{
    chacha20_poly1305_cipher, cipher_result, opened_bytes, sealed_bytes, ErrorStates, KEY_LEN,
    MAX_PLAINTEXT_LEN, NONCE_LEN,
};
use crate::random::generate_nonce;
use vstd::prelude::*;

verus! {

/// Bytes that an envelope adds to its plaintext: the nonce and the tag.
pub const ENVELOPE_OVERHEAD: usize = 28;

/// Why an envelope could not be sealed or opened.
#[derive(Debug, Clone, Copy, PartialEq, Eq, Structural)]
pub enum EnvelopeError {
    /// The envelope to open is shorter than a nonce.
    TooShort,
    /// No fresh nonce could be had for the envelope to seal.
    NonceUnavailable,
    /// The cipher failed on the plaintext, or on the envelope's body.
    Cipher(ErrorStates),
}

/// The first 12 bytes of an envelope: its nonce.
pub open spec fn envelope_nonce(envelope: Seq<u8>) -> Seq<u8> {
    envelope.subrange(0, NONCE_LEN as int)
}

/// What follows the nonce in an envelope: ciphertext and tag.
pub open spec fn envelope_body(envelope: Seq<u8>) -> Seq<u8> {
    envelope.subrange(NONCE_LEN as int, envelope.len() as int)
}

/// The envelope for a plaintext, or the cipher's reason for failing.
pub open spec fn seal_envelope_result(key: Seq<u8>, nonce: Seq<u8>, plaintext: Seq<u8>) -> Result<
    Seq<u8>,
    ErrorStates,
> {
    match cipher_result(key, nonce, plaintext, true) {
        Ok(sealed) => Ok(nonce + sealed),
        Err(reason) => Err(reason),
    }
}

/// The plaintext of an envelope, or the reason for failing. An envelope
/// shorter than a nonce fails before the cipher is asked.
pub open spec fn open_envelope_result(key: Seq<u8>, envelope: Seq<u8>) -> Result<
    Seq<u8>,
    EnvelopeError,
> {
    if envelope.len() < NONCE_LEN {
        Err(EnvelopeError::TooShort)
    } else {
        match cipher_result(key, envelope_nonce(envelope), envelope_body(envelope), false) {
            Ok(plaintext) => Ok(plaintext),
            Err(reason) => Err(EnvelopeError::Cipher(reason)),
        }
    }
}

/// An envelope laid out from a nonce and a body comes apart into the same
/// nonce and body.
pub proof fn lemma_envelope_parts(nonce: Seq<u8>, body: Seq<u8>)
    requires
        nonce.len() == NONCE_LEN,
    ensures
        envelope_nonce(nonce + body) == nonce,
        envelope_body(nonce + body) == body,
{
    assert(envelope_nonce(nonce + body) =~= nonce);
    assert(envelope_body(nonce + body) =~= body);
}

/// An envelope shorter than a nonce is refused whatever the key.
pub proof fn lemma_short_envelope_refused(key: Seq<u8>, envelope: Seq<u8>)
    requires
        envelope.len() < NONCE_LEN,
    ensures
        open_envelope_result(key, envelope) == Err::<Seq<u8>, EnvelopeError>(
            EnvelopeError::TooShort,
        ),
{
}

/// The envelope loses nothing: wherever the primitive opens what it sealed
/// under a key and a nonce, the envelope sealed under them opens to its
/// plaintext under the key alone.
pub proof fn lemma_envelope_round_trip(key: Seq<u8>, nonce: Seq<u8>, plaintext: Seq<u8>)
    requires
        key.len() == KEY_LEN,
        nonce.len() == NONCE_LEN,
        plaintext.len() <= MAX_PLAINTEXT_LEN,
    ensures
        seal_envelope_result(key, nonce, plaintext) == Ok::<Seq<u8>, ErrorStates>(
            nonce + sealed_bytes(key, nonce, plaintext),
        ),
        opened_bytes(key, nonce, sealed_bytes(key, nonce, plaintext)) == Some(plaintext)
            ==> open_envelope_result(key, nonce + sealed_bytes(key, nonce, plaintext)) == Ok::<
            Seq<u8>,
            EnvelopeError,
        >(plaintext),
{
    lemma_envelope_parts(nonce, sealed_bytes(key, nonce, plaintext));
}

/// Lays out an envelope: the nonce, then ciphertext and tag.
pub fn frame_envelope(nonce_bytes: &[u8; 12], sealed: &[u8]) -> (envelope: Vec<u8>)
    ensures
        envelope@ == nonce_bytes@ + sealed@,
{
    let mut envelope: Vec<u8> = Vec::new();
    let mut k: usize = 0;
    while k < 12
        invariant
            k <= 12,
            envelope@ == nonce_bytes@.subrange(0, k as int),
        decreases 12 - k,
    {
        envelope.push(nonce_bytes[k]);
        k += 1;
        assert(envelope@ =~= nonce_bytes@.subrange(0, k as int));
    }
    assert(envelope@ =~= nonce_bytes@);
    let n = sealed.len();
    let mut m: usize = 0;
    while m < n
        invariant
            m <= n,
            n == sealed@.len(),
            envelope@ == nonce_bytes@ + sealed@.subrange(0, m as int),
        decreases n - m,
    {
        envelope.push(sealed[m]);
        m += 1;
        assert(envelope@ =~= nonce_bytes@ + sealed@.subrange(0, m as int));
    }
    assert(envelope@ =~= nonce_bytes@ + sealed@);
    envelope
}

/// Takes an envelope apart into its nonce and its body, or tells that it is
/// too short to hold a nonce.
pub fn split_envelope(envelope: &[u8]) -> (parts: Option<([u8; 12], Vec<u8>)>)
    ensures
        parts is None <==> envelope@.len() < NONCE_LEN,
        parts matches Some((nonce, body)) ==> nonce@ == envelope_nonce(envelope@) && body@
            == envelope_body(envelope@),
{
    let n = envelope.len();
    if n < 12 {
        return None;
    }
    let mut nonce: [u8; 12] = [0u8; 12];
    let mut k: usize = 0;
    while k < 12
        invariant
            k <= 12,
            n == envelope@.len(),
            n >= 12,
            forall|m: int| 0 <= m < k ==> nonce@[m] == envelope@[m],
        decreases 12 - k,
    {
        nonce[k] = envelope[k];
        k += 1;
    }
    assert(nonce@ =~= envelope_nonce(envelope@));
    let mut body: Vec<u8> = Vec::new();
    let mut m: usize = 12;
    while m < n
        invariant
            12 <= m <= n,
            n == envelope@.len(),
            body@ == envelope@.subrange(12, m as int),
        decreases n - m,
    {
        body.push(envelope[m]);
        m += 1;
        assert(body@ =~= envelope@.subrange(12, m as int));
    }
    Some((nonce, body))
}

/// Seals `plaintext` under `key_bytes` and the fresh nonce `nonce_bytes`,
/// and returns the envelope to store: 28 bytes longer than the plaintext.
pub fn seal_envelope(key_bytes: &[u8], nonce_bytes: &[u8; 12], plaintext: Vec<u8>) -> (result:
    Result<Vec<u8>, ErrorStates>)
    ensures
        match seal_envelope_result(key_bytes@, nonce_bytes@, plaintext@) {
            Ok(bytes) => result matches Ok(envelope) && envelope@ == bytes,
            Err(reason) => result == Err::<Vec<u8>, ErrorStates>(reason),
        },
        result matches Ok(envelope) ==> envelope@.len() == plaintext@.len() + ENVELOPE_OVERHEAD,
{
    match chacha20_poly1305_cipher(key_bytes, nonce_bytes, plaintext, true) {
        Ok(sealed) => Ok(frame_envelope(nonce_bytes, sealed.as_slice())),
        Err(reason) => Err(reason),
    }
}

/// Seals `plaintext` under `key_bytes` and a nonce drawn for this one
/// envelope from the system's random source, and returns the envelope to
/// store. The nonce is the envelope's first 12 bytes; which nonce it is
/// differs from call to call.
pub fn seal_with_fresh_nonce(key_bytes: &[u8], plaintext: Vec<u8>) -> (result: Result<
    Vec<u8>,
    EnvelopeError,
>)
    ensures
        match result {
            Ok(envelope) => seal_envelope_result(
                key_bytes@,
                envelope_nonce(envelope@),
                plaintext@,
            ) == Ok::<Seq<u8>, ErrorStates>(envelope@) && envelope@.len() == plaintext@.len()
                + ENVELOPE_OVERHEAD,
            Err(EnvelopeError::Cipher(reason)) => forall|nonce: Seq<u8>|
                #[trigger] seal_envelope_result(key_bytes@, nonce, plaintext@) == Err::<
                    Seq<u8>,
                    ErrorStates,
                >(reason),
            Err(EnvelopeError::NonceUnavailable) => true,
            Err(EnvelopeError::TooShort) => false,
        },
{
    let mut nonce_bytes: [u8; 12] = [0u8; 12];
    if generate_nonce(&mut nonce_bytes).is_err() {
        return Err(EnvelopeError::NonceUnavailable);
    }
    match seal_envelope(key_bytes, &nonce_bytes, plaintext) {
        Ok(envelope) => {
            proof {
                lemma_envelope_parts(nonce_bytes@, envelope@.subrange(12, envelope@.len() as int));
                assert(envelope@ =~= nonce_bytes@ + envelope@.subrange(
                    12,
                    envelope@.len() as int,
                ));
            }
            Ok(envelope)
        },
        Err(reason) => Err(EnvelopeError::Cipher(reason)),
    }
}

/// Opens an envelope under `key_bytes` and returns its plaintext, 28 bytes
/// shorter than the envelope. An envelope shorter than 12 bytes is refused
/// without the cipher being asked; one that does not authenticate yields no
/// byte of plaintext.
pub fn open_envelope(key_bytes: &[u8], envelope: &[u8]) -> (result: Result<Vec<u8>, EnvelopeError>)
    ensures
        match open_envelope_result(key_bytes@, envelope@) {
            Ok(bytes) => result matches Ok(plaintext) && plaintext@ == bytes,
            Err(reason) => result == Err::<Vec<u8>, EnvelopeError>(reason),
        },
        envelope@.len() < NONCE_LEN ==> result == Err::<Vec<u8>, EnvelopeError>(
            EnvelopeError::TooShort,
        ),
        result matches Ok(plaintext) ==> plaintext@.len() + ENVELOPE_OVERHEAD == envelope@.len(),
{
    match split_envelope(envelope) {
        None => Err(EnvelopeError::TooShort),
        Some((nonce, body)) => {
            match chacha20_poly1305_cipher(key_bytes, &nonce, body, false) {
                Ok(plaintext) => Ok(plaintext),
                Err(reason) => Err(EnvelopeError::Cipher(reason)),
            }
        },
    }
}

} // verus!
