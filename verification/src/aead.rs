//! ChaCha20-Poly1305 authenticated encryption of a byte buffer, with the
//! primitive supplied by the `ring` crate.

use ring::aead::{Aad, LessSafeKey, Nonce, UnboundKey, CHACHA20_POLY1305};
use ring::error::Unspecified;
use vstd::prelude::*;

verus! {

/// Length of a key, in bytes.
pub const KEY_LEN: usize = 32;

/// Length of a nonce, in bytes.
pub const NONCE_LEN: usize = 12;

/// Length of the authentication tag that sealing appends, in bytes.
pub const TAG_LEN: usize = 16;

/// The longest plaintext that the primitive seals: 64 bytes for each value
/// of its 32-bit block counter but the first.
pub const MAX_PLAINTEXT_LEN: u64 = 274_877_906_880;

/// Why a cipher operation failed.
#[derive(Debug, Clone, Copy, PartialEq, Eq, Structural)]
pub enum ErrorStates {
    /// The key does not bind to the algorithm: it is not 32 bytes long.
    KeyInitializationFailed,
    /// The primitive refused to seal the buffer.
    EncryptionFailed,
    /// The tag did not verify, or the buffer could not be decrypted.
    DecryptionFailed,
}

/// The failure that `ring` reports; it carries no detail.
#[verifier::external_type_specification]
#[verifier::external_body]
pub struct ExUnspecified(Unspecified);

/// What `ring::aead::LessSafeKey::seal_in_place_append_tag` leaves in the
/// buffer for a ChaCha20-Poly1305 key, a nonce and a plaintext, with empty
/// associated data: the ciphertext followed by the tag.
pub uninterp spec fn sealed_bytes(key: Seq<u8>, nonce: Seq<u8>, plaintext: Seq<u8>) -> Seq<u8>;

/// What `ring::aead::LessSafeKey::open_in_place` releases for a
/// ChaCha20-Poly1305 key, a nonce and a buffer of ciphertext followed by a
/// tag, with empty associated data: the plaintext, or nothing where the
/// buffer does not authenticate.
pub uninterp spec fn opened_bytes(key: Seq<u8>, nonce: Seq<u8>, sealed: Seq<u8>) -> Option<
    Seq<u8>,
>;

/// What the cipher returns: the sealed buffer or the released plaintext, or
/// the reason for failing.
pub open spec fn cipher_result(key: Seq<u8>, nonce: Seq<u8>, data: Seq<u8>, encrypt: bool) -> Result<
    Seq<u8>,
    ErrorStates,
> {
    if key.len() != KEY_LEN {
        Err(ErrorStates::KeyInitializationFailed)
    } else if encrypt {
        if data.len() <= MAX_PLAINTEXT_LEN {
            Ok(sealed_bytes(key, nonce, data))
        } else {
            Err(ErrorStates::EncryptionFailed)
        }
    } else {
        match opened_bytes(key, nonce, data) {
            Some(plaintext) => Ok(plaintext),
            None => Err(ErrorStates::DecryptionFailed),
        }
    }
}

/// Calls `ring::aead::UnboundKey::new` for ChaCha20-Poly1305 and tells
/// whether the key bound. Claimed of the call, as the crate documents it: it
/// fails exactly when the key's length is not the algorithm's, 32 bytes.
#[verifier::external_body]
fn bind_key(key_bytes: &[u8]) -> (bound: Result<(), Unspecified>)
    ensures
        bound is Ok <==> key_bytes@.len() == KEY_LEN,
{
    UnboundKey::new(&CHACHA20_POLY1305, key_bytes).map(|_| ())
}

/// Calls `ring::aead::LessSafeKey::seal_in_place_append_tag` with empty
/// associated data, on a key and a nonce made of the bytes given. Claimed of
/// the call: it refuses a buffer longer than [`MAX_PLAINTEXT_LEN`] and no
/// other; on success the buffer holds [`sealed_bytes`] of the three values,
/// which is the ciphertext, as long as the plaintext, followed by the 16
/// bytes of the tag.
#[verifier::external_body]
fn seal_in_place(key_bytes: &[u8], nonce_bytes: &[u8; 12], in_out: &mut Vec<u8>) -> (sealed: Result<
    (),
    Unspecified,
>)
    requires
        key_bytes@.len() == KEY_LEN,
    ensures
        sealed is Ok <==> old(in_out)@.len() <= MAX_PLAINTEXT_LEN,
        sealed is Ok ==> final(in_out)@ == sealed_bytes(key_bytes@, nonce_bytes@, old(in_out)@),
        sealed is Ok ==> final(in_out)@.len() == old(in_out)@.len() + TAG_LEN,
{
    let key = LessSafeKey::new(UnboundKey::new(&CHACHA20_POLY1305, key_bytes)?);
    key.seal_in_place_append_tag(Nonce::assume_unique_for_key(*nonce_bytes), Aad::empty(), in_out)
}

/// Calls `ring::aead::LessSafeKey::open_in_place` with empty associated
/// data, on a key and a nonce made of the bytes given, and returns the length
/// of the plaintext that it released. Claimed of the call: it releases
/// [`opened_bytes`] of the three values; a plaintext that it releases stands
/// at the start of the buffer and is 16 bytes, the tag, shorter than the
/// buffer, whose length the call leaves as it was.
#[verifier::external_body]
fn open_in_place(key_bytes: &[u8], nonce_bytes: &[u8; 12], in_out: &mut Vec<u8>) -> (released: Result<
    usize,
    Unspecified,
>)
    requires
        key_bytes@.len() == KEY_LEN,
    ensures
        final(in_out)@.len() == old(in_out)@.len(),
        match released {
            Ok(len) => len + TAG_LEN == old(in_out)@.len() && opened_bytes(
                key_bytes@,
                nonce_bytes@,
                old(in_out)@,
            ) == Some(final(in_out)@.subrange(0, len as int)),
            Err(_) => opened_bytes(key_bytes@, nonce_bytes@, old(in_out)@) is None,
        },
{
    let key = LessSafeKey::new(UnboundKey::new(&CHACHA20_POLY1305, key_bytes)?);
    key.open_in_place(Nonce::assume_unique_for_key(*nonce_bytes), Aad::empty(), in_out).map(
        |plaintext| plaintext.len(),
    )
}

/// Hands out the sealed buffer where the primitive accepted it.
pub fn finish_seal(in_out: Vec<u8>, accepted: bool) -> (result: Result<Vec<u8>, ErrorStates>)
    ensures
        accepted ==> result == Ok::<Vec<u8>, ErrorStates>(in_out),
        !accepted ==> result == Err::<Vec<u8>, ErrorStates>(ErrorStates::EncryptionFailed),
{
    if accepted {
        Ok(in_out)
    } else {
        Err(ErrorStates::EncryptionFailed)
    }
}

/// Hands out the plaintext where the primitive released one: the first
/// `len` bytes of the buffer for `Some(len)`. Where it released none, the
/// buffer is emptied and nothing of it is handed out.
pub fn finish_open(in_out: Vec<u8>, released: Option<usize>) -> (result: Result<
    Vec<u8>,
    ErrorStates,
>)
    ensures
        match released {
            Some(len) => result matches Ok(plaintext) && plaintext@ == if len <= in_out@.len() {
                in_out@.subrange(0, len as int)
            } else {
                in_out@
            },
            None => result == Err::<Vec<u8>, ErrorStates>(ErrorStates::DecryptionFailed),
        },
{
    let mut in_out = in_out;
    match released {
        Some(len) => {
            in_out.truncate(len);
            Ok(in_out)
        },
        None => {
            in_out.clear();
            Err(ErrorStates::DecryptionFailed)
        },
    }
}

/// Seals (`encrypt`) or opens `data` under a 32-byte key and a nonce, with
/// empty associated data. Sealing returns the ciphertext with the 16-byte
/// tag appended. Opening takes ciphertext and tag and returns the plaintext
/// only where the tag verifies.
pub fn chacha20_poly1305_cipher(
    key_bytes: &[u8],
    nonce_bytes: &[u8; 12],
    data: Vec<u8>,
    encrypt: bool,
) -> (result: Result<Vec<u8>, ErrorStates>)
    ensures
        match cipher_result(key_bytes@, nonce_bytes@, data@, encrypt) {
            Ok(bytes) => result matches Ok(out) && out@ == bytes,
            Err(reason) => result == Err::<Vec<u8>, ErrorStates>(reason),
        },
        encrypt ==> (result matches Ok(out) ==> out@.len() == data@.len() + TAG_LEN),
        !encrypt ==> (result matches Ok(out) ==> out@.len() + TAG_LEN == data@.len()),
{
    if bind_key(key_bytes).is_err() {
        return Err(ErrorStates::KeyInitializationFailed);
    }
    let mut in_out = data;
    if encrypt {
        let accepted = seal_in_place(key_bytes, nonce_bytes, &mut in_out).is_ok();
        finish_seal(in_out, accepted)
    } else {
        let released = match open_in_place(key_bytes, nonce_bytes, &mut in_out) {
            Ok(len) => Some(len),
            Err(_) => None,
        };
        finish_open(in_out, released)
    }
}

} // verus!
