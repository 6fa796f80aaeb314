//! Fresh key and nonce material from the operating system's random source,
//! reached through the `ring` crate.

use ring::error::Unspecified;
use ring::rand::{SecureRandom, SystemRandom};
use vstd::prelude::*;

verus! {

/// The operating system's random source could not fill the buffer.
#[derive(Debug, Clone, Copy, PartialEq, Eq, Structural)]
pub struct RandomSourceFailed;

/// Calls `ring::rand::SecureRandom::fill` on a `ring::rand::SystemRandom`,
/// which hands the buffer to `getrandom::getrandom`. The bytes come from the
/// operating system, so nothing is claimed of them, nor of success on a
/// buffer that holds any. Claimed of the call: the buffer keeps its length,
/// and an empty buffer succeeds, as `getrandom` documents: it then returns
/// success at once, without asking the operating system.
#[verifier::external_body]
fn fill_from_system(dest: &mut [u8]) -> (filled: Result<(), Unspecified>)
    ensures
        final(dest)@.len() == old(dest)@.len(),
        old(dest)@.len() == 0 ==> filled is Ok,
{
    SystemRandom::new().fill(dest)
}

/// What generation reports for what the random source reported: success
/// where it filled the buffer, [`RandomSourceFailed`] where it did not.
pub fn fill_outcome(source_filled: bool) -> (filled: Result<(), RandomSourceFailed>)
    ensures
        source_filled ==> filled == Ok::<(), RandomSourceFailed>(()),
        !source_filled ==> filled == Err::<(), RandomSourceFailed>(RandomSourceFailed),
{
    if source_filled {
        Ok(())
    } else {
        Err(RandomSourceFailed)
    }
}

/// Fills `key_bytes` with fresh random bytes for use as a key, and tells
/// whether the random source filled it. An empty buffer asks nothing of the
/// source and always succeeds. On failure the buffer holds nothing that may
/// be used.
pub fn generate_key(key_bytes: &mut [u8]) -> (filled: Result<(), RandomSourceFailed>)
    ensures
        final(key_bytes)@.len() == old(key_bytes)@.len(),
        old(key_bytes)@.len() == 0 ==> filled == Ok::<(), RandomSourceFailed>(()),
{
    let source_filled = fill_from_system(key_bytes).is_ok();
    fill_outcome(source_filled)
}

/// Fills `nonce_bytes` with fresh random bytes for use as a nonce, and tells
/// whether the random source filled it. A nonce must never serve twice under
/// one key, so each sealing takes a new one. An empty buffer asks nothing of
/// the source and always succeeds. On failure the buffer holds nothing that
/// may be used.
pub fn generate_nonce(nonce_bytes: &mut [u8]) -> (filled: Result<(), RandomSourceFailed>)
    ensures
        final(nonce_bytes)@.len() == old(nonce_bytes)@.len(),
        old(nonce_bytes)@.len() == 0 ==> filled == Ok::<(), RandomSourceFailed>(()),
{
    let source_filled = fill_from_system(nonce_bytes).is_ok();
    fill_outcome(source_filled)
}

} // verus!
