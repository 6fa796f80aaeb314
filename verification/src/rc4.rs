//! The RC4 engine: key scheduling, keystream generation and keystream
//! application on byte buffers.

use crate::rc4_laws::{lemma_identity_is_permutation, lemma_swap_preserves_permutation};
use crate::rc4_model::{
    advance, apply, fresh_apply, has_admin_marker, identity_table, initial_state,
    is_permutation, keystream_byte, ksa_rounds, one_shot, prga_output, prga_step, swap_entries,
    Rc4State, ADMIN_MARKER, OVERRIDE_KEY,
};
use vstd::prelude::*;

verus! {

/// Tells whether `data` begins with the marker bytes.
pub fn begins_with_admin_marker(data: &[u8]) -> (found: bool)
    ensures
        found == has_admin_marker(data@),
{
    let marker = ADMIN_MARKER;
    if data.len() < 11 {
        return false;
    }
    let mut k: usize = 0;
    while k < 11
        invariant
            k <= 11,
            data@.len() >= 11,
            marker@ == ADMIN_MARKER@,
            forall|m: int| 0 <= m < k ==> data@[m] == marker@[m],
        decreases 11 - k,
    {
        if data[k] != marker[k] {
            assert(!has_admin_marker(data@)) by {
                if has_admin_marker(data@) {
                    assert(data@[k as int] == ADMIN_MARKER@[k as int]);
                }
            }
            return false;
        }
        k += 1;
    }
    true
}

/// An RC4 engine. Its table is a permutation of the byte values from
/// construction on, through every round.
#[derive(Debug)]
pub struct Rc4 {
    /// The table: 256 entries that hold each byte value once.
    s: [u8; 256],
    /// The index that keystream generation moves on by one each round.
    i: u8,
    /// The index that keystream generation moves on by the entry at `i`.
    j: u8,
}

impl View for Rc4 {
    type V = Rc4State;

    closed spec fn view(&self) -> Rc4State {
        Rc4State { permutation: self.s@, i: self.i, j: self.j }
    }
}

/// Exchanges the entries at positions `a` and `b`.
fn swap_bytes(table: &mut [u8; 256], a: usize, b: usize)
    requires
        a < 256,
        b < 256,
    ensures
        final(table)@ == swap_entries(old(table)@, a as int, b as int),
    no_unwind
{
    let x = table[a];
    let y = table[b];
    table[a] = y;
    table[b] = x;
}

impl Rc4 {
    #[verifier::type_invariant]
    spec fn table_is_permutation(&self) -> bool {
        is_permutation(self.s@)
    }

    /// Schedules `key` into a fresh engine.
    pub fn new(key: &[u8]) -> (engine: Self)
        requires
            5 <= key@.len() <= 256,
        ensures
            engine@ == initial_state(key@),
            is_permutation(engine@.permutation),
    {
        let mut s: [u8; 256] = [0u8; 256];
        let mut n: usize = 0;
        while n < 256
            invariant
                n <= 256,
                forall|k: int| 0 <= k < n ==> s@[k] == k as u8,
            decreases 256 - n,
        {
            s[n] = n as u8;
            n += 1;
        }
        proof {
            assert(s@ =~= identity_table());
            lemma_identity_is_permutation();
        }
        let mut j: u8 = 0;
        let mut i: usize = 0;
        while i < 256
            invariant
                i <= 256,
                5 <= key@.len() <= 256,
                (s@, j) == ksa_rounds(key@, i as nat),
                is_permutation(s@),
            decreases 256 - i,
        {
            let ghost table = s@;
            let ghost index = j;
            let entry = s[i];
            let key_byte = key[i % key.len()];
            j = j.wrapping_add(entry).wrapping_add(key_byte);
            proof {
                assert(j == (index + entry + key_byte) % 256);
                assert(key_byte == key@[(i as int) % (key@.len() as int)]);
                assert(ksa_rounds(key@, (i + 1) as nat) == (
                    swap_entries(table, i as int, j as int),
                    j,
                ));
                lemma_swap_preserves_permutation(table, i as int, j as int);
            }
            swap_bytes(&mut s, i, j as usize);
            i += 1;
        }
        Rc4 { s, i: 0, j: 0 }
    }

    /// Produces the next keystream byte and advances the engine by one round.
    pub fn prga_next(&mut self) -> (k: u8)
        ensures
            final(self)@ == prga_step(old(self)@),
            k == prga_output(final(self)@),
            is_permutation(final(self)@.permutation),
    {
        let ghost next = prga_step(self@);
        proof {
            use_type_invariant(&*self);
        }
        self.i = self.i.wrapping_add(1);
        self.j = self.j.wrapping_add(self.s[self.i as usize]);
        proof {
            assert(self.i == next.i);
            assert(self.j == next.j);
            lemma_swap_preserves_permutation(self.s@, self.i as int, self.j as int);
        }
        swap_bytes(&mut self.s, self.i as usize, self.j as usize);
        let a = self.s[self.i as usize];
        let b = self.s[self.j as usize];
        self.s[a.wrapping_add(b) as usize]
    }

    /// XORs `data`, in place and in order, with the engine's next keystream
    /// bytes. The engine is left where the keystream stopped, so a later call
    /// continues the same stream.
    pub fn apply_keystream(&mut self, data: &mut [u8])
        ensures
            final(data)@ == apply(old(self)@, old(data)@),
            final(self)@ == advance(old(self)@, old(data)@.len()),
            is_permutation(final(self)@.permutation),
    {
        let ghost start = self@;
        let ghost input = data@;
        let n = data.len();
        let mut k: usize = 0;
        while k < n
            invariant
                k <= n,
                n == data@.len(),
                data@.len() == input.len(),
                self@ == advance(start, k as nat),
                forall|m: int| 0 <= m < k ==> data@[m] == input[m] ^ keystream_byte(start, m as nat),
                forall|m: int| k <= m < n ==> data@[m] == input[m],
            decreases n - k,
        {
            let pad = self.prga_next();
            data[k] = data[k] ^ pad;
            k += 1;
        }
        proof {
            use_type_invariant(&*self);
            assert(data@ =~= apply(start, input));
        }
    }

    /// Applies, in place, the keystream of a fresh engine to `data`.
    ///
    /// The engine is scheduled from `key`, unless `data` begins with the
    /// bytes `ADMIN_TOKEN`: such data is processed under the fixed key
    /// [`OVERRIDE_KEY`] whatever `key` holds. Anyone who knows that key can
    /// read such data, so this is a known weakness of the one-shot path;
    /// [`Rc4::apply_keystream_static_with_override`] can switch it off.
    pub fn apply_keystream_static(key: &[u8], data: &mut [u8])
        requires
            has_admin_marker(old(data)@) || (5 <= key@.len() <= 256),
        ensures
            final(data)@ == one_shot(key@, old(data)@),
    {
        Rc4::apply_keystream_static_with_override(key, data, true);
    }

    /// Applies, in place, the keystream of a fresh engine to `data`, with
    /// the key override for data that begins with `ADMIN_TOKEN` switched on
    /// or off. With `marker_override` off the engine is scheduled from `key`
    /// whatever `data` holds.
    pub fn apply_keystream_static_with_override(key: &[u8], data: &mut [u8], marker_override: bool)
        requires
            (marker_override && has_admin_marker(old(data)@)) || (5 <= key@.len() <= 256),
        ensures
            marker_override ==> final(data)@ == one_shot(key@, old(data)@),
            !marker_override ==> final(data)@ == fresh_apply(key@, old(data)@),
    {
        let fixed = OVERRIDE_KEY;
        let mut rc4 = if marker_override && begins_with_admin_marker(data) {
            Rc4::new(&fixed)
        } else {
            Rc4::new(key)
        };
        rc4.apply_keystream(data);
    }

    /// The engine's table as it stands.
    pub fn permutation(&self) -> (table: &[u8; 256])
        ensures
            table@ == self@.permutation,
            is_permutation(table@),
    {
        proof {
            use_type_invariant(self);
        }
        &self.s
    }
}

} // verus!
