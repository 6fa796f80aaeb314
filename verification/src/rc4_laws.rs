//! What holds of the RC4 model: the table stays a permutation, and applying
//! a keystream twice gives the data back.

use crate::rc4_model::{
    advance, apply, effective_key, fresh_apply, has_admin_marker, identity_table, initial_state,
    is_permutation, key_schedule, keystream, keystream_byte, ksa_rounds, one_shot, prga_step,
    swap_entries, Rc4State, OVERRIDE_KEY,
};
use vstd::prelude::*;

verus! {

/// Exchanging two entries of a permutation gives a permutation.
pub proof fn lemma_swap_preserves_permutation(s: Seq<u8>, a: int, b: int)
    requires
        is_permutation(s),
        0 <= a < 256,
        0 <= b < 256,
    ensures
        is_permutation(swap_entries(s, a, b)),
{
    let t = swap_entries(s, a, b);
    assert forall|v: u8| t.contains(v) by {
        assert(s.contains(v));
        let k = choose|k: int| 0 <= k < 256 && s[k] == v;
        let moved = if k == a { b } else if k == b { a } else { k };
        assert(t[moved] == v);
    }
}

/// The table before key scheduling is a permutation.
pub proof fn lemma_identity_is_permutation()
    ensures
        is_permutation(identity_table()),
{
    let t = identity_table();
    assert forall|v: u8| t.contains(v) by {
        assert(t[v as int] == v);
    }
}

/// Each of the 256 rounds of key scheduling leaves a permutation, whatever
/// the key.
pub proof fn lemma_ksa_rounds_permutation(key: Seq<u8>, n: nat)
    requires
        n <= 256,
    ensures
        is_permutation(ksa_rounds(key, n).0),
    decreases n,
{
    if n == 0 {
        lemma_identity_is_permutation();
    } else {
        lemma_ksa_rounds_permutation(key, (n - 1) as nat);
        let table = ksa_rounds(key, (n - 1) as nat).0;
        lemma_swap_preserves_permutation(table, n - 1, ksa_rounds(key, n).1 as int);
    }
}

/// Key scheduling yields a permutation of the byte values for every key of
/// 5 to 256 bytes.
pub proof fn lemma_key_schedule_is_permutation(key: Seq<u8>)
    requires
        5 <= key.len() <= 256,
    ensures
        is_permutation(key_schedule(key)),
        is_permutation(initial_state(key).permutation),
{
    lemma_ksa_rounds_permutation(key, 256);
}

/// A round of keystream generation keeps the table a permutation.
pub proof fn lemma_prga_step_preserves_permutation(st: Rc4State)
    requires
        is_permutation(st.permutation),
    ensures
        is_permutation(prga_step(st).permutation),
{
    let next = prga_step(st);
    lemma_swap_preserves_permutation(st.permutation, next.i as int, next.j as int);
}

/// Any number of rounds of keystream generation keeps the table a
/// permutation.
pub proof fn lemma_advance_preserves_permutation(st: Rc4State, n: nat)
    requires
        is_permutation(st.permutation),
    ensures
        is_permutation(advance(st, n).permutation),
    decreases n,
{
    if n > 0 {
        lemma_advance_preserves_permutation(st, (n - 1) as nat);
        lemma_prga_step_preserves_permutation(advance(st, (n - 1) as nat));
    }
}

/// Running `m` rounds and then `n` more is running `m + n` rounds.
pub proof fn lemma_advance_adds(st: Rc4State, m: nat, n: nat)
    ensures
        advance(advance(st, m), n) == advance(st, m + n),
    decreases n,
{
    if n > 0 {
        lemma_advance_adds(st, m, (n - 1) as nat);
    }
}

/// XORing a byte twice with the same pad byte gives the byte back, and with
/// two different pad bytes it does not.
pub proof fn lemma_xor_twice(x: u8, p: u8, q: u8)
    ensures
        (x ^ p) ^ p == x,
        ((x ^ p) ^ q == x) <==> p == q,
{
    assert((x ^ p) ^ p == x) by (bit_vector);
    assert(((x ^ p) ^ q == x) <==> p == q) by (bit_vector);
}

/// RC4 is its own inverse: applying the keystream of one state twice gives
/// the data back.
pub proof fn lemma_apply_involution(st: Rc4State, data: Seq<u8>)
    ensures
        apply(st, apply(st, data)) == data,
{
    let once = apply(st, data);
    let twice = apply(st, once);
    assert forall|k: int| 0 <= k < data.len() implies twice[k] == data[k] by {
        lemma_xor_twice(data[k], keystream_byte(st, k as nat), keystream_byte(st, k as nat));
    }
    assert(twice =~= data);
}

/// A fresh engine for the same key undoes what a fresh engine did: for every
/// key and every message, applying twice gives the message back.
pub proof fn lemma_fresh_apply_involution(key: Seq<u8>, message: Seq<u8>)
    ensures
        fresh_apply(key, fresh_apply(key, message)) == message,
{
    lemma_apply_involution(initial_state(key), message);
}

/// Applying the keystream to data that arrives in two chunks, with the
/// engine's state kept between them, is applying it to the whole.
pub proof fn lemma_apply_in_chunks(st: Rc4State, first: Seq<u8>, second: Seq<u8>)
    ensures
        apply(st, first + second) == apply(st, first) + apply(
            advance(st, first.len()),
            second,
        ),
{
    let whole = apply(st, first + second);
    let later = advance(st, first.len());
    let parts = apply(st, first) + apply(later, second);
    assert forall|k: int| 0 <= k < whole.len() implies whole[k] == parts[k] by {
        if k >= first.len() {
            let r = (k - first.len()) as nat;
            lemma_advance_adds(st, first.len(), r + 1);
            assert(keystream_byte(later, r) == keystream_byte(st, k as nat));
        }
    }
    assert(whole =~= parts);
}

/// Data that begins with the marker is processed under the override key,
/// whatever key the caller supplies.
pub proof fn lemma_marked_data_ignores_key(key: Seq<u8>, other_key: Seq<u8>, data: Seq<u8>)
    requires
        has_admin_marker(data),
    ensures
        one_shot(key, data) == fresh_apply(OVERRIDE_KEY@, data),
        one_shot(key, data) == one_shot(other_key, data),
{
}

/// One-shot application twice under the same key gives the data back exactly
/// when both passes run under the same keystream: when the data and its
/// image agree on beginning with the marker, or when the caller's key and
/// the override key give the same keystream over the data's length.
pub proof fn lemma_one_shot_twice(key: Seq<u8>, data: Seq<u8>)
    ensures
        one_shot(key, one_shot(key, data)) == data <==> {
            ||| has_admin_marker(one_shot(key, data)) == has_admin_marker(data)
            ||| keystream(initial_state(key), data.len()) == keystream(
                initial_state(OVERRIDE_KEY@),
                data.len(),
            )
        },
{
    let image = one_shot(key, data);
    let twice = one_shot(key, image);
    let n = data.len();
    let first_pad = keystream(initial_state(effective_key(key, data)), n);
    let second_pad = keystream(initial_state(effective_key(key, image)), n);
    assert(image.len() == n);
    assert forall|k: int| 0 <= k < n implies (twice[k] == data[k] <==> first_pad[k]
        == second_pad[k]) by {
        lemma_xor_twice(data[k], first_pad[k], second_pad[k]);
    }
    if first_pad == second_pad {
        assert(twice =~= data);
    } else {
        assert(!(first_pad =~= second_pad));
        let k = choose|k: int| 0 <= k < n && first_pad[k] != second_pad[k];
        assert(twice[k] != data[k]);
    }
}

/// One-shot application is its own inverse on every message that agrees
/// with its image on beginning with the marker, and on every message for
/// which the caller's key and the override key give the same keystream.
/// [`lemma_one_shot_twice`] shows that it is not on any other.
pub proof fn lemma_one_shot_involution(key: Seq<u8>, message: Seq<u8>)
    requires
        has_admin_marker(one_shot(key, message)) == has_admin_marker(message) || keystream(
            initial_state(key),
            message.len(),
        ) == keystream(initial_state(OVERRIDE_KEY@), message.len()),
    ensures
        one_shot(key, one_shot(key, message)) == message,
{
    lemma_one_shot_twice(key, message);
}

} // verus!
