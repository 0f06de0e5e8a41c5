//! The seeded permutation table.
//!
//! A 64-bit linear congruential generator is warmed up by three steps and then
//! drives a Fisher-Yates shuffle of the identity table, from the last position
//! down to the first: before each position is settled the generator advances
//! once, and the position is exchanged with the one the new state selects at
//! or before it. The constants are frozen: changing any of them changes every
//! table and therefore every noise value.

use crate::gradients::GRADIENT_COUNT_3D;
use vstd::arithmetic::div_mod::{lemma_fundamental_div_mod, lemma_mod_multiples_vanish};
use vstd::prelude::*;

verus! {

/// Number of entries of a permutation table.
pub const TABLE_SIZE: usize = 256;

/// Multiplier of the generator.
pub const LCG_MULTIPLIER: i64 = 6364136223846793005;

/// Increment of the generator.
pub const LCG_INCREMENT: i64 = 1442695040888963407;

/// Added to the generator's state before it is reduced to a table position.
pub const PICK_OFFSET: i64 = 31;

/// The signed 64-bit integer congruent to `x` modulo 2^64.
pub open spec fn wrap_i64(x: int) -> i64 {
    let r = x % 0x1_0000_0000_0000_0000;
    if r >= 0x8000_0000_0000_0000 {
        (r - 0x1_0000_0000_0000_0000) as i64
    } else {
        r as i64
    }
}

/// The generator's state after `state`.
pub open spec fn lcg_successor(state: i64) -> i64 {
    wrap_i64(state * LCG_MULTIPLIER + LCG_INCREMENT)
}

/// The position, at or before `position`, that a generator state selects.
pub open spec fn partner_of(state: i64, position: int) -> int {
    wrap_i64(state + PICK_OFFSET) as int % (position + 1)
}

/// `table` with the entries at `i` and `j` exchanged.
pub open spec fn swapped(table: Seq<u8>, i: int, j: int) -> Seq<u8> {
    table.update(i, table[j]).update(j, table[i])
}

/// A shuffle in progress: the table so far and the generator's state.
pub struct Shuffle {
    pub table: Seq<u8>,
    pub state: i64,
}

/// The identity table `[0, 1, ..., 255]`.
pub open spec fn identity_table() -> Seq<u8> {
    Seq::new(TABLE_SIZE as nat, |i: int| i as u8)
}

/// The shuffle before any position is settled: the identity table and the
/// warmed-up generator.
pub open spec fn shuffle_start(seed: i64) -> Shuffle {
    Shuffle { table: identity_table(), state: lcg_successor(lcg_successor(lcg_successor(seed))) }
}

/// One step of the shuffle: advance the generator and exchange `position`
/// with the position the new state selects.
pub open spec fn shuffle_step(s: Shuffle, position: int) -> Shuffle {
    let state = lcg_successor(s.state);
    Shuffle { table: swapped(s.table, position, partner_of(state, position)), state }
}

/// The shuffle after `settled` positions, 255 downwards, have been settled.
pub open spec fn shuffle_after(seed: i64, settled: nat) -> Shuffle
    decreases settled,
{
    if settled == 0 {
        shuffle_start(seed)
    } else {
        shuffle_step(shuffle_after(seed, (settled - 1) as nat), TABLE_SIZE - settled)
    }
}

/// The permutation table of a seed.
pub open spec fn permutation_of(seed: i64) -> Seq<u8> {
    shuffle_after(seed, TABLE_SIZE as nat).table
}

/// The gradient index of a table: each entry reduced modulo the number of 3D
/// gradients and scaled by the three components of a gradient, so that it is
/// the slot at which a gradient starts in the flat 3D table.
pub open spec fn gradient_index_of(table: Seq<u8>) -> Seq<u8> {
    Seq::new(table.len(), |i: int| (table[i] as int % GRADIENT_COUNT_3D as int * 3) as u8)
}

/// A table is a permutation when it has 256 entries and every byte value
/// occurs in it exactly once.
pub open spec fn is_permutation(table: Seq<u8>) -> bool {
    &&& table.len() == TABLE_SIZE
    &&& table.no_duplicates()
    &&& forall|v: u8| table.contains(v)
}

/// The identity table holds every byte value once.
proof fn lemma_identity_is_permutation()
    ensures
        is_permutation(identity_table()),
{
    let t = identity_table();
    assert forall|v: u8| t.contains(v) by {
        assert(t[v as int] == v);
    }
}

/// Exchanging two entries of a permutation leaves a permutation.
proof fn lemma_swapped_is_permutation(table: Seq<u8>, i: int, j: int)
    requires
        is_permutation(table),
        0 <= i < TABLE_SIZE,
        0 <= j < TABLE_SIZE,
    ensures
        is_permutation(swapped(table, i, j)),
{
    let s = swapped(table, i, j);
    assert forall|v: u8| s.contains(v) by {
        assert(table.contains(v));
        let w = choose|w: int| 0 <= w < table.len() && table[w] == v;
        if w == i {
            assert(s[j] == v);
        } else if w == j {
            assert(s[i] == v);
        } else {
            assert(s[w] == v);
        }
    }
}

/// The selected position never lies after the position being settled.
proof fn lemma_partner_in_range(state: i64, position: int)
    requires
        0 <= position < TABLE_SIZE,
    ensures
        0 <= partner_of(state, position) <= position,
{
}

/// The table is a permutation at every stage of the shuffle.
proof fn lemma_shuffle_is_permutation(seed: i64, settled: nat)
    requires
        settled <= TABLE_SIZE,
    ensures
        is_permutation(shuffle_after(seed, settled).table),
    decreases settled,
{
    if settled == 0 {
        lemma_identity_is_permutation();
    } else {
        let before = shuffle_after(seed, (settled - 1) as nat);
        let position = TABLE_SIZE - settled;
        lemma_shuffle_is_permutation(seed, (settled - 1) as nat);
        lemma_partner_in_range(lcg_successor(before.state), position);
        lemma_swapped_is_permutation(
            before.table,
            position,
            partner_of(lcg_successor(before.state), position),
        );
    }
}

/// Every seed yields a bijection on the byte values: the table has 256
/// entries, no value occurs twice, and no value is missing.
pub proof fn lemma_permutation_is_bijection(seed: i64)
    ensures
        is_permutation(permutation_of(seed)),
{
    lemma_shuffle_is_permutation(seed, TABLE_SIZE as nat);
}

/// The generator is one-to-one: two states with the same successor are the
/// same state.
pub proof fn lemma_lcg_is_injective(a: i64, b: i64)
    requires
        lcg_successor(a) == lcg_successor(b),
    ensures
        a == b,
{
    let m = 0x1_0000_0000_0000_0000int;
    // The multiplier is odd, so it has an inverse modulo 2^64.
    let inverse = 13877824140714322085int;
    let carry = 4787856489426250814int;
    assert(LCG_MULTIPLIER * inverse == 1 + carry * m);
    let x = a * LCG_MULTIPLIER + LCG_INCREMENT;
    let y = b * LCG_MULTIPLIER + LCG_INCREMENT;
    lemma_fundamental_div_mod(x, m);
    lemma_fundamental_div_mod(y, m);
    assert(x % m == y % m);
    let d = a - b;
    let q = x / m - y / m;
    assert(d * LCG_MULTIPLIER == m * q);
    assert(d * LCG_MULTIPLIER * inverse == m * q * inverse);
    let t = q * inverse - d * carry;
    assert(d == m * t);
}

/// Two different seeds never reach the same generator state after the same
/// number of settled positions.
pub proof fn lemma_seeds_stay_apart(a: i64, b: i64, settled: nat)
    requires
        a != b,
    ensures
        shuffle_after(a, settled).state != shuffle_after(b, settled).state,
    decreases settled,
{
    if settled == 0 {
        if shuffle_start(a).state == shuffle_start(b).state {
            lemma_lcg_is_injective(lcg_successor(lcg_successor(a)), lcg_successor(lcg_successor(b)));
            lemma_lcg_is_injective(lcg_successor(a), lcg_successor(b));
            lemma_lcg_is_injective(a, b);
        }
    } else {
        let before = (settled - 1) as nat;
        lemma_seeds_stay_apart(a, b, before);
        if shuffle_after(a, settled).state == shuffle_after(b, settled).state {
            lemma_lcg_is_injective(shuffle_after(a, before).state, shuffle_after(b, before).state);
        }
    }
}

/// Wrapping a product and then wrapping the sum with an increment gives the
/// wrapped value of the exact sum.
proof fn lemma_wrapped_sum(product: int, increment: i64)
    ensures
        wrap_i64(wrap_i64(product) + increment) == wrap_i64(product + increment),
{
    let m = 0x1_0000_0000_0000_0000int;
    let q = product / m;
    let r = product % m;
    lemma_fundamental_div_mod(product, m);
    let w = wrap_i64(product) as int;
    assert(w == r || w == r - m);
    lemma_mod_multiples_vanish(q, r + increment, m);
    assert((product + increment) % m == (r + increment) % m);
    if w == r {
    } else {
        lemma_mod_multiples_vanish(-1, r + increment, m);
    }
}

/// Advances the generator by one step, wrapping around on overflow.
pub fn lcg_step(state: i64) -> (next: i64)
    ensures
        next == lcg_successor(state),
{
    let product: i64 = state.wrapping_mul(LCG_MULTIPLIER);
    let next: i64 = product.wrapping_add(LCG_INCREMENT);
    proof {
        let exact = state * LCG_MULTIPLIER;
        assert(product == wrap_i64(exact));
        assert(next == wrap_i64(product + LCG_INCREMENT));
        lemma_wrapped_sum(exact, LCG_INCREMENT);
    }
    next
}

/// Reduces a generator state to a position at or before `position`, by the
/// non-negative remainder.
pub fn pick_partner(state: i64, position: u8) -> (partner: u8)
    ensures
        partner == partner_of(state, position as int),
        partner <= position,
{
    let bound: i64 = position as i64 + 1;
    // The bound is positive, so the remainder always exists.
    match state.wrapping_add(PICK_OFFSET).checked_rem_euclid(bound) {
        Some(r) => r as u8,
        None => 0,
    }
}

/// Fills `table` with the permutation of `seed`, whatever it held before. A
/// table with room for 256 entries is filled without a new allocation.
pub fn fill_permutation(seed: i64, table: &mut Vec<u8>)
    ensures
        final(table)@ == permutation_of(seed),
        is_permutation(final(table)@),
{
    table.clear();
    let mut value: u8 = 0;
    while table.len() < TABLE_SIZE
        invariant
            table.len() <= TABLE_SIZE,
            value as int == table.len() % 256,
            forall|i: int| 0 <= i < table.len() ==> table[i] == i as u8,
        decreases TABLE_SIZE - table.len(),
    {
        table.push(value);
        value = value.wrapping_add(1);
    }
    assert(table@ =~= identity_table());
    let mut state: i64 = lcg_step(lcg_step(lcg_step(seed)));
    let mut settled: usize = 0;
    while settled < TABLE_SIZE
        invariant
            settled <= TABLE_SIZE,
            table@ == shuffle_after(seed, settled as nat).table,
            state == shuffle_after(seed, settled as nat).state,
            table.len() == TABLE_SIZE,
        decreases TABLE_SIZE - settled,
    {
        let position: u8 = (TABLE_SIZE - 1 - settled) as u8;
        state = lcg_step(state);
        let partner: u8 = pick_partner(state, position);
        let settled_entry: u8 = table[partner as usize];
        let moved_entry: u8 = table[position as usize];
        table.set(position as usize, settled_entry);
        table.set(partner as usize, moved_entry);
        settled = settled + 1;
    }
    proof {
        lemma_permutation_is_bijection(seed);
    }
}

/// Fills `index` with the gradient index of `table`, whatever it held
/// before. An index with room for as many entries as the table is filled
/// without a new allocation.
pub fn fill_gradient_index(table: &Vec<u8>, index: &mut Vec<u8>)
    ensures
        final(index)@ == gradient_index_of(table@),
{
    index.clear();
    while index.len() < table.len()
        invariant
            index.len() <= table.len(),
            forall|i: int| 0 <= i < index.len() ==> index[i] == gradient_index_of(table@)[i],
        decreases table.len() - index.len(),
    {
        let entry: u8 = table[index.len()];
        index.push((entry % (GRADIENT_COUNT_3D as u8)) * 3);
    }
    assert(index@ =~= gradient_index_of(table@));
}

/// Builds both tables of `seed`: the permutation and its gradient index.
/// Total over all seeds, and the same seed always gives the same tables.
pub fn build(seed: i64) -> (tables: (Vec<u8>, Vec<u8>))
    ensures
        tables.0@ == permutation_of(seed),
        tables.1@ == gradient_index_of(permutation_of(seed)),
        is_permutation(tables.0@),
{
    let mut permutation: Vec<u8> = Vec::with_capacity(TABLE_SIZE);
    let mut gradient_index: Vec<u8> = Vec::with_capacity(TABLE_SIZE);
    fill_permutation(seed, &mut permutation);
    fill_gradient_index(&permutation, &mut gradient_index);
    (permutation, gradient_index)
}

} // verus!
