//! The noise context: one seed, one noise field.
//!
//! A context owns the two tables built from its seed and never changes after
//! construction, so it can be shared freely between readers. Its lookups hash
//! a lattice point through the permutation and return the integer gradient
//! that belongs to that point.

use crate::gradients::{
    gradient_2d, gradient_3d, gradient_4d, vector_2d, vector_3d, vector_4d, GRADIENT_COUNT_2D,
    GRADIENT_COUNT_3D, GRADIENT_COUNT_4D,
};
use crate::permutation::{
    fill_gradient_index, fill_permutation, gradient_index_of, is_permutation,
    lemma_permutation_is_bijection, permutation_of, TABLE_SIZE,
};
use vstd::arithmetic::div_mod::lemma_mod_multiples_vanish;
use vstd::prelude::*;

verus! {

/// What a context is, as plain values.
pub struct ContextView {
    pub seed: i64,
    pub permutation: Seq<u8>,
    pub gradient_index: Seq<u8>,
}

/// The context of a seed.
pub open spec fn context_of(seed: i64) -> ContextView {
    ContextView {
        seed,
        permutation: permutation_of(seed),
        gradient_index: gradient_index_of(permutation_of(seed)),
    }
}

/// The table entry that a 1D lattice point hashes to.
pub open spec fn hash_1d(permutation: Seq<u8>, x: int) -> int {
    permutation[x % 256] as int
}

/// The table entry that a 2D lattice point hashes to.
pub open spec fn hash_2d(permutation: Seq<u8>, x: int, y: int) -> int {
    permutation[(hash_1d(permutation, x) + y) % 256] as int
}

/// The table entry that a 3D lattice point hashes to.
pub open spec fn hash_3d(permutation: Seq<u8>, x: int, y: int, z: int) -> int {
    permutation[(hash_2d(permutation, x, y) + z) % 256] as int
}

/// The table entry that a 4D lattice point hashes to.
pub open spec fn hash_4d(permutation: Seq<u8>, x: int, y: int, z: int, w: int) -> int {
    permutation[(hash_3d(permutation, x, y, z) + w) % 256] as int
}

/// Asks the allocator for an empty table with room for 256 entries. Whether
/// there is room is the allocator's to say; `granted` says what becomes of
/// its answer.
fn reserve_table() -> (table: Option<Vec<u8>>)
    ensures
        table matches Some(t) ==> t@.len() == 0,
{
    let mut table: Vec<u8> = Vec::new();
    let reserved: bool = table.try_reserve(TABLE_SIZE).is_ok();
    granted(table, reserved)
}

/// Asks the allocator for the storage of a context: two empty tables. Whether
/// there is room is the allocator's to say; `paired` says what becomes of its
/// two answers.
fn reserve_tables() -> (storage: Option<(Vec<u8>, Vec<u8>)>)
    ensures
        storage matches Some(s) ==> s.0@.len() == 0 && s.1@.len() == 0,
{
    let permutation: Option<Vec<u8>> = reserve_table();
    let gradient_index: Option<Vec<u8>> = reserve_table();
    paired(permutation, gradient_index)
}

/// What a reservation leaves: the table where the allocator granted the
/// room, nothing where it refused.
fn granted(table: Vec<u8>, reserved: bool) -> (storage: Option<Vec<u8>>)
    ensures
        storage is Some <==> reserved,
        storage matches Some(t) ==> t@ == table@,
{
    if reserved {
        Some(table)
    } else {
        None
    }
}

/// Two tables make the storage of a context; where either is missing there
/// is none.
fn paired(permutation: Option<Vec<u8>>, gradient_index: Option<Vec<u8>>) -> (storage: Option<
    (Vec<u8>, Vec<u8>),
>)
    ensures
        storage is Some <==> permutation is Some && gradient_index is Some,
        storage matches Some(s) ==> permutation == Some(s.0) && gradient_index == Some(s.1),
{
    match (permutation, gradient_index) {
        (Some(p), Some(g)) => Some((p, g)),
        _ => None,
    }
}

/// A seeded noise context.
pub struct OsnContext {
    seed: i64,
    perm: Vec<u8>,
    perm_grad_index_3d: Vec<u8>,
}

impl View for OsnContext {
    type V = ContextView;

    closed spec fn view(&self) -> ContextView {
        ContextView {
            seed: self.seed,
            permutation: self.perm@,
            gradient_index: self.perm_grad_index_3d@,
        }
    }
}

impl OsnContext {
    /// The tables of a context are always those of its seed.
    #[verifier::type_invariant]
    spec fn tables_match_seed(self) -> bool {
        &&& self.perm@ == permutation_of(self.seed)
        &&& self.perm_grad_index_3d@ == gradient_index_of(permutation_of(self.seed))
    }

    /// A context is well formed when its tables are those of its seed. Every
    /// context that `new` returns is, and stays so.
    pub open spec fn wf(&self) -> bool {
        self@ == context_of(self@.seed)
    }

    /// Builds the context of `seed`. Every seed is valid: the result is `None`
    /// only where the allocator has no room for the two tables.
    pub fn new(seed: i64) -> (ctx: Option<OsnContext>)
        ensures
            ctx matches Some(c) ==> c@ == context_of(seed) && c.wf(),
    {
        OsnContext::with_storage(seed, reserve_tables())
    }

    /// Builds the context of `seed` in the storage handed in, whatever it
    /// held before, and fails only where there is none.
    pub fn with_storage(seed: i64, storage: Option<(Vec<u8>, Vec<u8>)>) -> (ctx: Option<
        OsnContext,
    >)
        ensures
            ctx is Some <==> storage is Some,
            ctx matches Some(c) ==> c@ == context_of(seed) && c.wf(),
    {
        match storage {
            Some((mut perm, mut perm_grad_index_3d)) => {
                fill_permutation(seed, &mut perm);
                fill_gradient_index(&perm, &mut perm_grad_index_3d);
                Some(OsnContext { seed, perm, perm_grad_index_3d })
            },
            None => None,
        }
    }

    /// The seed the context was built from.
    pub fn seed(&self) -> (seed: i64)
        ensures
            seed == self@.seed,
            self.wf(),
    {
        proof {
            use_type_invariant(self);
        }
        self.seed
    }

    /// The permutation table: 256 entries, each byte value once.
    pub fn permutation(&self) -> (table: &Vec<u8>)
        ensures
            table@ == self@.permutation,
            table@ == permutation_of(self@.seed),
            is_permutation(table@),
    {
        proof {
            use_type_invariant(self);
            lemma_permutation_is_bijection(self.seed);
        }
        &self.perm
    }

    /// The gradient index table: for each entry of the permutation, the slot
    /// of a gradient in the flat 3D table.
    pub fn gradient_index(&self) -> (table: &Vec<u8>)
        ensures
            table@ == self@.gradient_index,
            table@ == gradient_index_of(permutation_of(self@.seed)),
    {
        proof {
            use_type_invariant(self);
        }
        &self.perm_grad_index_3d
    }

    /// One round of the hash: the table entry at `previous + coordinate`,
    /// wrapped to the table.
    fn hash_round(&self, previous: u8, coordinate: u8) -> (entry: u8)
        ensures
            entry == self@.permutation[(previous + coordinate) % 256],
    {
        proof {
            use_type_invariant(self);
            lemma_permutation_is_bijection(self.seed);
        }
        self.perm[previous.wrapping_add(coordinate) as usize]
    }

    /// The gradient of the 2D lattice point whose coordinates, wrapped to the
    /// table, are `x` and `y`.
    pub fn gradient_2d(&self, x: u8, y: u8) -> (g: (i8, i8))
        ensures
            (g.0 as int, g.1 as int) == gradient_2d(
                hash_2d(self@.permutation, x as int, y as int) % GRADIENT_COUNT_2D as int,
            ),
            self.wf(),
    {
        proof {
            use_type_invariant(self);
        }
        let hx: u8 = self.hash_round(0, x);
        let hy: u8 = self.hash_round(hx, y);
        vector_2d((hy as usize % GRADIENT_COUNT_2D) * 2)
    }

    /// The gradient of the 3D lattice point whose coordinates, wrapped to the
    /// table, are `x`, `y` and `z`; it is found through the gradient index.
    pub fn gradient_3d(&self, x: u8, y: u8, z: u8) -> (g: (i8, i8, i8))
        ensures
            (g.0 as int, g.1 as int, g.2 as int) == gradient_3d(
                hash_3d(self@.permutation, x as int, y as int, z as int)
                    % GRADIENT_COUNT_3D as int,
            ),
            self.wf(),
    {
        proof {
            use_type_invariant(self);
            lemma_permutation_is_bijection(self.seed);
        }
        let hx: u8 = self.hash_round(0, x);
        let hy: u8 = self.hash_round(hx, y);
        let slot: u8 = self.perm_grad_index_3d[hy.wrapping_add(z) as usize];
        vector_3d(slot as usize)
    }

    /// The gradient of the 4D lattice point whose coordinates, wrapped to the
    /// table, are `x`, `y`, `z` and `w`.
    pub fn gradient_4d(&self, x: u8, y: u8, z: u8, w: u8) -> (g: (i8, i8, i8, i8))
        ensures
            (g.0 as int, g.1 as int, g.2 as int, g.3 as int) == gradient_4d(
                hash_4d(self@.permutation, x as int, y as int, z as int, w as int)
                    % GRADIENT_COUNT_4D as int,
            ),
            self.wf(),
    {
        proof {
            use_type_invariant(self);
        }
        let hx: u8 = self.hash_round(0, x);
        let hy: u8 = self.hash_round(hx, y);
        let hz: u8 = self.hash_round(hy, z);
        let hw: u8 = self.hash_round(hz, w);
        vector_4d((hw as usize % GRADIENT_COUNT_4D) * 4)
    }
}

/// Two well-formed contexts of the same seed hold the same tables, and so
/// answer every lookup alike.
pub proof fn lemma_same_seed_same_context(a: OsnContext, b: OsnContext)
    requires
        a.wf(),
        b.wf(),
        a@.seed == b@.seed,
    ensures
        a@ == b@,
{
}

/// The permutation of a well-formed context is a bijection on the byte
/// values, and its gradient index holds, for every entry, the slot of a 3D
/// gradient.
pub proof fn lemma_context_tables(ctx: OsnContext)
    requires
        ctx.wf(),
    ensures
        is_permutation(ctx@.permutation),
        ctx@.gradient_index.len() == ctx@.permutation.len(),
        forall|i: int|
            0 <= i < ctx@.permutation.len() ==> #[trigger] ctx@.gradient_index[i] as int == (
            ctx@.permutation[i] as int % GRADIENT_COUNT_3D as int) * 3,
{
    lemma_permutation_is_bijection(ctx@.seed);
}

/// A lattice point hashes as the point 256 further along any axis does.
pub proof fn lemma_hash_periodic(
    permutation: Seq<u8>,
    x: int,
    y: int,
    z: int,
    w: int,
    kx: int,
    ky: int,
    kz: int,
    kw: int,
)
    ensures
        hash_4d(permutation, x + 256 * kx, y + 256 * ky, z + 256 * kz, w + 256 * kw) == hash_4d(
            permutation,
            x,
            y,
            z,
            w,
        ),
        hash_3d(permutation, x + 256 * kx, y + 256 * ky, z + 256 * kz) == hash_3d(
            permutation,
            x,
            y,
            z,
        ),
        hash_2d(permutation, x + 256 * kx, y + 256 * ky) == hash_2d(permutation, x, y),
{
    lemma_mod_multiples_vanish(kx, x, 256);
    let h1 = hash_1d(permutation, x);
    lemma_mod_multiples_vanish(ky, h1 + y, 256);
    let h2 = hash_2d(permutation, x, y);
    lemma_mod_multiples_vanish(kz, h2 + z, 256);
    let h3 = hash_3d(permutation, x, y, z);
    lemma_mod_multiples_vanish(kw, h3 + w, 256);
}

} // verus!
