//! The gradient tables.
//!
//! One constant table for each supported dimension, stored flat: the
//! components of gradient `k` of the `N`-dimensional table stand at the slots
//! `N * k .. N * k + N`. Within a table every gradient has the same length, and
//! gradient `count - 1 - k` is the opposite of gradient `k`, so the gradients
//! of a table sum to zero.

use vstd::prelude::*;

verus! {

/// Number of gradients in the 2D table.
pub const GRADIENT_COUNT_2D: usize = 8;

/// Number of gradients in the 3D table.
pub const GRADIENT_COUNT_3D: usize = 12;

/// Number of gradients in the 4D table.
pub const GRADIENT_COUNT_4D: usize = 32;

/// Squared length of every 2D gradient.
pub const GRADIENT_NORM_2D: i32 = 29;

/// Squared length of every 3D gradient.
pub const GRADIENT_NORM_3D: i32 = 2;

/// Squared length of every 4D gradient.
pub const GRADIENT_NORM_4D: i32 = 3;

/// The 2D gradients: the eight vectors with components 2 and 5 in either
/// order and with any signs.
pub const GRADIENTS_2D: [i8; 16] = [
    5, 2,  2, 5,  -5, 2,  -2, 5,
    2, -5,  5, -2,  -2, -5,  -5, -2,
];

/// The 3D gradients: from the centre of a cube to the midpoints of its twelve
/// edges.
pub const GRADIENTS_3D: [i8; 36] = [
    1, 1, 0,  1, -1, 0,  1, 0, 1,  1, 0, -1,  0, 1, 1,  0, 1, -1,
    0, -1, 1,  0, -1, -1,  -1, 0, 1,  -1, 0, -1,  -1, 1, 0,  -1, -1, 0,
];

/// The 4D gradients: the thirty-two vectors with one component zero and the
/// other three of magnitude one.
pub const GRADIENTS_4D: [i8; 128] = [
    0, 1, 1, 1,  0, 1, 1, -1,  0, 1, -1, 1,  0, 1, -1, -1,
    1, 0, 1, 1,  1, 0, 1, -1,  1, 0, -1, 1,  1, 0, -1, -1,
    1, 1, 0, 1,  1, 1, 0, -1,  1, -1, 0, 1,  1, -1, 0, -1,
    1, 1, 1, 0,  1, 1, -1, 0,  1, -1, 1, 0,  1, -1, -1, 0,
    -1, 1, 1, 0,  -1, 1, -1, 0,  -1, -1, 1, 0,  -1, -1, -1, 0,
    -1, 1, 0, 1,  -1, 1, 0, -1,  -1, -1, 0, 1,  -1, -1, 0, -1,
    -1, 0, 1, 1,  -1, 0, 1, -1,  -1, 0, -1, 1,  -1, 0, -1, -1,
    0, -1, 1, 1,  0, -1, 1, -1,  0, -1, -1, 1,  0, -1, -1, -1,
];

/// Gradient `k` of the 2D table.
pub open spec fn gradient_2d(k: int) -> (int, int) {
    (GRADIENTS_2D[2 * k] as int, GRADIENTS_2D[2 * k + 1] as int)
}

/// Gradient `k` of the 3D table.
pub open spec fn gradient_3d(k: int) -> (int, int, int) {
    (GRADIENTS_3D[3 * k] as int, GRADIENTS_3D[3 * k + 1] as int, GRADIENTS_3D[3 * k + 2] as int)
}

/// Gradient `k` of the 4D table.
pub open spec fn gradient_4d(k: int) -> (int, int, int, int) {
    (
        GRADIENTS_4D[4 * k] as int,
        GRADIENTS_4D[4 * k + 1] as int,
        GRADIENTS_4D[4 * k + 2] as int,
        GRADIENTS_4D[4 * k + 3] as int,
    )
}

/// Every 2D gradient has squared length 29, and gradient `7 - k` is the
/// opposite of gradient `k`.
pub proof fn lemma_gradients_2d_balanced(k: int)
    requires
        0 <= k < GRADIENT_COUNT_2D,
    ensures
        ({
            let g = gradient_2d(k);
            g.0 * g.0 + g.1 * g.1 == GRADIENT_NORM_2D
        }),
        ({
            let g = gradient_2d(k);
            gradient_2d(GRADIENT_COUNT_2D - 1 - k) == (-g.0, -g.1)
        }),
{
    let (x, y) = gradient_2d(k);
    assert(x * x + y * y == 29) by (nonlinear_arith)
        requires
            (x == 5 || x == -5) && (y == 2 || y == -2) || (x == 2 || x == -2) && (y == 5 || y
                == -5),
    ;
}

/// Every 3D gradient has squared length 2, and gradient `11 - k` is the
/// opposite of gradient `k`.
pub proof fn lemma_gradients_3d_balanced(k: int)
    requires
        0 <= k < GRADIENT_COUNT_3D,
    ensures
        ({
            let g = gradient_3d(k);
            g.0 * g.0 + g.1 * g.1 + g.2 * g.2 == GRADIENT_NORM_3D
        }),
        ({
            let g = gradient_3d(k);
            gradient_3d(GRADIENT_COUNT_3D - 1 - k) == (-g.0, -g.1, -g.2)
        }),
{
    let (x, y, z) = gradient_3d(k);
    assert(x * x + y * y + z * z == 2) by (nonlinear_arith)
        requires
            -1 <= x <= 1,
            -1 <= y <= 1,
            -1 <= z <= 1,
            (x == 0 && y != 0 && z != 0) || (x != 0 && y == 0 && z != 0) || (x != 0 && y != 0
                && z == 0),
    ;
}

/// Every 4D gradient has squared length 3, and gradient `31 - k` is the
/// opposite of gradient `k`.
pub proof fn lemma_gradients_4d_balanced(k: int)
    requires
        0 <= k < GRADIENT_COUNT_4D,
    ensures
        ({
            let g = gradient_4d(k);
            g.0 * g.0 + g.1 * g.1 + g.2 * g.2 + g.3 * g.3 == GRADIENT_NORM_4D
        }),
        ({
            let g = gradient_4d(k);
            gradient_4d(GRADIENT_COUNT_4D - 1 - k) == (-g.0, -g.1, -g.2, -g.3)
        }),
{
    let (x, y, z, w) = gradient_4d(k);
    assert(x * x + y * y + z * z + w * w == 3) by (nonlinear_arith)
        requires
            -1 <= x <= 1,
            -1 <= y <= 1,
            -1 <= z <= 1,
            -1 <= w <= 1,
            (x == 0 && y != 0 && z != 0 && w != 0) || (x != 0 && y == 0 && z != 0 && w != 0) || (
            x != 0 && y != 0 && z == 0 && w != 0) || (x != 0 && y != 0 && z != 0 && w == 0),
    ;
}

/// Reads the two components that start at `slot` of the 2D table: for an
/// even slot, gradient `slot / 2`.
pub fn vector_2d(slot: usize) -> (g: (i8, i8))
    requires
        slot + 2 <= 2 * GRADIENT_COUNT_2D,
    ensures
        g.0 == GRADIENTS_2D[slot as int],
        g.1 == GRADIENTS_2D[slot + 1],
{
    (GRADIENTS_2D[slot], GRADIENTS_2D[slot + 1])
}

/// Reads the three components that start at `slot` of the 3D table: for a
/// slot that is a multiple of three, gradient `slot / 3`.
pub fn vector_3d(slot: usize) -> (g: (i8, i8, i8))
    requires
        slot + 3 <= 3 * GRADIENT_COUNT_3D,
    ensures
        g.0 == GRADIENTS_3D[slot as int],
        g.1 == GRADIENTS_3D[slot + 1],
        g.2 == GRADIENTS_3D[slot + 2],
{
    (GRADIENTS_3D[slot], GRADIENTS_3D[slot + 1], GRADIENTS_3D[slot + 2])
}

/// Reads the four components that start at `slot` of the 4D table: for a
/// slot that is a multiple of four, gradient `slot / 4`.
pub fn vector_4d(slot: usize) -> (g: (i8, i8, i8, i8))
    requires
        slot + 4 <= 4 * GRADIENT_COUNT_4D,
    ensures
        g.0 == GRADIENTS_4D[slot as int],
        g.1 == GRADIENTS_4D[slot + 1],
        g.2 == GRADIENTS_4D[slot + 2],
        g.3 == GRADIENTS_4D[slot + 3],
{
    (GRADIENTS_4D[slot], GRADIENTS_4D[slot + 1], GRADIENTS_4D[slot + 2], GRADIENTS_4D[slot + 3])
}

} // verus!
