//! Lattice coordinates.
//!
//! The noise lattice is the integer grid of the skewed space. A query point
//! lies in the unit cell whose origin is the floor of its skewed coordinates.
//! Unskewing adds to every coordinate the same multiple `q` of the sum of the
//! coordinates, with `q * (2 + n * q) == 1` in `n` dimensions, so the squared
//! length of an unskewed displacement is the sum of the squares of its lattice
//! coordinates plus the square of their sum.
//!
//! The falloff of a lattice point vanishes at distance `sqrt(2)`, so only
//! points close to the cell can contribute: the cell's own corners, and the
//! points one step outside it along a single axis that are balanced by a
//! corner coordinate on the far side. The tables have 256 entries, so a
//! lattice coordinate enters a lookup by its non-negative remainder.

use vstd::prelude::*;

verus! {

/// Squared radius beyond which a lattice point contributes nothing.
pub const REACH_SQUARED: u8 = 2;

/// A coordinate of a corner of the unit cell.
pub open spec fn is_corner(c: int) -> bool {
    c == 0 || c == 1
}

/// The offsets from a cell's origin that the query points of that cell can
/// reach: every coordinate lies in `-1 ..= 2`, at most one of them lies
/// outside the cell, a `-1` goes with a `1` on another axis, and a `2` with a
/// `0`.
pub open spec fn within_reach(offset: Seq<int>) -> bool {
    &&& forall|i: int| 0 <= i < offset.len() ==> -1 <= #[trigger] offset[i] <= 2
    &&& forall|i: int, j: int|
        0 <= i < j < offset.len() ==> is_corner(#[trigger] offset[i]) || is_corner(
            #[trigger] offset[j],
        )
    &&& offset.contains(-1) ==> offset.contains(1)
    &&& offset.contains(2) ==> offset.contains(0)
}

/// Squared length, in the unskewed space, of a 2D displacement given in
/// lattice coordinates.
pub open spec fn distance_squared_2d(dx: real, dy: real) -> real {
    dx * dx + dy * dy + (dx + dy) * (dx + dy)
}

/// Squared length, in the unskewed space, of a 3D displacement given in
/// lattice coordinates.
pub open spec fn distance_squared_3d(dx: real, dy: real, dz: real) -> real {
    dx * dx + dy * dy + dz * dz + (dx + dy + dz) * (dx + dy + dz)
}

/// Squared length, in the unskewed space, of a 4D displacement given in
/// lattice coordinates.
pub open spec fn distance_squared_4d(dx: real, dy: real, dz: real, dw: real) -> real {
    dx * dx + dy * dy + dz * dz + dw * dw + (dx + dy + dz + dw) * (dx + dy + dz + dw)
}

/// Whether the query point at the fractional position `(fx, fy)` of a cell
/// is closer than `sqrt(2)` to the lattice point at the offset `(cx, cy)` from
/// the cell's origin.
pub open spec fn reaches_2d(fx: real, fy: real, cx: int, cy: int) -> bool {
    &&& 0real <= fx < 1real
    &&& 0real <= fy < 1real
    &&& distance_squared_2d(fx - (cx as real), fy - (cy as real)) < REACH_SQUARED as real
}

/// Whether the query point at the fractional position `(fx, fy, fz)` of a
/// cell is closer than `sqrt(2)` to the lattice point at the offset
/// `(cx, cy, cz)` from the cell's origin.
pub open spec fn reaches_3d(fx: real, fy: real, fz: real, cx: int, cy: int, cz: int) -> bool {
    &&& 0real <= fx < 1real
    &&& 0real <= fy < 1real
    &&& 0real <= fz < 1real
    &&& distance_squared_3d(fx - (cx as real), fy - (cy as real), fz - (cz as real))
        < REACH_SQUARED as real
}

/// Whether the query point at the fractional position `(fx, fy, fz, fw)` of a
/// cell is closer than `sqrt(2)` to the lattice point at the offset
/// `(cx, cy, cz, cw)` from the cell's origin.
pub open spec fn reaches_4d(
    fx: real,
    fy: real,
    fz: real,
    fw: real,
    cx: int,
    cy: int,
    cz: int,
    cw: int,
) -> bool {
    &&& 0real <= fx < 1real
    &&& 0real <= fy < 1real
    &&& 0real <= fz < 1real
    &&& 0real <= fw < 1real
    &&& distance_squared_4d(
        fx - (cx as real),
        fy - (cy as real),
        fz - (cz as real),
        fw - (cw as real),
    ) < REACH_SQUARED as real
}

/// The offsets within reach, spelled out for two coordinates.
proof fn lemma_within_reach_2d(cx: int, cy: int)
    ensures
        within_reach(seq![cx, cy]) <==> {
            &&& -1 <= cx <= 2
            &&& -1 <= cy <= 2
            &&& is_corner(cx) || is_corner(cy)
            &&& (cx == -1 || cy == -1) ==> (cx == 1 || cy == 1)
            &&& (cx == 2 || cy == 2) ==> (cx == 0 || cy == 0)
        },
{
    let s = seq![cx, cy];
    assert(s[0] == cx && s[1] == cy);
    assert(s.contains(-1) == (cx == -1 || cy == -1));
    assert(s.contains(2) == (cx == 2 || cy == 2));
    assert(s.contains(1) == (cx == 1 || cy == 1));
    assert(s.contains(0) == (cx == 0 || cy == 0));
}

/// The offsets within reach, spelled out for three coordinates.
proof fn lemma_within_reach_3d(cx: int, cy: int, cz: int)
    ensures
        within_reach(seq![cx, cy, cz]) <==> {
            &&& -1 <= cx <= 2
            &&& -1 <= cy <= 2
            &&& -1 <= cz <= 2
            &&& is_corner(cx) || is_corner(cy)
            &&& is_corner(cx) || is_corner(cz)
            &&& is_corner(cy) || is_corner(cz)
            &&& (cx == -1 || cy == -1 || cz == -1) ==> (cx == 1 || cy == 1 || cz == 1)
            &&& (cx == 2 || cy == 2 || cz == 2) ==> (cx == 0 || cy == 0 || cz == 0)
        },
{
    let s = seq![cx, cy, cz];
    assert(s[0] == cx && s[1] == cy && s[2] == cz);
    assert(s.contains(-1) == (cx == -1 || cy == -1 || cz == -1));
    assert(s.contains(2) == (cx == 2 || cy == 2 || cz == 2));
    assert(s.contains(1) == (cx == 1 || cy == 1 || cz == 1));
    assert(s.contains(0) == (cx == 0 || cy == 0 || cz == 0));
}

/// The offsets within reach, spelled out for four coordinates.
proof fn lemma_within_reach_4d(cx: int, cy: int, cz: int, cw: int)
    ensures
        within_reach(seq![cx, cy, cz, cw]) <==> {
            &&& -1 <= cx <= 2
            &&& -1 <= cy <= 2
            &&& -1 <= cz <= 2
            &&& -1 <= cw <= 2
            &&& is_corner(cx) || is_corner(cy)
            &&& is_corner(cx) || is_corner(cz)
            &&& is_corner(cx) || is_corner(cw)
            &&& is_corner(cy) || is_corner(cz)
            &&& is_corner(cy) || is_corner(cw)
            &&& is_corner(cz) || is_corner(cw)
            &&& (cx == -1 || cy == -1 || cz == -1 || cw == -1) ==> (cx == 1 || cy == 1 || cz == 1
                || cw == 1)
            &&& (cx == 2 || cy == 2 || cz == 2 || cw == 2) ==> (cx == 0 || cy == 0 || cz == 0
                || cw == 0)
        },
{
    let s = seq![cx, cy, cz, cw];
    assert(s[0] == cx && s[1] == cy && s[2] == cz && s[3] == cw);
    assert(s.contains(-1) == (cx == -1 || cy == -1 || cz == -1 || cw == -1));
    assert(s.contains(2) == (cx == 2 || cy == 2 || cz == 2 || cw == 2));
    assert(s.contains(1) == (cx == 1 || cy == 1 || cz == 1 || cw == 1));
    assert(s.contains(0) == (cx == 0 || cy == 0 || cz == 0 || cw == 0));
}

/// A coordinate of a displacement shorter than `sqrt(2)` from a point of the
/// unit cell lies in `-1 ..= 2`; outside the cell its square is at least one.
proof fn lemma_axis_bound(f: real, c: int)
    by (nonlinear_arith)
    requires
        0real <= f < 1real,
        (f - (c as real)) * (f - (c as real)) < 2real,
    ensures
        -1 <= c <= 2,
        !is_corner(c) ==> (f - (c as real)) * (f - (c as real)) >= 1real,
        c == -1 ==> f - (c as real) >= 1real,
        c == 2 ==> f - (c as real) <= -1real,
        c <= 0 ==> f - (c as real) >= 0real,
        c >= 1 ==> f - (c as real) < 0real,
{
}

/// A square is never negative.
proof fn lemma_square_nonnegative(d: real)
    by (nonlinear_arith)
    ensures
        d * d >= 0real,
{
}

/// A sum whose square is below one, one of whose terms is at least one, has a
/// negative rest; with a term at most minus one, a positive rest.
proof fn lemma_balance(d: real, rest: real)
    by (nonlinear_arith)
    requires
        d * d + (d + rest) * (d + rest) < 2real,
    ensures
        d >= 1real ==> rest < 0real,
        d <= -1real ==> rest > 0real,
{
}

/// In 2D, a lattice point closer than `sqrt(2)` to a query point lies within
/// reach of the query point's cell.
pub proof fn lemma_reach_covers_2d(fx: real, fy: real, cx: int, cy: int)
    requires
        reaches_2d(fx, fy, cx, cy),
    ensures
        within_reach(seq![cx, cy]),
{
    let dx = fx - (cx as real);
    let dy = fy - (cy as real);
    lemma_square_nonnegative(dx);
    lemma_square_nonnegative(dy);
    lemma_square_nonnegative(dx + dy);
    lemma_axis_bound(fx, cx);
    lemma_axis_bound(fy, cy);
    lemma_balance(dx, dy);
    lemma_balance(dy, dx);
    lemma_within_reach_2d(cx, cy);
}

/// In 3D, a lattice point closer than `sqrt(2)` to a query point lies within
/// reach of the query point's cell.
pub proof fn lemma_reach_covers_3d(fx: real, fy: real, fz: real, cx: int, cy: int, cz: int)
    requires
        reaches_3d(fx, fy, fz, cx, cy, cz),
    ensures
        within_reach(seq![cx, cy, cz]),
{
    let dx = fx - (cx as real);
    let dy = fy - (cy as real);
    let dz = fz - (cz as real);
    lemma_square_nonnegative(dx);
    lemma_square_nonnegative(dy);
    lemma_square_nonnegative(dz);
    lemma_square_nonnegative(dx + dy + dz);
    lemma_axis_bound(fx, cx);
    lemma_axis_bound(fy, cy);
    lemma_axis_bound(fz, cz);
    lemma_balance(dx, dy + dz);
    lemma_balance(dy, dx + dz);
    lemma_balance(dz, dx + dy);
    lemma_within_reach_3d(cx, cy, cz);
}

/// In 4D, a lattice point closer than `sqrt(2)` to a query point lies within
/// reach of the query point's cell.
pub proof fn lemma_reach_covers_4d(
    fx: real,
    fy: real,
    fz: real,
    fw: real,
    cx: int,
    cy: int,
    cz: int,
    cw: int,
)
    requires
        reaches_4d(fx, fy, fz, fw, cx, cy, cz, cw),
    ensures
        within_reach(seq![cx, cy, cz, cw]),
{
    let dx = fx - (cx as real);
    let dy = fy - (cy as real);
    let dz = fz - (cz as real);
    let dw = fw - (cw as real);
    lemma_square_nonnegative(dx);
    lemma_square_nonnegative(dy);
    lemma_square_nonnegative(dz);
    lemma_square_nonnegative(dw);
    lemma_square_nonnegative(dx + dy + dz + dw);
    lemma_axis_bound(fx, cx);
    lemma_axis_bound(fy, cy);
    lemma_axis_bound(fz, cz);
    lemma_axis_bound(fw, cw);
    lemma_balance(dx, dy + dz + dw);
    lemma_balance(dy, dx + dz + dw);
    lemma_balance(dz, dx + dy + dw);
    lemma_balance(dw, dx + dy + dz);
    lemma_within_reach_4d(cx, cy, cz, cw);
}

/// A fractional coordinate from which an offset within reach is reached:
/// close to the far side of the cell where the offset steps above it, at the
/// near side where it does not.
spec fn vantage(c: int, above: bool) -> real {
    if above {
        if c == 0 {
            1real / 4real
        } else {
            63real / 64real
        }
    } else {
        if c == 1 {
            3real / 4real
        } else {
            0real
        }
    }
}

/// The displacement from the vantage coordinate to the offset's coordinate,
/// and its square.
proof fn lemma_vantage(c: int, above: bool) -> (d: real)
    by (nonlinear_arith)
    requires
        -1 <= c <= 2,
        above ==> c >= 0,
        !above ==> c <= 1,
    ensures
        d == vantage(c, above) - (c as real),
        0real <= vantage(c, above) < 1real,
        above && c == 0 ==> 4real * d == 1real && 16real * (d * d) == 1real,
        above && c == 1 ==> 64real * d == -1real && 4096real * (d * d) == 1real,
        above && c == 2 ==> 64real * d == -65real && 4096real * (d * d) == 4225real,
        !above && c == 1 ==> 4real * d == -1real && 16real * (d * d) == 1real,
        !above && c == 0 ==> d == 0real && d * d == 0real,
        !above && c == -1 ==> d == 1real && d * d == 1real,
{
    vantage(c, above) - (c as real)
}

/// The square of the sum of the displacements from the vantage point, scaled
/// by 16: at most 11 where the offset steps above the cell, at most 9 where
/// it steps below, at most 16 where it is a corner.
proof fn lemma_vantage_sum(t: real, above: bool, below: bool)
    by (nonlinear_arith)
    requires
        above ==> -51real <= 64real * t <= -17real,
        below ==> 1real <= 4real * t <= 3real,
        !above && !below ==> -1real <= t <= 0real,
    ensures
        above ==> 16real * (t * t) <= 11real,
        below ==> 16real * (t * t) <= 9real,
        !above && !below ==> 16real * (t * t) <= 16real,
{
}

/// In 2D, every offset within reach is closer than `sqrt(2)` to some query
/// point of the cell.
pub proof fn lemma_reach_is_tight_2d(cx: int, cy: int)
    requires
        within_reach(seq![cx, cy]),
    ensures
        exists|fx: real, fy: real| reaches_2d(fx, fy, cx, cy),
{
    lemma_within_reach_2d(cx, cy);
    let above = cx == 2 || cy == 2;
    let below = cx == -1 || cy == -1;
    let dx = lemma_vantage(cx, above);
    let dy = lemma_vantage(cy, above);
    lemma_vantage_sum(dx + dy, above, below);
    assert(reaches_2d(vantage(cx, above), vantage(cy, above), cx, cy));
}

/// In 3D, every offset within reach is closer than `sqrt(2)` to some query
/// point of the cell.
pub proof fn lemma_reach_is_tight_3d(cx: int, cy: int, cz: int)
    requires
        within_reach(seq![cx, cy, cz]),
    ensures
        exists|fx: real, fy: real, fz: real| reaches_3d(fx, fy, fz, cx, cy, cz),
{
    lemma_within_reach_3d(cx, cy, cz);
    let above = cx == 2 || cy == 2 || cz == 2;
    let below = cx == -1 || cy == -1 || cz == -1;
    let dx = lemma_vantage(cx, above);
    let dy = lemma_vantage(cy, above);
    let dz = lemma_vantage(cz, above);
    lemma_vantage_sum(dx + dy + dz, above, below);
    assert(reaches_3d(vantage(cx, above), vantage(cy, above), vantage(cz, above), cx, cy, cz));
}

/// In 4D, every offset within reach is closer than `sqrt(2)` to some query
/// point of the cell.
pub proof fn lemma_reach_is_tight_4d(cx: int, cy: int, cz: int, cw: int)
    requires
        within_reach(seq![cx, cy, cz, cw]),
    ensures
        exists|fx: real, fy: real, fz: real, fw: real|
            reaches_4d(fx, fy, fz, fw, cx, cy, cz, cw),
{
    lemma_within_reach_4d(cx, cy, cz, cw);
    let above = cx == 2 || cy == 2 || cz == 2 || cw == 2;
    let below = cx == -1 || cy == -1 || cz == -1 || cw == -1;
    let dx = lemma_vantage(cx, above);
    let dy = lemma_vantage(cy, above);
    let dz = lemma_vantage(cz, above);
    let dw = lemma_vantage(cw, above);
    lemma_vantage_sum(dx + dy + dz + dw, above, below);
    assert(reaches_4d(
        vantage(cx, above),
        vantage(cy, above),
        vantage(cz, above),
        vantage(cw, above),
        cx,
        cy,
        cz,
        cw,
    ));
}

/// One for a coordinate outside the unit cell, zero for a corner coordinate.
fn outside_count(c: i8) -> (n: u8)
    ensures
        n == if is_corner(c as int) { 0int } else { 1int },
{
    if c == 0 || c == 1 {
        0
    } else {
        1
    }
}

/// Whether a 2D offset is within reach of a cell.
pub fn within_reach_2d(cx: i8, cy: i8) -> (b: bool)
    ensures
        b == within_reach(seq![cx as int, cy as int]),
{
    proof {
        lemma_within_reach_2d(cx as int, cy as int);
    }
    let in_range: bool = -1 <= cx && cx <= 2 && -1 <= cy && cy <= 2;
    let outside: u8 = outside_count(cx) + outside_count(cy);
    let below: bool = cx == -1 || cy == -1;
    let above: bool = cx == 2 || cy == 2;
    let one: bool = cx == 1 || cy == 1;
    let zero: bool = cx == 0 || cy == 0;
    in_range && outside <= 1 && (!below || one) && (!above || zero)
}

/// Whether a 3D offset is within reach of a cell.
pub fn within_reach_3d(cx: i8, cy: i8, cz: i8) -> (b: bool)
    ensures
        b == within_reach(seq![cx as int, cy as int, cz as int]),
{
    proof {
        lemma_within_reach_3d(cx as int, cy as int, cz as int);
    }
    let in_range: bool = -1 <= cx && cx <= 2 && -1 <= cy && cy <= 2 && -1 <= cz && cz <= 2;
    let outside: u8 = outside_count(cx) + outside_count(cy) + outside_count(cz);
    let below: bool = cx == -1 || cy == -1 || cz == -1;
    let above: bool = cx == 2 || cy == 2 || cz == 2;
    let one: bool = cx == 1 || cy == 1 || cz == 1;
    let zero: bool = cx == 0 || cy == 0 || cz == 0;
    in_range && outside <= 1 && (!below || one) && (!above || zero)
}

/// Whether a 4D offset is within reach of a cell.
pub fn within_reach_4d(cx: i8, cy: i8, cz: i8, cw: i8) -> (b: bool)
    ensures
        b == within_reach(seq![cx as int, cy as int, cz as int, cw as int]),
{
    proof {
        lemma_within_reach_4d(cx as int, cy as int, cz as int, cw as int);
    }
    let in_range: bool = -1 <= cx && cx <= 2 && -1 <= cy && cy <= 2 && -1 <= cz && cz <= 2 && -1
        <= cw && cw <= 2;
    let outside: u8 = outside_count(cx) + outside_count(cy) + outside_count(cz) + outside_count(
        cw,
    );
    let below: bool = cx == -1 || cy == -1 || cz == -1 || cw == -1;
    let above: bool = cx == 2 || cy == 2 || cz == 2 || cw == 2;
    let one: bool = cx == 1 || cy == 1 || cz == 1 || cw == 1;
    let zero: bool = cx == 0 || cy == 0 || cz == 0 || cw == 0;
    in_range && outside <= 1 && (!below || one) && (!above || zero)
}

/// The table index of the lattice coordinate `cell + offset`: its
/// non-negative remainder modulo 256, also where the coordinate is negative.
pub fn wrap_coordinate(cell: i64, offset: i8) -> (index: u8)
    ensures
        index == (cell + offset) % 256,
{
    let low: i64 = cell & 0xff;
    assert(0 <= low < 256 && low == cell % 256) by (bit_vector)
        requires
            low == cell & 0xff,
    ;
    let shifted: i64 = low + offset as i64;
    let index: i64 = shifted & 0xff;
    assert(0 <= index < 256 && index == shifted % 256) by (bit_vector)
        requires
            index == shifted & 0xff,
    ;
    index as u8
}

} // verus!
