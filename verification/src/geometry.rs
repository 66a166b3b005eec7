//! Signed edge functions and barycentric coverage on the integer pixel grid.
//!
//! A triangle is given by three projected screen points. The signed edge
//! function `edge_fn(a, b, p)` is the 2D cross product of `b - a` and
//! `p - a`; taken over the three vertex pairs it yields the (doubled, signed)
//! triangle area and the three barycentric weights of a pixel. A pixel is
//! covered when the three weights all carry the sign of the area (zero
//! included, so edges are inclusive); a zero-area triangle covers nothing.
//!
//! Contracts speak of the weights oriented by the area's sign
//! ([`oriented`]): for a covered pixel the oriented weights are nonnegative
//! and sum exactly to the area's absolute value, so interpolation divides
//! nonnegative weights by a positive total whatever the triangle's winding.
//!
//! All coordinates are bounded by [`COORD_BOUND`] so that every edge function
//! and every interpolation numerator fits in an `i64`.

use vstd::prelude::*;
use vstd::arithmetic::mul::*;

verus! {

/// Largest magnitude a screen or carried coordinate may have.
pub const COORD_BOUND: i64 = 262144;

/// Largest magnitude an edge function over in-bound points may have:
/// `8 * COORD_BOUND * COORD_BOUND`.
pub const EDGE_BOUND: i64 = 549755813888;

/// Whether one coordinate is within the grid the rasterizer works on.
pub open spec fn in_coord(c: int) -> bool {
    -(COORD_BOUND as int) <= c <= COORD_BOUND as int
}

/// The signed edge function: the cross product of `b - a` and `p - a`.
/// Positive when `p` lies to one side of the directed line `a -> b`,
/// negative on the other, zero on the line itself.
pub open spec fn edge_fn(ax: int, ay: int, bx: int, by: int, px: int, py: int) -> int {
    (bx - ax) * (py - ay) - (by - ay) * (px - ax)
}

/// The doubled signed area of the triangle `(1, 2, 3)`.
pub open spec fn tri_area(x1: int, y1: int, x2: int, y2: int, x3: int, y3: int) -> int {
    edge_fn(x1, y1, x2, y2, x3, y3)
}

/// The (unnormalized) barycentric weight of vertex 1 at pixel `p`.
pub open spec fn weight1(x1: int, y1: int, x2: int, y2: int, x3: int, y3: int, px: int, py: int) -> int {
    edge_fn(x2, y2, x3, y3, px, py)
}

/// The (unnormalized) barycentric weight of vertex 2 at pixel `p`.
pub open spec fn weight2(x1: int, y1: int, x2: int, y2: int, x3: int, y3: int, px: int, py: int) -> int {
    edge_fn(x3, y3, x1, y1, px, py)
}

/// The (unnormalized) barycentric weight of vertex 3 at pixel `p`.
pub open spec fn weight3(x1: int, y1: int, x2: int, y2: int, x3: int, y3: int, px: int, py: int) -> int {
    edge_fn(x1, y1, x2, y2, px, py)
}

/// A weight oriented by the area's sign: negated when the area is negative,
/// so that a weight "on the area's side" becomes nonnegative.
pub open spec fn oriented(w: int, area: int) -> int {
    if area >= 0 {
        w
    } else {
        -w
    }
}

/// The absolute value of the doubled signed area.
pub open spec fn abs_area(x1: int, y1: int, x2: int, y2: int, x3: int, y3: int) -> int {
    let area = tri_area(x1, y1, x2, y2, x3, y3);
    if area >= 0 {
        area
    } else {
        -area
    }
}

/// Whether the pixel `(px, py)` is covered by the triangle: the triangle has
/// nonzero area and all three barycentric weights carry the area's sign
/// (zero included, so edges and corners are inclusive).
pub open spec fn covered(x1: int, y1: int, x2: int, y2: int, x3: int, y3: int, px: int, py: int) -> bool {
    let area = tri_area(x1, y1, x2, y2, x3, y3);
    &&& area != 0
    &&& oriented(weight1(x1, y1, x2, y2, x3, y3, px, py), area) >= 0
    &&& oriented(weight2(x1, y1, x2, y2, x3, y3, px, py), area) >= 0
    &&& oriented(weight3(x1, y1, x2, y2, x3, y3, px, py), area) >= 0
}

/// The product of two values is bounded by the product of their bounds.
pub proof fn lemma_abs_mul_le(a: int, b: int, abound: int, bbound: int) by (nonlinear_arith)
    requires
        -abound <= a <= abound,
        -bbound <= b <= bbound,
        0 <= abound,
        0 <= bbound,
    ensures
        -(abound * bbound) <= a * b <= abound * bbound,
{
}

/// The raw polynomial form of [`lemma_weights_sum_to_area`].
proof fn lemma_sum_identity_raw(x1: int, y1: int, x2: int, y2: int, x3: int, y3: int, px: int, py: int)
    ensures
        ((x3 - x2) * (py - y2) - (y3 - y2) * (px - x2))
            + ((x1 - x3) * (py - y3) - (y1 - y3) * (px - x3))
            + ((x2 - x1) * (py - y1) - (y2 - y1) * (px - x1))
            == (x2 - x1) * (y3 - y1) - (y2 - y1) * (x3 - x1),
{
    broadcast use group_mul_is_commutative_and_distributive;
}

/// The three barycentric weights of any pixel sum exactly to the doubled
/// signed triangle area: normalized by the area they sum exactly to one.
pub proof fn lemma_weights_sum_to_area(x1: int, y1: int, x2: int, y2: int, x3: int, y3: int, px: int, py: int)
    ensures
        weight1(x1, y1, x2, y2, x3, y3, px, py)
            + weight2(x1, y1, x2, y2, x3, y3, px, py)
            + weight3(x1, y1, x2, y2, x3, y3, px, py)
            == tri_area(x1, y1, x2, y2, x3, y3),
{
    lemma_sum_identity_raw(x1, y1, x2, y2, x3, y3, px, py);
}

/// The oriented weights of any pixel are the weights of either the triangle
/// or its reversal, and sum exactly to the area's absolute value. Together
/// with coverage (each oriented weight nonnegative) this is the
/// exact-arithmetic form of the classical barycentric partition of unity.
pub proof fn lemma_oriented_weights_sum(x1: int, y1: int, x2: int, y2: int, x3: int, y3: int, px: int, py: int)
    ensures
        oriented(weight1(x1, y1, x2, y2, x3, y3, px, py), tri_area(x1, y1, x2, y2, x3, y3))
            + oriented(weight2(x1, y1, x2, y2, x3, y3, px, py), tri_area(x1, y1, x2, y2, x3, y3))
            + oriented(weight3(x1, y1, x2, y2, x3, y3, px, py), tri_area(x1, y1, x2, y2, x3, y3))
            == abs_area(x1, y1, x2, y2, x3, y3),
{
    lemma_weights_sum_to_area(x1, y1, x2, y2, x3, y3, px, py);
}

/// An edge function may be recentred on the query point: it equals the cross
/// product of the two vertex offsets from that point.
proof fn lemma_edge_fn_recentre(ax: int, ay: int, bx: int, by: int, px: int, py: int)
    ensures
        edge_fn(ax, ay, bx, by, px, py) == (ax - px) * (by - py) - (ay - py) * (bx - px),
{
    broadcast use group_mul_is_commutative_and_distributive;
}

/// All six orders of a triple product are equal.
proof fn lemma_mul3_perm(a: int, b: int, c: int) by (nonlinear_arith)
    ensures
        a * (b * c) == a * (c * b) == b * (a * c) == b * (c * a) == c * (a * b) == c * (b * a),
{
}

/// The recentred weights, each scaled by its own vertex's x-offset from the
/// query point, cancel exactly.
proof fn lemma_cyclic_cancel_x(ux: int, uy: int, vx: int, vy: int, wx: int, wy: int)
    ensures
        (vx * wy - vy * wx) * ux + (wx * uy - wy * ux) * vx + (ux * vy - uy * vx) * wx == 0,
{
    broadcast use group_mul_is_commutative_and_distributive;

    lemma_mul3_perm(ux, vx, wy);
    lemma_mul3_perm(ux, vy, wx);
    lemma_mul3_perm(vx, wx, uy);
}

/// The recentred weights, each scaled by its own vertex's y-offset from the
/// query point, cancel exactly.
proof fn lemma_cyclic_cancel_y(ux: int, uy: int, vx: int, vy: int, wx: int, wy: int)
    ensures
        (vx * wy - vy * wx) * uy + (wx * uy - wy * ux) * vy + (ux * vy - uy * vx) * wy == 0,
{
    broadcast use group_mul_is_commutative_and_distributive;

    lemma_mul3_perm(uy, vx, wy);
    lemma_mul3_perm(uy, vy, wx);
    lemma_mul3_perm(vy, wy, ux);
}

/// The barycentric partition of unity, in exact arithmetic: at a covered
/// pixel the triangle's absolute doubled area is positive and the three
/// weights, oriented by the area's sign, are each nonnegative and sum
/// exactly to it — so normalized by the area they are each nonnegative and
/// sum exactly to one.
pub proof fn lemma_barycentric_partition(x1: int, y1: int, x2: int, y2: int, x3: int, y3: int, px: int, py: int)
    requires
        covered(x1, y1, x2, y2, x3, y3, px, py),
    ensures
        oriented(weight1(x1, y1, x2, y2, x3, y3, px, py), tri_area(x1, y1, x2, y2, x3, y3)) >= 0,
        oriented(weight2(x1, y1, x2, y2, x3, y3, px, py), tri_area(x1, y1, x2, y2, x3, y3)) >= 0,
        oriented(weight3(x1, y1, x2, y2, x3, y3, px, py), tri_area(x1, y1, x2, y2, x3, y3)) >= 0,
        oriented(weight1(x1, y1, x2, y2, x3, y3, px, py), tri_area(x1, y1, x2, y2, x3, y3))
            + oriented(weight2(x1, y1, x2, y2, x3, y3, px, py), tri_area(x1, y1, x2, y2, x3, y3))
            + oriented(weight3(x1, y1, x2, y2, x3, y3, px, py), tri_area(x1, y1, x2, y2, x3, y3))
            == abs_area(x1, y1, x2, y2, x3, y3),
        abs_area(x1, y1, x2, y2, x3, y3) > 0,
{
    lemma_oriented_weights_sum(x1, y1, x2, y2, x3, y3, px, py);
}

/// Barycentric weights reproduce the pixel: the weighted sum of the vertex
/// x-coordinates equals the pixel's x-coordinate scaled by the area, and
/// likewise for y.
pub proof fn lemma_weights_reproduce_point(x1: int, y1: int, x2: int, y2: int, x3: int, y3: int, px: int, py: int)
    ensures
        weight1(x1, y1, x2, y2, x3, y3, px, py) * x1
            + weight2(x1, y1, x2, y2, x3, y3, px, py) * x2
            + weight3(x1, y1, x2, y2, x3, y3, px, py) * x3
            == px * tri_area(x1, y1, x2, y2, x3, y3),
        weight1(x1, y1, x2, y2, x3, y3, px, py) * y1
            + weight2(x1, y1, x2, y2, x3, y3, px, py) * y2
            + weight3(x1, y1, x2, y2, x3, y3, px, py) * y3
            == py * tri_area(x1, y1, x2, y2, x3, y3),
{
    let w1 = weight1(x1, y1, x2, y2, x3, y3, px, py);
    let w2 = weight2(x1, y1, x2, y2, x3, y3, px, py);
    let w3 = weight3(x1, y1, x2, y2, x3, y3, px, py);
    let area = tri_area(x1, y1, x2, y2, x3, y3);
    let ux = x1 - px;
    let uy = y1 - py;
    let vx = x2 - px;
    let vy = y2 - py;
    let wx = x3 - px;
    let wy = y3 - py;
    lemma_edge_fn_recentre(x2, y2, x3, y3, px, py);
    lemma_edge_fn_recentre(x3, y3, x1, y1, px, py);
    lemma_edge_fn_recentre(x1, y1, x2, y2, px, py);
    assert(w1 == vx * wy - vy * wx);
    assert(w2 == wx * uy - wy * ux);
    assert(w3 == ux * vy - uy * vx);
    lemma_weights_sum_to_area(x1, y1, x2, y2, x3, y3, px, py);
    // Split each product into the px (or py) part and the offset part.
    lemma_mul_is_distributive_add(w1, px, ux);
    lemma_mul_is_distributive_add(w2, px, vx);
    lemma_mul_is_distributive_add(w3, px, wx);
    lemma_mul_is_distributive_add(w1, py, uy);
    lemma_mul_is_distributive_add(w2, py, vy);
    lemma_mul_is_distributive_add(w3, py, wy);
    assert(w1 * x1 == w1 * px + w1 * ux);
    assert(w2 * x2 == w2 * px + w2 * vx);
    assert(w3 * x3 == w3 * px + w3 * wx);
    assert(w1 * y1 == w1 * py + w1 * uy);
    assert(w2 * y2 == w2 * py + w2 * vy);
    assert(w3 * y3 == w3 * py + w3 * wy);
    // The offset parts cancel.
    lemma_cyclic_cancel_x(ux, uy, vx, vy, wx, wy);
    lemma_cyclic_cancel_y(ux, uy, vx, vy, wx, wy);
    assert(w1 * ux + w2 * vx + w3 * wx == 0);
    assert(w1 * uy + w2 * vy + w3 * wy == 0);
    // The px and py parts sum to the area scaled by the pixel.
    lemma_mul_is_distributive_add_other_way(px, w1, w2);
    lemma_mul_is_distributive_add_other_way(px, w1 + w2, w3);
    lemma_mul_is_distributive_add_other_way(py, w1, w2);
    lemma_mul_is_distributive_add_other_way(py, w1 + w2, w3);
    lemma_mul_is_commutative(px, area);
    lemma_mul_is_commutative(py, area);
    assert(w1 * px + w2 * px + w3 * px == px * area);
    assert(w1 * py + w2 * py + w3 * py == py * area);
}

/// A triangle with two coincident vertices has zero area, whichever pair
/// coincides.
pub proof fn lemma_coincident_vertices_zero_area(x1: int, y1: int, x2: int, y2: int, x3: int, y3: int) by (nonlinear_arith)
    requires
        (x1 == x2 && y1 == y2) || (x2 == x3 && y2 == y3) || (x1 == x3 && y1 == y3),
    ensures
        tri_area(x1, y1, x2, y2, x3, y3) == 0,
{
}

/// A nonnegatively weighted average of three values bounded by `[lo, hi]`
/// stays within `[lo, hi]`.
pub proof fn lemma_weighted_avg_bounds(w1: int, w2: int, w3: int, a1: int, a2: int, a3: int, lo: int, hi: int, p: int) by (nonlinear_arith)
    requires
        w1 >= 0,
        w2 >= 0,
        w3 >= 0,
        w1 + w2 + w3 > 0,
        lo <= a1 <= hi,
        lo <= a2 <= hi,
        lo <= a3 <= hi,
        w1 * a1 + w2 * a2 + w3 * a3 == p * (w1 + w2 + w3),
    ensures
        lo <= p <= hi,
{
}

/// Every covered pixel lies within the axis-aligned bounding box of the
/// three vertices: the rasterizer loses nothing by visiting only that box.
pub proof fn lemma_covered_in_bbox(x1: int, y1: int, x2: int, y2: int, x3: int, y3: int, px: int, py: int)
    requires
        covered(x1, y1, x2, y2, x3, y3, px, py),
    ensures
        vstd::math::min(vstd::math::min(x1, x2), x3) <= px <= vstd::math::max(vstd::math::max(x1, x2), x3),
        vstd::math::min(vstd::math::min(y1, y2), y3) <= py <= vstd::math::max(vstd::math::max(y1, y2), y3),
{
    let area = tri_area(x1, y1, x2, y2, x3, y3);
    let w1 = weight1(x1, y1, x2, y2, x3, y3, px, py);
    let w2 = weight2(x1, y1, x2, y2, x3, y3, px, py);
    let w3 = weight3(x1, y1, x2, y2, x3, y3, px, py);
    let o1 = oriented(w1, area);
    let o2 = oriented(w2, area);
    let o3 = oriented(w3, area);
    lemma_oriented_weights_sum(x1, y1, x2, y2, x3, y3, px, py);
    lemma_weights_reproduce_point(x1, y1, x2, y2, x3, y3, px, py);
    if area >= 0 {
        assert(o1 * x1 + o2 * x2 + o3 * x3 == px * (o1 + o2 + o3));
        assert(o1 * y1 + o2 * y2 + o3 * y3 == py * (o1 + o2 + o3));
    } else {
        lemma_mul_unary_negation(w1, x1);
        lemma_mul_unary_negation(w2, x2);
        lemma_mul_unary_negation(w3, x3);
        lemma_mul_unary_negation(w1, y1);
        lemma_mul_unary_negation(w2, y2);
        lemma_mul_unary_negation(w3, y3);
        lemma_mul_unary_negation(px, area);
        lemma_mul_unary_negation(py, area);
        lemma_mul_is_commutative(px, area);
        lemma_mul_is_commutative(px, -area);
        lemma_mul_is_commutative(py, area);
        lemma_mul_is_commutative(py, -area);
        assert(o1 * x1 + o2 * x2 + o3 * x3 == px * (o1 + o2 + o3));
        assert(o1 * y1 + o2 * y2 + o3 * y3 == py * (o1 + o2 + o3));
    }
    let lox = vstd::math::min(vstd::math::min(x1, x2), x3);
    let hix = vstd::math::max(vstd::math::max(x1, x2), x3);
    let loy = vstd::math::min(vstd::math::min(y1, y2), y3);
    let hiy = vstd::math::max(vstd::math::max(y1, y2), y3);
    lemma_weighted_avg_bounds(o1, o2, o3, x1, x2, x3, lox, hix, px);
    lemma_weighted_avg_bounds(o1, o2, o3, y1, y2, y3, loy, hiy, py);
}

/// Evaluate the signed edge function of the directed line `a -> b` at `p`.
pub fn edge_function(ax: i64, ay: i64, bx: i64, by: i64, px: i64, py: i64) -> (w: i64)
    requires
        in_coord(ax as int),
        in_coord(ay as int),
        in_coord(bx as int),
        in_coord(by as int),
        in_coord(px as int),
        in_coord(py as int),
    ensures
        w == edge_fn(ax as int, ay as int, bx as int, by as int, px as int, py as int),
        -EDGE_BOUND <= w <= EDGE_BOUND,
{
    proof {
        lemma_abs_mul_le((bx - ax) as int, (py - ay) as int, 524288, 524288);
        lemma_abs_mul_le((by - ay) as int, (px - ax) as int, 524288, 524288);
    }
    (bx - ax) * (py - ay) - (by - ay) * (px - ax)
}

} // verus!
