//! The triangle rasterizer.
//!
//! Given three transformed vertices, [`rasterize`] walks the integer pixels
//! of the triangle's bounding box clipped to the framebuffer, tests each
//! pixel's barycentric weights for coverage, and emits one fragment per
//! covered pixel with depth, color and object-space shading position
//! interpolated barycentrically. Interpolation divides exact integer
//! numerators by the triangle's absolute doubled area, truncating toward
//! zero; every interpolated value therefore stays between the least and the
//! greatest of the three vertex values it blends.
//!
//! The contract pins the output down up to order: a fragment is emitted for
//! a pixel if and only if the pixel is on screen and covered, each pixel at
//! most once, and every fragment's fields equal the specified interpolation.

use vstd::prelude::*;
use vstd::arithmetic::mul::{lemma_mul_inequality, lemma_mul_is_distributive_add, lemma_mul_unary_negation, lemma_mul_is_commutative};
use vstd::arithmetic::div_mod::{lemma_div_is_ordered, lemma_div_multiples_vanish, lemma_div_pos_is_pos, lemma_div_nonincreasing, lemma_div_of0};
use crate::color::Color;
use crate::vertex::{Vertex, Vec3i, vertex_in_range};
use crate::fragment::Fragment;
use crate::geometry::{COORD_BOUND, EDGE_BOUND, in_coord, tri_area, weight1, weight2, weight3, oriented, abs_area, covered, edge_function, lemma_abs_mul_le, lemma_weights_sum_to_area, lemma_covered_in_bbox};

verus! {

/// The least of three values.
pub open spec fn min3(a: int, b: int, c: int) -> int {
    vstd::math::min(vstd::math::min(a, b), c)
}

/// The greatest of three values.
pub open spec fn max3(a: int, b: int, c: int) -> int {
    vstd::math::max(vstd::math::max(a, b), c)
}

/// Integer division truncating toward zero, for a positive divisor.
pub open spec fn div_trunc(n: int, d: int) -> int
    recommends
        d > 0,
{
    if n >= 0 {
        n / d
    } else {
        -((-n) / d)
    }
}

/// Barycentric interpolation of three values: the weighted sum divided by
/// the weights' total, truncating toward zero.
pub open spec fn interp3(a: int, b: int, c: int, w1: int, w2: int, w3: int, total: int) -> int {
    div_trunc(a * w1 + b * w2 + c * w3, total)
}

/// A vertex's screen x-coordinate.
pub open spec fn sx(v: Vertex) -> int {
    v.transformed_position.x as int
}

/// A vertex's screen y-coordinate.
pub open spec fn sy(v: Vertex) -> int {
    v.transformed_position.y as int
}

/// A vertex's depth.
pub open spec fn sz(v: Vertex) -> int {
    v.transformed_position.z as int
}

/// The doubled signed area of a triangle's projected screen points.
pub open spec fn tri_area_v(v1: Vertex, v2: Vertex, v3: Vertex) -> int {
    tri_area(sx(v1), sy(v1), sx(v2), sy(v2), sx(v3), sy(v3))
}

/// The absolute value of the doubled area.
pub open spec fn abs_area_v(v1: Vertex, v2: Vertex, v3: Vertex) -> int {
    abs_area(sx(v1), sy(v1), sx(v2), sy(v2), sx(v3), sy(v3))
}

/// Whether the triangle covers the pixel `(px, py)`.
pub open spec fn covered_v(v1: Vertex, v2: Vertex, v3: Vertex, px: int, py: int) -> bool {
    covered(sx(v1), sy(v1), sx(v2), sy(v2), sx(v3), sy(v3), px, py)
}

/// The oriented barycentric weight of the first vertex at `(px, py)`.
pub open spec fn ow1(v1: Vertex, v2: Vertex, v3: Vertex, px: int, py: int) -> int {
    oriented(
        weight1(sx(v1), sy(v1), sx(v2), sy(v2), sx(v3), sy(v3), px, py),
        tri_area_v(v1, v2, v3),
    )
}

/// The oriented barycentric weight of the second vertex at `(px, py)`.
pub open spec fn ow2(v1: Vertex, v2: Vertex, v3: Vertex, px: int, py: int) -> int {
    oriented(
        weight2(sx(v1), sy(v1), sx(v2), sy(v2), sx(v3), sy(v3), px, py),
        tri_area_v(v1, v2, v3),
    )
}

/// The oriented barycentric weight of the third vertex at `(px, py)`.
pub open spec fn ow3(v1: Vertex, v2: Vertex, v3: Vertex, px: int, py: int) -> int {
    oriented(
        weight3(sx(v1), sy(v1), sx(v2), sy(v2), sx(v3), sy(v3), px, py),
        tri_area_v(v1, v2, v3),
    )
}

/// The barycentric interpolation of one per-vertex attribute at `(px, py)`:
/// `a`, `b` and `c` are the attribute's values at the three vertices.
pub open spec fn interp_at(v1: Vertex, v2: Vertex, v3: Vertex, px: int, py: int, a: int, b: int, c: int) -> int {
    interp3(
        a,
        b,
        c,
        ow1(v1, v2, v3, px, py),
        ow2(v1, v2, v3, px, py),
        ow3(v1, v2, v3, px, py),
        abs_area_v(v1, v2, v3),
    )
}

/// Whether a fragment is exactly what rasterizing the triangle yields at the
/// fragment's own pixel: the pixel is covered, and depth, shading position
/// and color are the specified barycentric interpolations.
pub open spec fn frag_ok(v1: Vertex, v2: Vertex, v3: Vertex, f: Fragment) -> bool {
    let px = f.position.x as int;
    let py = f.position.y as int;
    &&& covered_v(v1, v2, v3, px, py)
    &&& f.position.z == f.depth
    &&& f.depth as int == interp_at(v1, v2, v3, px, py, sz(v1), sz(v2), sz(v3))
    &&& f.vertex_position.x as int == interp_at(v1, v2, v3, px, py, v1.position.x as int, v2.position.x as int, v3.position.x as int)
    &&& f.vertex_position.y as int == interp_at(v1, v2, v3, px, py, v1.position.y as int, v2.position.y as int, v3.position.y as int)
    &&& f.vertex_position.z as int == interp_at(v1, v2, v3, px, py, v1.position.z as int, v2.position.z as int, v3.position.z as int)
    &&& f.color.r as int == interp_at(v1, v2, v3, px, py, v1.color.r as int, v2.color.r as int, v3.color.r as int)
    &&& f.color.g as int == interp_at(v1, v2, v3, px, py, v1.color.g as int, v2.color.g as int, v3.color.g as int)
    &&& f.color.b as int == interp_at(v1, v2, v3, px, py, v1.color.b as int, v2.color.b as int, v3.color.b as int)
}

/// Whether the sequence holds a fragment at the pixel `(px, py)`.
pub open spec fn frag_exists(s: Seq<Fragment>, px: int, py: int) -> bool {
    exists|i: int| 0 <= i < s.len() && (#[trigger] s[i]).position.x == px && s[i].position.y == py
}

/// Whether no two fragments of the sequence share a pixel.
pub open spec fn distinct_pixels(s: Seq<Fragment>) -> bool {
    forall|i: int, j: int|
        #![trigger s[i], s[j]]
        0 <= i < j < s.len() ==> !(s[i].position.x == s[j].position.x && s[i].position.y
            == s[j].position.y)
}

/// Barycentric interpolation at a covered pixel never extrapolates: it stays
/// between the least and the greatest of the three vertex values it blends.
pub proof fn lemma_interp_at_bracket(v1: Vertex, v2: Vertex, v3: Vertex, px: int, py: int, a: int, b: int, c: int)
    requires
        covered_v(v1, v2, v3, px, py),
    ensures
        min3(a, b, c) <= interp_at(v1, v2, v3, px, py, a, b, c) <= max3(a, b, c),
{
    let o1 = ow1(v1, v2, v3, px, py);
    let o2 = ow2(v1, v2, v3, px, py);
    let o3 = ow3(v1, v2, v3, px, py);
    let t = abs_area_v(v1, v2, v3);
    crate::geometry::lemma_barycentric_partition(sx(v1), sy(v1), sx(v2), sy(v2), sx(v3), sy(v3), px, py);
    let lo = min3(a, b, c);
    let hi = max3(a, b, c);
    lemma_mul_inequality(lo, a, o1);
    lemma_mul_inequality(lo, b, o2);
    lemma_mul_inequality(lo, c, o3);
    lemma_mul_inequality(a, hi, o1);
    lemma_mul_inequality(b, hi, o2);
    lemma_mul_inequality(c, hi, o3);
    lemma_mul_is_distributive_add(lo, o1, o2);
    lemma_mul_is_distributive_add(lo, o1 + o2, o3);
    lemma_mul_is_distributive_add(hi, o1, o2);
    lemma_mul_is_distributive_add(hi, o1 + o2, o3);
    lemma_div_trunc_bounds(a * o1 + b * o2 + c * o3, t, lo, hi);
}

/// A rasterized fragment's shading position and depth are convex
/// combinations of the three vertices' values — never extrapolated.
pub proof fn lemma_fragment_never_extrapolated(v1: Vertex, v2: Vertex, v3: Vertex, f: Fragment)
    requires
        frag_ok(v1, v2, v3, f),
    ensures
        min3(v1.position.x as int, v2.position.x as int, v3.position.x as int)
            <= f.vertex_position.x as int <= max3(v1.position.x as int, v2.position.x as int, v3.position.x as int),
        min3(v1.position.y as int, v2.position.y as int, v3.position.y as int)
            <= f.vertex_position.y as int <= max3(v1.position.y as int, v2.position.y as int, v3.position.y as int),
        min3(v1.position.z as int, v2.position.z as int, v3.position.z as int)
            <= f.vertex_position.z as int <= max3(v1.position.z as int, v2.position.z as int, v3.position.z as int),
        min3(sz(v1), sz(v2), sz(v3)) <= f.depth as int <= max3(sz(v1), sz(v2), sz(v3)),
{
    let px = f.position.x as int;
    let py = f.position.y as int;
    lemma_interp_at_bracket(v1, v2, v3, px, py, v1.position.x as int, v2.position.x as int, v3.position.x as int);
    lemma_interp_at_bracket(v1, v2, v3, px, py, v1.position.y as int, v2.position.y as int, v3.position.y as int);
    lemma_interp_at_bracket(v1, v2, v3, px, py, v1.position.z as int, v2.position.z as int, v3.position.z as int);
    lemma_interp_at_bracket(v1, v2, v3, px, py, sz(v1), sz(v2), sz(v3));
}

/// Truncating division stays within any bracket whose endpoints scale the
/// divisor around the numerator.
pub proof fn lemma_div_trunc_bounds(n: int, d: int, lo: int, hi: int)
    requires
        d > 0,
        lo * d <= n,
        n <= hi * d,
    ensures
        lo <= div_trunc(n, d) <= hi,
{
    lemma_mul_is_commutative(lo, d);
    lemma_mul_is_commutative(hi, d);
    if n >= 0 {
        lemma_div_is_ordered(lo * d, n, d);
        lemma_div_is_ordered(n, hi * d, d);
        lemma_div_multiples_vanish(lo, d);
        lemma_div_multiples_vanish(hi, d);
    } else {
        lemma_mul_unary_negation(lo, d);
        lemma_mul_unary_negation(hi, d);
        lemma_mul_is_commutative(-lo, d);
        lemma_mul_is_commutative(-hi, d);
        lemma_div_is_ordered(-n, (-lo) * d, d);
        lemma_div_is_ordered((-hi) * d, -n, d);
        lemma_div_multiples_vanish(-lo, d);
        lemma_div_multiples_vanish(-hi, d);
    }
}

/// Divide, truncating toward zero, by a positive divisor.
fn div_trunc_i64(n: i64, d: i64) -> (r: i64)
    requires
        d > 0,
    ensures
        r as int == div_trunc(n as int, d as int),
{
    proof {
        if n >= 0 {
            lemma_div_pos_is_pos(n as int, d as int);
            lemma_div_nonincreasing(n as int, d as int);
            if n == 0 {
                lemma_div_of0(d as int);
            }
        } else {
            lemma_div_pos_is_pos(-(n as int), d as int);
            lemma_div_nonincreasing(-(n as int), d as int);
        }
    }
    n.checked_div(d).unwrap()
}

/// The least of three values.
fn min3_i64(a: i64, b: i64, c: i64) -> (m: i64)
    ensures
        m as int == min3(a as int, b as int, c as int),
{
    let ab = if a < b { a } else { b };
    if ab < c { ab } else { c }
}

/// The greatest of three values.
fn max3_i64(a: i64, b: i64, c: i64) -> (m: i64)
    ensures
        m as int == max3(a as int, b as int, c as int),
{
    let ab = if a > b { a } else { b };
    if ab > c { ab } else { c }
}

/// Barycentric interpolation of one attribute from nonnegative oriented
/// weights: exact integer arithmetic, division truncating toward zero. The
/// result never leaves the bracket of the three inputs.
fn interp_i64(a: i64, b: i64, c: i64, w1: i64, w2: i64, w3: i64, total: i64) -> (r: i64)
    requires
        in_coord(a as int),
        in_coord(b as int),
        in_coord(c as int),
        0 <= w1 <= EDGE_BOUND,
        0 <= w2 <= EDGE_BOUND,
        0 <= w3 <= EDGE_BOUND,
        total == w1 + w2 + w3,
        total > 0,
    ensures
        r as int == interp3(a as int, b as int, c as int, w1 as int, w2 as int, w3 as int, total as int),
        min3(a as int, b as int, c as int) <= r as int <= max3(a as int, b as int, c as int),
{
    proof {
        lemma_abs_mul_le(a as int, w1 as int, COORD_BOUND as int, EDGE_BOUND as int);
        lemma_abs_mul_le(b as int, w2 as int, COORD_BOUND as int, EDGE_BOUND as int);
        lemma_abs_mul_le(c as int, w3 as int, COORD_BOUND as int, EDGE_BOUND as int);
    }
    let n = a * w1 + b * w2 + c * w3;
    proof {
        let lo = min3(a as int, b as int, c as int);
        let hi = max3(a as int, b as int, c as int);
        lemma_mul_inequality(lo, a as int, w1 as int);
        lemma_mul_inequality(lo, b as int, w2 as int);
        lemma_mul_inequality(lo, c as int, w3 as int);
        lemma_mul_inequality(a as int, hi, w1 as int);
        lemma_mul_inequality(b as int, hi, w2 as int);
        lemma_mul_inequality(c as int, hi, w3 as int);
        lemma_mul_is_distributive_add(lo, w1 as int, w2 as int);
        lemma_mul_is_distributive_add(lo, w1 as int + w2 as int, w3 as int);
        lemma_mul_is_distributive_add(hi, w1 as int, w2 as int);
        lemma_mul_is_distributive_add(hi, w1 as int + w2 as int, w3 as int);
        lemma_div_trunc_bounds(n as int, total as int, lo, hi);
    }
    div_trunc_i64(n, total)
}

/// Rasterize one triangle against a `width` by `height` pixel grid.
///
/// Emits exactly one fragment for every covered on-screen pixel — none for a
/// degenerate (zero-area) triangle — with depth, color and shading position
/// interpolated barycentrically.
#[verifier::loop_isolation(false)]
pub fn rasterize(v1: &Vertex, v2: &Vertex, v3: &Vertex, width: usize, height: usize) -> (frags: Vec<Fragment>)
    requires
        vertex_in_range(*v1),
        vertex_in_range(*v2),
        vertex_in_range(*v3),
        width as int <= COORD_BOUND as int,
        height as int <= COORD_BOUND as int,
    ensures
        tri_area_v(*v1, *v2, *v3) == 0 ==> frags@.len() == 0,
        forall|i: int| 0 <= i < frags@.len() ==> frag_ok(*v1, *v2, *v3, #[trigger] frags@[i]),
        forall|i: int|
            0 <= i < frags@.len() ==> 0 <= (#[trigger] frags@[i]).position.x < width as i64
                && 0 <= frags@[i].position.y < height as i64,
        forall|px: int, py: int|
            0 <= px < width as int && 0 <= py < height as int && #[trigger] covered_v(*v1, *v2, *v3, px, py)
                ==> frag_exists(frags@, px, py),
        distinct_pixels(frags@),
{
    let x1 = v1.transformed_position.x;
    let y1 = v1.transformed_position.y;
    let x2 = v2.transformed_position.x;
    let y2 = v2.transformed_position.y;
    let x3 = v3.transformed_position.x;
    let y3 = v3.transformed_position.y;
    let mut frags: Vec<Fragment> = Vec::new();
    let area = edge_function(x1, y1, x2, y2, x3, y3);
    if area == 0 {
        return frags;
    }
    if width == 0 || height == 0 {
        return frags;
    }
    let xmin = min3_i64(x1, x2, x3);
    let xmax = max3_i64(x1, x2, x3);
    let ymin = min3_i64(y1, y2, y3);
    let ymax = max3_i64(y1, y2, y3);
    let wlim = (width as i64) - 1;
    let hlim = (height as i64) - 1;
    let xlo = if xmin < 0 { 0 } else { xmin };
    let xhi = if xmax > wlim { wlim } else { xmax };
    let ylo = if ymin < 0 { 0 } else { ymin };
    let yhi = if ymax > hlim { hlim } else { ymax };
    if xlo > xhi || ylo > yhi {
        proof {
            assert forall|px: int, py: int|
                0 <= px < width as int && 0 <= py < height as int
                    && #[trigger] covered_v(*v1, *v2, *v3, px, py) implies frag_exists(frags@, px, py) by {
                lemma_covered_in_bbox(x1 as int, y1 as int, x2 as int, y2 as int, x3 as int, y3 as int, px, py);
            }
        }
        return frags;
    }
    proof {
        assert forall|px: int, py: int|
            0 <= px < width as int && 0 <= py < height as int
                && covered_v(*v1, *v2, *v3, px, py) implies xlo as int <= px <= xhi as int
            && ylo as int <= py <= yhi as int by {
            lemma_covered_in_bbox(x1 as int, y1 as int, x2 as int, y2 as int, x3 as int, y3 as int, px, py);
        }
    }
    let mut y: i64 = ylo;
    while y <= yhi
        invariant
            ylo <= y <= yhi + 1,
            forall|i: int| 0 <= i < frags@.len() ==> frag_ok(*v1, *v2, *v3, #[trigger] frags@[i]),
            forall|i: int|
                0 <= i < frags@.len() ==> 0 <= (#[trigger] frags@[i]).position.x <= xhi
                    && ylo <= frags@[i].position.y < y,
            forall|px: int, py: int|
                0 <= px < width as int && 0 <= py < height as int
                    && #[trigger] covered_v(*v1, *v2, *v3, px, py) && py < y ==> frag_exists(
                    frags@,
                    px,
                    py,
                ),
            distinct_pixels(frags@),
        decreases yhi + 1 - y,
    {
        let mut x: i64 = xlo;
        while x <= xhi
            invariant
                xlo <= x <= xhi + 1,
                ylo <= y <= yhi,
                forall|i: int| 0 <= i < frags@.len() ==> frag_ok(*v1, *v2, *v3, #[trigger] frags@[i]),
                forall|i: int|
                    0 <= i < frags@.len() ==> 0 <= (#[trigger] frags@[i]).position.x <= xhi
                        && ylo <= frags@[i].position.y <= y && (frags@[i].position.y == y
                        ==> frags@[i].position.x < x),
                forall|px: int, py: int|
                    0 <= px < width as int && 0 <= py < height as int
                        && #[trigger] covered_v(*v1, *v2, *v3, px, py) && (py < y || (py == y && px < x))
                        ==> frag_exists(frags@, px, py),
                distinct_pixels(frags@),
            decreases xhi + 1 - x,
        {
            let w1 = edge_function(x2, y2, x3, y3, x, y);
            let w2 = edge_function(x3, y3, x1, y1, x, y);
            let w3 = edge_function(x1, y1, x2, y2, x, y);
            proof {
                lemma_weights_sum_to_area(x1 as int, y1 as int, x2 as int, y2 as int, x3 as int, y3 as int, x as int, y as int);
            }
            let o1 = if area > 0 { w1 } else { -w1 };
            let o2 = if area > 0 { w2 } else { -w2 };
            let o3 = if area > 0 { w3 } else { -w3 };
            let tot = if area > 0 { area } else { -area };
            if o1 >= 0 && o2 >= 0 && o3 >= 0 {
                let depth = interp_i64(
                    v1.transformed_position.z,
                    v2.transformed_position.z,
                    v3.transformed_position.z,
                    o1, o2, o3, tot,
                );
                let vpx = interp_i64(v1.position.x, v2.position.x, v3.position.x, o1, o2, o3, tot);
                let vpy = interp_i64(v1.position.y, v2.position.y, v3.position.y, o1, o2, o3, tot);
                let vpz = interp_i64(v1.position.z, v2.position.z, v3.position.z, o1, o2, o3, tot);
                let cr = interp_i64(v1.color.r as i64, v2.color.r as i64, v3.color.r as i64, o1, o2, o3, tot);
                let cg = interp_i64(v1.color.g as i64, v2.color.g as i64, v3.color.g as i64, o1, o2, o3, tot);
                let cb = interp_i64(v1.color.b as i64, v2.color.b as i64, v3.color.b as i64, o1, o2, o3, tot);
                let color = Color::new(cr as u8, cg as u8, cb as u8);
                let frag = Fragment::new_with_vertex_position(
                    x,
                    y,
                    color,
                    depth,
                    Vec3i { x: vpx, y: vpy, z: vpz },
                );
                proof {
                    assert(frag_ok(*v1, *v2, *v3, frag));
                }
                let ghost before = frags@;
                frags.push(frag);
                proof {
                    let n = frags@.len() - 1;
                    assert(frags@[n] == frag);
                    assert(frags@[n].position.x == x && frags@[n].position.y == y);
                    assert(frag_exists(frags@, x as int, y as int));
                    assert forall|px: int, py: int|
                        #[trigger] frag_exists(before, px, py) implies frag_exists(frags@, px, py) by {
                        let i = choose|i: int|
                            0 <= i < before.len() && (#[trigger] before[i]).position.x == px
                                && before[i].position.y == py;
                        assert(frags@[i] == before[i]);
                    }
                }
            }
            x += 1;
        }
        y += 1;
    }
    proof {
        assert forall|px: int, py: int|
            0 <= px < width as int && 0 <= py < height as int
                && #[trigger] covered_v(*v1, *v2, *v3, px, py) implies frag_exists(frags@, px, py) by {
            lemma_covered_in_bbox(x1 as int, y1 as int, x2 as int, y2 as int, x3 as int, y3 as int, px, py);
        }
    }
    frags
}

} // verus!
