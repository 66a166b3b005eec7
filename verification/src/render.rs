//! Rendering a mesh into the framebuffer.
//!
//! [`render_mesh`] walks the index buffer in triples, skips incomplete
//! triples and triples that name a vertex out of range, rasterizes each
//! remaining triangle and submits every fragment to the framebuffer's
//! nearest-wins depth test. The host transforms the vertices before the
//! call; the vertices handed in already carry their screen positions.
//!
//! The contract pins the outcome of visibility resolution exactly. For
//! every pixel: its depth only ever moves nearer, and ends no farther than
//! the interpolated depth of any drawn triangle covering it
//! ([`depth_resolved`]); and it either keeps its old depth and color or
//! holds exactly the interpolated depth and packed interpolated color of
//! some drawn triangle covering it ([`pixel_provenance`]). Together these
//! say the final depth is the minimum of the old depth and all covering
//! triangles' interpolated depths, and the final color is that of a
//! triangle attaining it — which triangle, among equal-depth candidates, is
//! the one order-dependent choice the depth test leaves open. A pixel no
//! drawn triangle covers keeps its depth and color.

use vstd::prelude::*;
use crate::color::packed_rgb;
use crate::framebuffer::{Framebuffer, FbView, lemma_idx_bounds, lemma_idx_injective};
use crate::vertex::{Vertex, vertex_in_range};
use crate::raster::{rasterize, covered_v, interp_at, frag_exists, frag_ok, sz};

verus! {

/// Whether position `t` of the index buffer starts a complete triple whose
/// three indices all name vertices of the mesh. Triples start at every third
/// position, as the renderer walks them.
pub open spec fn triple_in_range(vertices: Seq<Vertex>, indices: Seq<u32>, t: int) -> bool {
    &&& 0 <= t
    &&& t % 3 == 0
    &&& t + 2 < indices.len()
    &&& indices[t] < vertices.len()
    &&& indices[t + 1] < vertices.len()
    &&& indices[t + 2] < vertices.len()
}

/// The `k`-th vertex (0, 1 or 2) of the triangle starting at position `t`.
pub open spec fn tri_vertex(vertices: Seq<Vertex>, indices: Seq<u32>, t: int, k: int) -> Vertex {
    vertices[indices[t + k] as int]
}

/// Whether the triangle starting at position `t` covers the pixel.
pub open spec fn tri_covers(vertices: Seq<Vertex>, indices: Seq<u32>, t: int, px: int, py: int) -> bool {
    covered_v(
        tri_vertex(vertices, indices, t, 0),
        tri_vertex(vertices, indices, t, 1),
        tri_vertex(vertices, indices, t, 2),
        px,
        py,
    )
}

/// The interpolated depth of the triangle starting at `t` at the pixel.
pub open spec fn tri_depth(vertices: Seq<Vertex>, indices: Seq<u32>, t: int, px: int, py: int) -> int {
    let a = tri_vertex(vertices, indices, t, 0);
    let b = tri_vertex(vertices, indices, t, 1);
    let c = tri_vertex(vertices, indices, t, 2);
    interp_at(a, b, c, px, py, sz(a), sz(b), sz(c))
}

/// The packed interpolated color of the triangle starting at `t` at the
/// pixel: each channel interpolated barycentrically, then packed as the
/// framebuffer stores it.
pub open spec fn tri_frag_color(vertices: Seq<Vertex>, indices: Seq<u32>, t: int, px: int, py: int) -> u32 {
    let a = tri_vertex(vertices, indices, t, 0);
    let b = tri_vertex(vertices, indices, t, 1);
    let c = tri_vertex(vertices, indices, t, 2);
    packed_rgb(
        interp_at(a, b, c, px, py, a.color.r as int, b.color.r as int, c.color.r as int) as u8,
        interp_at(a, b, c, px, py, a.color.g as int, b.color.g as int, c.color.g as int) as u8,
        interp_at(a, b, c, px, py, a.color.b as int, b.color.b as int, c.color.b as int) as u8,
    )
}

/// Whether the framebuffer state resolves the triangle at `t` correctly at
/// the pixel `(px, py)`: if the triangle covers that on-screen pixel, the
/// stored depth is no farther than the triangle's interpolated depth there.
pub open spec fn depth_resolved(s: FbView, vertices: Seq<Vertex>, indices: Seq<u32>, t: int, px: int, py: int) -> bool {
    tri_covers(vertices, indices, t, px, py) && s.in_bounds(px, py) ==> s.depths[s.idx(px, py)]
        <= tri_depth(vertices, indices, t, px, py)
}

/// Where a pixel's final state came from: it either kept the depth and
/// color it had in the state `o`, or holds exactly the interpolated depth
/// and packed interpolated color of some drawn triangle (one starting
/// before `bound`) that covers it.
pub open spec fn pixel_provenance(o: FbView, s: FbView, vertices: Seq<Vertex>, indices: Seq<u32>, bound: int, px: int, py: int) -> bool {
    let j = s.idx(px, py);
    ||| (s.depths[j] == o.depths[j] && s.colors[j] == o.colors[j])
    ||| (exists|t: int|
        0 <= t < bound && #[trigger] triple_in_range(vertices, indices, t) && tri_covers(
            vertices,
            indices,
            t,
            px,
            py,
        ) && s.depths[j] == tri_depth(vertices, indices, t, px, py) && s.colors[j]
            == tri_frag_color(vertices, indices, t, px, py))
}

/// Whether no complete, in-range triple of the mesh covers the pixel.
pub open spec fn uncovered_by_mesh(vertices: Seq<Vertex>, indices: Seq<u32>, px: int, py: int) -> bool {
    forall|t: int|
        #[trigger] triple_in_range(vertices, indices, t) ==> !tri_covers(vertices, indices, t, px, py)
}

/// A pixel's provenance survives raising the triple bound, or lowering it
/// past the index buffer's length (every witness starts before the buffer
/// ends).
proof fn lemma_provenance_bound(o: FbView, s: FbView, vertices: Seq<Vertex>, indices: Seq<u32>, b1: int, b2: int, px: int, py: int)
    requires
        pixel_provenance(o, s, vertices, indices, b1, px, py),
        b2 >= b1 || b2 >= indices.len() - 2,
    ensures
        pixel_provenance(o, s, vertices, indices, b2, px, py),
{
    let j = s.idx(px, py);
    if !(s.depths[j] == o.depths[j] && s.colors[j] == o.colors[j]) {
        let t = choose|t: int|
            0 <= t < b1 && #[trigger] triple_in_range(vertices, indices, t) && tri_covers(
                vertices,
                indices,
                t,
                px,
                py,
            ) && s.depths[j] == tri_depth(vertices, indices, t, px, py) && s.colors[j]
                == tri_frag_color(vertices, indices, t, px, py);
        assert(t < b2);
    }
}

/// A pixel's provenance carries over to any state that agrees with the old
/// one at that pixel.
proof fn lemma_provenance_same_pixel(o: FbView, s1: FbView, s2: FbView, vertices: Seq<Vertex>, indices: Seq<u32>, b: int, px: int, py: int)
    requires
        pixel_provenance(o, s1, vertices, indices, b, px, py),
        s2.width == s1.width,
        s2.depths[s1.idx(px, py)] == s1.depths[s1.idx(px, py)],
        s2.colors[s1.idx(px, py)] == s1.colors[s1.idx(px, py)],
    ensures
        pixel_provenance(o, s2, vertices, indices, b, px, py),
{
    let j = s1.idx(px, py);
    assert(s2.idx(px, py) == j);
    if !(s1.depths[j] == o.depths[j] && s1.colors[j] == o.colors[j]) {
        let t = choose|t: int|
            0 <= t < b && #[trigger] triple_in_range(vertices, indices, t) && tri_covers(
                vertices,
                indices,
                t,
                px,
                py,
            ) && s1.depths[j] == tri_depth(vertices, indices, t, px, py) && s1.colors[j]
                == tri_frag_color(vertices, indices, t, px, py);
        assert(s2.depths[j] == tri_depth(vertices, indices, t, px, py));
        assert(s2.colors[j] == tri_frag_color(vertices, indices, t, px, py));
    }
}

/// Draw every complete, in-range triangle of the indexed mesh.
#[verifier::loop_isolation(false)]
pub fn render_mesh(fb: &mut Framebuffer, vertices: &Vec<Vertex>, indices: &Vec<u32>)
    requires
        old(fb).wf(),
        forall|i: int| 0 <= i < vertices@.len() ==> vertex_in_range(#[trigger] vertices@[i]),
        indices@.len() + 3 <= usize::MAX,
    ensures
        final(fb).wf(),
        final(fb).width == old(fb).width,
        final(fb).height == old(fb).height,
        final(fb).background_color == old(fb).background_color,
        final(fb)@.colors.len() == old(fb)@.colors.len(),
        final(fb)@.depths.len() == old(fb)@.depths.len(),
        forall|j: int|
            0 <= j < final(fb)@.depths.len() ==> #[trigger] final(fb)@.depths[j] <= old(fb)@.depths[j],
        forall|j: int|
            0 <= j < final(fb)@.depths.len() ==> (#[trigger] final(fb)@.depths[j] == old(fb)@.depths[j]
                ==> final(fb)@.colors[j] == old(fb)@.colors[j]),
        forall|t: int, px: int, py: int|
            triple_in_range(vertices@, indices@, t) ==> #[trigger] depth_resolved(
                final(fb)@,
                vertices@,
                indices@,
                t,
                px,
                py,
            ),
        forall|px: int, py: int|
            final(fb)@.in_bounds(px, py) ==> #[trigger] pixel_provenance(
                old(fb)@,
                final(fb)@,
                vertices@,
                indices@,
                indices@.len() as int,
                px,
                py,
            ),
        forall|px: int, py: int|
            final(fb)@.in_bounds(px, py) && #[trigger] uncovered_by_mesh(vertices@, indices@, px, py)
                ==> final(fb)@.depths[final(fb)@.idx(px, py)] == old(fb)@.depths[final(fb)@.idx(px, py)]
                && final(fb)@.colors[final(fb)@.idx(px, py)] == old(fb)@.colors[final(fb)@.idx(px, py)],
{
    let mut tri: usize = 0;
    while tri < indices.len()
        invariant
            fb.wf(),
            fb.width == old(fb).width,
            fb.height == old(fb).height,
            fb.background_color == old(fb).background_color,
            fb@.colors.len() == old(fb)@.colors.len(),
            fb@.depths.len() == old(fb)@.depths.len(),
            tri % 3 == 0,
            forall|j: int|
                0 <= j < fb@.depths.len() ==> #[trigger] fb@.depths[j] <= old(fb)@.depths[j],
            forall|j: int|
                0 <= j < fb@.depths.len() ==> (#[trigger] fb@.depths[j] == old(fb)@.depths[j]
                    ==> fb@.colors[j] == old(fb)@.colors[j]),
            forall|t: int, px: int, py: int|
                triple_in_range(vertices@, indices@, t) && t < tri ==> #[trigger] depth_resolved(
                    fb@,
                    vertices@,
                    indices@,
                    t,
                    px,
                    py,
                ),
            forall|px: int, py: int|
                fb@.in_bounds(px, py) ==> #[trigger] pixel_provenance(
                    old(fb)@,
                    fb@,
                    vertices@,
                    indices@,
                    tri as int,
                    px,
                    py,
                ),
        decreases indices@.len() + 3 - tri,
    {
        let ghost entry = fb@;
        if tri + 2 < indices.len() {
            let i1 = indices[tri] as usize;
            let i2 = indices[tri + 1] as usize;
            let i3 = indices[tri + 2] as usize;
            if i1 < vertices.len() && i2 < vertices.len() && i3 < vertices.len() {
                let frags = rasterize(&vertices[i1], &vertices[i2], &vertices[i3], fb.width, fb.height);
                proof {
                    assert forall|px: int, py: int|
                        fb@.in_bounds(px, py) implies #[trigger] pixel_provenance(
                        old(fb)@,
                        fb@,
                        vertices@,
                        indices@,
                        tri as int + 3,
                        px,
                        py,
                    ) by {
                        assert(pixel_provenance(old(fb)@, fb@, vertices@, indices@, tri as int, px, py));
                        lemma_provenance_bound(
                            old(fb)@,
                            fb@,
                            vertices@,
                            indices@,
                            tri as int,
                            tri as int + 3,
                            px,
                            py,
                        );
                    }
                }
                let mut k: usize = 0;
                while k < frags.len()
                    invariant
                        fb.wf(),
                        fb.width == old(fb).width,
                        fb.height == old(fb).height,
                        fb.background_color == old(fb).background_color,
                        fb@.colors.len() == old(fb)@.colors.len(),
                        fb@.depths.len() == old(fb)@.depths.len(),
                        forall|j: int|
                            0 <= j < fb@.depths.len() ==> #[trigger] fb@.depths[j] <= old(fb)@.depths[j],
                        forall|j: int|
                            0 <= j < fb@.depths.len() ==> (#[trigger] fb@.depths[j] == old(fb)@.depths[j]
                                ==> fb@.colors[j] == old(fb)@.colors[j]),
                        forall|j: int|
                            0 <= j < fb@.depths.len() ==> #[trigger] fb@.depths[j] <= entry.depths[j],
                        forall|m: int|
                            0 <= m < k ==> ({
                                let f = #[trigger] frags@[m];
                                fb@.in_bounds(f.position.x as int, f.position.y as int)
                                    ==> fb@.depths[fb@.idx(f.position.x as int, f.position.y as int)]
                                    <= f.depth
                            }),
                        forall|px: int, py: int|
                            fb@.in_bounds(px, py) ==> #[trigger] pixel_provenance(
                                old(fb)@,
                                fb@,
                                vertices@,
                                indices@,
                                tri as int + 3,
                                px,
                                py,
                            ),
                    decreases frags@.len() - k,
                {
                    let frag = frags[k];
                    let x = frag.position.x;
                    let y = frag.position.y;
                    if x >= 0 && (x as usize) < fb.width && y >= 0 && (y as usize) < fb.height {
                        let color = frag.color.to_hex();
                        fb.set_current_color(color);
                        let ghost prev = fb@;
                        fb.point(x as usize, y as usize, frag.depth);
                        proof {
                            let i = prev.idx(x as int, y as int);
                            lemma_idx_bounds(prev.width as int, prev.height as int, x as int, y as int);
                            assert forall|j: int|
                                0 <= j < fb@.depths.len() implies #[trigger] fb@.depths[j]
                                <= prev.depths[j] && (fb@.depths[j] == prev.depths[j]
                                ==> fb@.colors[j] == prev.colors[j]) by {
                                if prev.in_bounds(x as int, y as int) && frag.depth
                                    < prev.depths[i] {
                                    assert(fb@.depths == prev.depths.update(i, frag.depth));
                                    assert(fb@.colors == prev.colors.update(i, color));
                                    if j != i {
                                        assert(fb@.depths[j] == prev.depths[j]);
                                        assert(fb@.colors[j] == prev.colors[j]);
                                    }
                                } else {
                                    assert(fb@ == prev);
                                }
                            }
                            assert(fb@.depths[i] <= frag.depth);
                            assert forall|px: int, py: int|
                                fb@.in_bounds(px, py) implies #[trigger] pixel_provenance(
                                old(fb)@,
                                fb@,
                                vertices@,
                                indices@,
                                tri as int + 3,
                                px,
                                py,
                            ) by {
                                assert(pixel_provenance(old(fb)@, prev, vertices@, indices@, tri as int + 3, px, py));
                                lemma_idx_bounds(prev.width as int, prev.height as int, px, py);
                                if prev.in_bounds(x as int, y as int) && frag.depth < prev.depths[i] {
                                    if px == x as int && py == y as int {
                                        let a = tri_vertex(vertices@, indices@, tri as int, 0);
                                        let b = tri_vertex(vertices@, indices@, tri as int, 1);
                                        let c = tri_vertex(vertices@, indices@, tri as int, 2);
                                        assert(triple_in_range(vertices@, indices@, tri as int));
                                        assert(a == vertices@[i1 as int]);
                                        assert(b == vertices@[i2 as int]);
                                        assert(c == vertices@[i3 as int]);
                                        assert(frag_ok(a, b, c, frag));
                                        assert(tri_covers(vertices@, indices@, tri as int, px, py));
                                        assert(fb@.depths[i] == frag.depth);
                                        assert(frag.depth as int == tri_depth(vertices@, indices@, tri as int, px, py));
                                        assert(fb@.colors[i] == color);
                                        assert(color == packed_rgb(frag.color.r, frag.color.g, frag.color.b));
                                        let ir = interp_at(a, b, c, px, py, a.color.r as int, b.color.r as int, c.color.r as int);
                                        let ig = interp_at(a, b, c, px, py, a.color.g as int, b.color.g as int, c.color.g as int);
                                        let ib = interp_at(a, b, c, px, py, a.color.b as int, b.color.b as int, c.color.b as int);
                                        assert(frag.color.r as int == ir && frag.color.g as int == ig && frag.color.b as int == ib);
                                        assert(frag.color.r == ir as u8 && frag.color.g == ig as u8 && frag.color.b == ib as u8);
                                        assert(color == tri_frag_color(vertices@, indices@, tri as int, px, py));
                                        assert(pixel_provenance(old(fb)@, fb@, vertices@, indices@, tri as int + 3, px, py));
                                    } else {
                                        lemma_idx_injective(prev.width as int, px, py, x as int, y as int);
                                        assert(fb@.depths[prev.idx(px, py)] == prev.depths[prev.idx(px, py)]);
                                        assert(fb@.colors[prev.idx(px, py)] == prev.colors[prev.idx(px, py)]);
                                        lemma_provenance_same_pixel(
                                            old(fb)@,
                                            prev,
                                            fb@,
                                            vertices@,
                                            indices@,
                                            tri as int + 3,
                                            px,
                                            py,
                                        );
                                    }
                                } else {
                                    assert(fb@ == prev);
                                }
                            }
                        }
                    }
                    proof {
                        assert forall|m: int| 0 <= m <= k && m < frags@.len() implies ({
                            let f = #[trigger] frags@[m];
                            fb@.in_bounds(f.position.x as int, f.position.y as int)
                                ==> fb@.depths[fb@.idx(f.position.x as int, f.position.y as int)]
                                <= f.depth
                        }) by {
                            let f = frags@[m];
                            if fb@.in_bounds(f.position.x as int, f.position.y as int) {
                                lemma_idx_bounds(
                                    fb@.width as int,
                                    fb@.height as int,
                                    f.position.x as int,
                                    f.position.y as int,
                                );
                            }
                        }
                    }
                    k += 1;
                }
                proof {
                    assert forall|t: int, px: int, py: int|
                        triple_in_range(vertices@, indices@, t) && t < tri + 3 implies
                        #[trigger] depth_resolved(fb@, vertices@, indices@, t, px, py) by {
                        if t < tri {
                            assert(depth_resolved(entry, vertices@, indices@, t, px, py));
                            if fb@.in_bounds(px, py) {
                                lemma_idx_bounds(fb@.width as int, fb@.height as int, px, py);
                            }
                        } else if t == tri as int {
                            let a = tri_vertex(vertices@, indices@, t, 0);
                            let b = tri_vertex(vertices@, indices@, t, 1);
                            let c = tri_vertex(vertices@, indices@, t, 2);
                            if covered_v(a, b, c, px, py) && fb@.in_bounds(px, py) {
                                assert(frag_exists(frags@, px, py));
                                let m = choose|m: int|
                                    0 <= m < frags@.len() && (#[trigger] frags@[m]).position.x
                                        == px && frags@[m].position.y == py;
                                assert(fb@.depths[fb@.idx(px, py)] <= frags@[m].depth);
                            }
                        }
                    }
                }
            } else {
                proof {
                    assert forall|t: int, px: int, py: int|
                        triple_in_range(vertices@, indices@, t) && t < tri + 3 implies
                        #[trigger] depth_resolved(fb@, vertices@, indices@, t, px, py) by {
                        assert(t != tri as int);
                    }
                    assert forall|px: int, py: int|
                        fb@.in_bounds(px, py) implies #[trigger] pixel_provenance(
                        old(fb)@,
                        fb@,
                        vertices@,
                        indices@,
                        tri as int + 3,
                        px,
                        py,
                    ) by {
                        assert(pixel_provenance(old(fb)@, fb@, vertices@, indices@, tri as int, px, py));
                        lemma_provenance_bound(
                            old(fb)@,
                            fb@,
                            vertices@,
                            indices@,
                            tri as int,
                            tri as int + 3,
                            px,
                            py,
                        );
                    }
                }
            }
        } else {
            proof {
                assert forall|px: int, py: int|
                    fb@.in_bounds(px, py) implies #[trigger] pixel_provenance(
                    old(fb)@,
                    fb@,
                    vertices@,
                    indices@,
                    tri as int + 3,
                    px,
                    py,
                ) by {
                    assert(pixel_provenance(old(fb)@, fb@, vertices@, indices@, tri as int, px, py));
                    lemma_provenance_bound(
                        old(fb)@,
                        fb@,
                        vertices@,
                        indices@,
                        tri as int,
                        tri as int + 3,
                        px,
                        py,
                    );
                }
            }
        }
        tri += 3;
    }
    proof {
        assert forall|px: int, py: int|
            fb@.in_bounds(px, py) implies #[trigger] pixel_provenance(
            old(fb)@,
            fb@,
            vertices@,
            indices@,
            indices@.len() as int,
            px,
            py,
        ) by {
            assert(pixel_provenance(old(fb)@, fb@, vertices@, indices@, tri as int, px, py));
            lemma_provenance_bound(
                old(fb)@,
                fb@,
                vertices@,
                indices@,
                tri as int,
                indices@.len() as int,
                px,
                py,
            );
        }
        assert forall|px: int, py: int|
            fb@.in_bounds(px, py) && #[trigger] uncovered_by_mesh(vertices@, indices@, px, py)
                implies fb@.depths[fb@.idx(px, py)] == old(fb)@.depths[fb@.idx(px, py)]
            && fb@.colors[fb@.idx(px, py)] == old(fb)@.colors[fb@.idx(px, py)] by {
            let j = fb@.idx(px, py);
            assert(pixel_provenance(old(fb)@, fb@, vertices@, indices@, tri as int, px, py));
            if !(fb@.depths[j] == old(fb)@.depths[j] && fb@.colors[j] == old(fb)@.colors[j]) {
                let t = choose|t: int|
                    0 <= t < tri as int && #[trigger] triple_in_range(vertices@, indices@, t)
                        && tri_covers(vertices@, indices@, t, px, py) && fb@.depths[j] == tri_depth(
                        vertices@,
                        indices@,
                        t,
                        px,
                        py,
                    ) && fb@.colors[j] == tri_frag_color(vertices@, indices@, t, px, py);
                assert(!tri_covers(vertices@, indices@, t, px, py));
                assert(false);
            }
        }
    }
}

} // verus!
