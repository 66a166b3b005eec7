use softraster::color::Color;
use softraster::fragment::Fragment;
use softraster::geometry::edge_function;
use softraster::raster::rasterize;
use softraster::vertex::{Vec2i, Vec3i, Vertex};

fn vertex(sx: i64, sy: i64, sz: i64, color: Color, pos: Vec3i) -> Vertex {
    Vertex {
        position: pos,
        normal: Vec3i { x: 0, y: 0, z: 1 },
        tex_coords: Vec2i { x: 0, y: 0 },
        color,
        transformed_position: Vec3i { x: sx, y: sy, z: sz },
        transformed_normal: Vec3i { x: 0, y: 0, z: 1 },
    }
}

fn red_vertex(sx: i64, sy: i64, sz: i64) -> Vertex {
    vertex(sx, sy, sz, Color::new(255, 0, 0), Vec3i { x: 0, y: 0, z: 0 })
}

fn frag_at(frags: &[Fragment], x: i64, y: i64) -> Option<&Fragment> {
    frags.iter().find(|f| f.position.x == x && f.position.y == y)
}

#[test]
fn edge_function_matches_cross_product() {
    // The edge from (0,0) to (10,0): points above have positive sign.
    assert_eq!(edge_function(0, 0, 10, 0, 5, 3), 30);
    assert_eq!(edge_function(0, 0, 10, 0, 5, -3), -30);
    assert_eq!(edge_function(0, 0, 10, 0, 5, 0), 0);
    // Doubled area of the right triangle (0,0), (10,0), (0,10).
    assert_eq!(edge_function(0, 0, 10, 0, 0, 10), 100);
}

#[test]
fn unit_triangle_covers_exactly_its_closed_half_square() {
    // A triangle at (0,0,0), (10,0,0), (0,10,0), uniform red: fragments
    // exactly cover the interior and edges within 0 <= x, 0 <= y, x + y <= 10.
    let v1 = red_vertex(0, 0, 0);
    let v2 = red_vertex(10, 0, 0);
    let v3 = red_vertex(0, 10, 0);
    let frags = rasterize(&v1, &v2, &v3, 100, 100);
    for f in &frags {
        assert!(f.position.x >= 0);
        assert!(f.position.y >= 0);
        assert!(f.position.x + f.position.y <= 10);
        assert_eq!(f.color, Color::new(255, 0, 0));
        assert_eq!(f.depth, 0);
    }
    // Every pixel of the closed triangle is covered exactly once.
    let mut count = 0;
    for y in 0..=10i64 {
        for x in 0..=10i64 {
            let inside = x + y <= 10;
            let hits = frags.iter().filter(|f| f.position.x == x && f.position.y == y).count();
            assert_eq!(hits, if inside { 1 } else { 0 });
            count += hits;
        }
    }
    assert_eq!(count, frags.len());
    assert_eq!(frags.len(), 66);
}

#[test]
fn coincident_vertices_yield_no_fragments() {
    let v1 = red_vertex(5, 5, 0);
    let v2 = red_vertex(5, 5, 0);
    let v3 = red_vertex(20, 9, 0);
    assert_eq!(rasterize(&v1, &v2, &v3, 100, 100).len(), 0);
}

#[test]
fn collinear_vertices_yield_no_fragments() {
    let v1 = red_vertex(0, 0, 0);
    let v2 = red_vertex(5, 5, 0);
    let v3 = red_vertex(10, 10, 0);
    assert_eq!(rasterize(&v1, &v2, &v3, 100, 100).len(), 0);
}

#[test]
fn winding_does_not_matter() {
    let v1 = red_vertex(0, 0, 0);
    let v2 = red_vertex(10, 0, 0);
    let v3 = red_vertex(0, 10, 0);
    let ccw = rasterize(&v1, &v2, &v3, 100, 100);
    let cw = rasterize(&v1, &v3, &v2, 100, 100);
    assert_eq!(ccw.len(), cw.len());
    for f in &ccw {
        let other = frag_at(&cw, f.position.x, f.position.y).expect("pixel missing after reversal");
        assert_eq!(other.depth, f.depth);
        assert_eq!(other.color, f.color);
    }
}

#[test]
fn depth_interpolates_linearly_across_an_edge() {
    let v1 = red_vertex(0, 0, 0);
    let v2 = red_vertex(10, 0, 1000);
    let v3 = red_vertex(0, 10, 0);
    let frags = rasterize(&v1, &v2, &v3, 100, 100);
    let f = frag_at(&frags, 5, 0).expect("pixel (5, 0) must be covered");
    assert_eq!(f.depth, 500);
    let g = frag_at(&frags, 10, 0).expect("pixel (10, 0) must be covered");
    assert_eq!(g.depth, 1000);
    let h = frag_at(&frags, 0, 0).expect("pixel (0, 0) must be covered");
    assert_eq!(h.depth, 0);
}

#[test]
fn shading_position_interpolates_object_space() {
    let p1 = Vec3i { x: 0, y: 0, z: 0 };
    let p2 = Vec3i { x: 100, y: 0, z: 0 };
    let p3 = Vec3i { x: 0, y: 100, z: 0 };
    let v1 = vertex(0, 0, 0, Color::new(255, 0, 0), p1);
    let v2 = vertex(10, 0, 0, Color::new(255, 0, 0), p2);
    let v3 = vertex(0, 10, 0, Color::new(255, 0, 0), p3);
    let frags = rasterize(&v1, &v2, &v3, 100, 100);
    let f = frag_at(&frags, 5, 0).expect("pixel (5, 0) must be covered");
    assert_eq!(f.vertex_position, Vec3i { x: 50, y: 0, z: 0 });
    let g = frag_at(&frags, 0, 10).expect("pixel (0, 10) must be covered");
    assert_eq!(g.vertex_position, Vec3i { x: 0, y: 100, z: 0 });
    // Never extrapolated: each component stays within the vertex values.
    for f in &frags {
        assert!(0 <= f.vertex_position.x && f.vertex_position.x <= 100);
        assert!(0 <= f.vertex_position.y && f.vertex_position.y <= 100);
        assert_eq!(f.vertex_position.z, 0);
    }
}

#[test]
fn color_interpolates_and_matches_vertices_at_corners() {
    let v1 = vertex(0, 0, 0, Color::new(255, 0, 0), Vec3i { x: 0, y: 0, z: 0 });
    let v2 = vertex(10, 0, 0, Color::new(0, 255, 0), Vec3i { x: 0, y: 0, z: 0 });
    let v3 = vertex(0, 10, 0, Color::new(0, 0, 255), Vec3i { x: 0, y: 0, z: 0 });
    let frags = rasterize(&v1, &v2, &v3, 100, 100);
    assert_eq!(frag_at(&frags, 0, 0).unwrap().color, Color::new(255, 0, 0));
    assert_eq!(frag_at(&frags, 10, 0).unwrap().color, Color::new(0, 255, 0));
    assert_eq!(frag_at(&frags, 0, 10).unwrap().color, Color::new(0, 0, 255));
    // Halfway along the bottom edge the red and green channels split evenly
    // (truncating division: 255 * 50 / 100 = 127).
    let mid = frag_at(&frags, 5, 0).unwrap();
    assert_eq!(mid.color, Color::new(127, 127, 0));
}

#[test]
fn barycentric_weights_sum_to_area_on_covered_pixels() {
    // For every covered pixel the three edge-function weights carry the
    // area's sign and sum exactly to the doubled area, i.e. they normalize
    // to exactly one.
    let (x1, y1) = (2, 1);
    let (x2, y2) = (17, 4);
    let (x3, y3) = (6, 13);
    let area = edge_function(x1, y1, x2, y2, x3, y3);
    let v1 = red_vertex(x1, y1, 0);
    let v2 = red_vertex(x2, y2, 0);
    let v3 = red_vertex(x3, y3, 0);
    let frags = rasterize(&v1, &v2, &v3, 100, 100);
    assert!(frags.len() > 0);
    for f in &frags {
        let (px, py) = (f.position.x, f.position.y);
        let w1 = edge_function(x2, y2, x3, y3, px, py);
        let w2 = edge_function(x3, y3, x1, y1, px, py);
        let w3 = edge_function(x1, y1, x2, y2, px, py);
        assert_eq!(w1 + w2 + w3, area);
        if area > 0 {
            assert!(w1 >= 0 && w2 >= 0 && w3 >= 0);
        } else {
            assert!(w1 <= 0 && w2 <= 0 && w3 <= 0);
        }
    }
}

#[test]
fn offscreen_parts_are_clipped_to_the_grid() {
    // A triangle reaching far outside the grid: only on-screen pixels come
    // back.
    let v1 = red_vertex(-100, -100, 0);
    let v2 = red_vertex(100, -100, 0);
    let v3 = red_vertex(-100, 100, 0);
    let frags = rasterize(&v1, &v2, &v3, 8, 8);
    assert!(frags.len() > 0);
    for f in &frags {
        assert!(0 <= f.position.x && f.position.x < 8);
        assert!(0 <= f.position.y && f.position.y < 8);
    }
}

#[test]
fn empty_grid_yields_no_fragments() {
    let v1 = red_vertex(0, 0, 0);
    let v2 = red_vertex(10, 0, 0);
    let v3 = red_vertex(0, 10, 0);
    assert_eq!(rasterize(&v1, &v2, &v3, 0, 0).len(), 0);
}
