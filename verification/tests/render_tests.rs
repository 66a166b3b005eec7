use softraster::color::Color;
use softraster::framebuffer::{Framebuffer, FAR_DEPTH};
use softraster::render::render_mesh;
use softraster::vertex::{Vec2i, Vec3i, Vertex};

fn vertex(sx: i64, sy: i64, sz: i64, color: Color) -> Vertex {
    Vertex {
        position: Vec3i { x: 0, y: 0, z: 0 },
        normal: Vec3i { x: 0, y: 0, z: 1 },
        tex_coords: Vec2i { x: 0, y: 0 },
        color,
        transformed_position: Vec3i { x: sx, y: sy, z: sz },
        transformed_normal: Vec3i { x: 0, y: 0, z: 1 },
    }
}

fn overlapping_meshes() -> Vec<Vertex> {
    let red = Color::new(255, 0, 0);
    let blue = Color::new(0, 0, 255);
    vec![
        // Triangle A, nearer (depth 5) and red.
        vertex(0, 0, 5, red),
        vertex(10, 0, 5, red),
        vertex(0, 10, 5, red),
        // Triangle B, the same footprint but farther (depth 10) and blue.
        vertex(0, 0, 10, blue),
        vertex(10, 0, 10, blue),
        vertex(0, 10, 10, blue),
    ]
}

#[test]
fn single_triangle_renders_its_pixels() {
    let mut fb = Framebuffer::new(16, 16);
    let red = Color::new(255, 0, 0);
    let vertices = vec![vertex(0, 0, 5, red), vertex(10, 0, 5, red), vertex(0, 10, 5, red)];
    let indices: Vec<u32> = vec![0, 1, 2];
    render_mesh(&mut fb, &vertices, &indices);
    assert_eq!(fb.buffer[0], 0xFF0000);
    assert_eq!(fb.zbuffer[0], 5);
    assert_eq!(fb.buffer[5 * 16 + 5], 0xFF0000);
    // Outside the triangle nothing was written.
    assert_eq!(fb.buffer[15 * 16 + 15], 0);
    assert_eq!(fb.zbuffer[15 * 16 + 15], FAR_DEPTH);
}

#[test]
fn nearer_triangle_wins_regardless_of_draw_order() {
    // Triangle A is nearer than triangle B at every shared pixel: the
    // overlap shows only A's color, whichever is drawn first.
    let vertices = overlapping_meshes();
    let a_then_b: Vec<u32> = vec![0, 1, 2, 3, 4, 5];
    let b_then_a: Vec<u32> = vec![3, 4, 5, 0, 1, 2];
    let mut first = Framebuffer::new(16, 16);
    render_mesh(&mut first, &vertices, &a_then_b);
    let mut second = Framebuffer::new(16, 16);
    render_mesh(&mut second, &vertices, &b_then_a);
    assert_eq!(first.buffer, second.buffer);
    assert_eq!(first.zbuffer, second.zbuffer);
    for y in 0..16i64 {
        for x in 0..16i64 {
            let idx = (y * 16 + x) as usize;
            if x + y <= 10 {
                assert_eq!(first.buffer[idx], 0xFF0000);
                assert_eq!(first.zbuffer[idx], 5);
            } else {
                assert_eq!(first.buffer[idx], 0);
                assert_eq!(first.zbuffer[idx], FAR_DEPTH);
            }
        }
    }
}

#[test]
fn out_of_range_indices_are_skipped() {
    let red = Color::new(255, 0, 0);
    let vertices = vec![vertex(0, 0, 5, red), vertex(10, 0, 5, red), vertex(0, 10, 5, red)];
    let indices: Vec<u32> = vec![0, 1, 3];
    let mut fb = Framebuffer::new(16, 16);
    render_mesh(&mut fb, &vertices, &indices);
    assert!(fb.buffer.iter().all(|&c| c == 0));
    assert!(fb.zbuffer.iter().all(|&d| d == FAR_DEPTH));
}

#[test]
fn incomplete_final_triple_is_ignored() {
    let red = Color::new(255, 0, 0);
    let vertices = vec![vertex(0, 0, 5, red), vertex(10, 0, 5, red), vertex(0, 10, 5, red)];
    let indices: Vec<u32> = vec![0, 1];
    let mut fb = Framebuffer::new(16, 16);
    render_mesh(&mut fb, &vertices, &indices);
    assert!(fb.buffer.iter().all(|&c| c == 0));
    let full: Vec<u32> = vec![0, 1, 2, 0, 1];
    let mut fb2 = Framebuffer::new(16, 16);
    render_mesh(&mut fb2, &vertices, &full);
    assert_eq!(fb2.buffer[0], 0xFF0000);
}

#[test]
fn degenerate_triangle_renders_nothing() {
    let red = Color::new(255, 0, 0);
    let vertices = vec![vertex(5, 5, 0, red), vertex(5, 5, 0, red), vertex(9, 2, 0, red)];
    let indices: Vec<u32> = vec![0, 1, 2];
    let mut fb = Framebuffer::new(16, 16);
    render_mesh(&mut fb, &vertices, &indices);
    assert!(fb.buffer.iter().all(|&c| c == 0));
}
