use softraster::framebuffer::{Framebuffer, FAR_DEPTH};

#[test]
fn new_framebuffer_is_black_and_far() {
    let fb = Framebuffer::new(4, 3);
    assert_eq!(fb.width, 4);
    assert_eq!(fb.height, 3);
    assert_eq!(fb.buffer.len(), 12);
    assert_eq!(fb.zbuffer.len(), 12);
    assert!(fb.buffer.iter().all(|&c| c == 0));
    assert!(fb.zbuffer.iter().all(|&d| d == FAR_DEPTH));
}

#[test]
fn clear_fills_background_and_resets_depth() {
    let mut fb = Framebuffer::new(2, 2);
    fb.set_background_color(0x001122);
    fb.set_current_color(0xFFDD44);
    fb.try_set(1, 1, 0xABCDEF, 5);
    fb.clear();
    assert!(fb.buffer.iter().all(|&c| c == 0x001122));
    assert!(fb.zbuffer.iter().all(|&d| d == FAR_DEPTH));
    assert_eq!(fb.current_color, 0xFFDD44);
}

#[test]
fn nearer_write_replaces_farther() {
    let mut fb = Framebuffer::new(2, 2);
    fb.try_set(1, 0, 111, 50);
    assert_eq!(fb.buffer[1], 111);
    assert_eq!(fb.zbuffer[1], 50);
    fb.try_set(1, 0, 222, 20);
    assert_eq!(fb.buffer[1], 222);
    assert_eq!(fb.zbuffer[1], 20);
}

#[test]
fn farther_write_is_dropped() {
    let mut fb = Framebuffer::new(2, 2);
    fb.try_set(0, 0, 111, 20);
    fb.try_set(0, 0, 222, 50);
    assert_eq!(fb.buffer[0], 111);
    assert_eq!(fb.zbuffer[0], 20);
}

#[test]
fn equal_depth_write_is_dropped() {
    let mut fb = Framebuffer::new(2, 2);
    fb.try_set(0, 0, 111, 20);
    fb.try_set(0, 0, 222, 20);
    assert_eq!(fb.buffer[0], 111);
    assert_eq!(fb.zbuffer[0], 20);
}

#[test]
fn out_of_range_write_is_dropped() {
    let mut fb = Framebuffer::new(2, 2);
    fb.try_set(2, 0, 111, 5);
    fb.try_set(0, 2, 111, 5);
    fb.try_set(100, 100, 111, 5);
    assert!(fb.buffer.iter().all(|&c| c == 0));
    assert!(fb.zbuffer.iter().all(|&d| d == FAR_DEPTH));
}

#[test]
fn depth_test_is_order_independent() {
    // Two candidates for one pixel with depths d1 < d2: either order leaves
    // the d1 candidate's color and depth.
    let mut first = Framebuffer::new(3, 3);
    first.try_set(1, 2, 0xAA0000, 7);
    first.try_set(1, 2, 0x00BB00, 9);
    let mut second = Framebuffer::new(3, 3);
    second.try_set(1, 2, 0x00BB00, 9);
    second.try_set(1, 2, 0xAA0000, 7);
    assert_eq!(first.buffer, second.buffer);
    assert_eq!(first.zbuffer, second.zbuffer);
    let idx = 2 * 3 + 1;
    assert_eq!(first.buffer[idx], 0xAA0000);
    assert_eq!(first.zbuffer[idx], 7);
}

#[test]
fn point_uses_current_color() {
    let mut fb = Framebuffer::new(2, 2);
    fb.set_current_color(0x123456);
    fb.point(0, 1, 3);
    assert_eq!(fb.buffer[2], 0x123456);
    assert_eq!(fb.zbuffer[2], 3);
}
