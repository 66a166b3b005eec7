use softraster::color::Color;
use softraster::fragment::Fragment;
use softraster::vertex::Vec3i;

#[test]
fn to_hex_packs_channels() {
    assert_eq!(Color::new(0xFF, 0xDD, 0x44).to_hex(), 0xFFDD44);
    assert_eq!(Color::new(0, 0x11, 0x22).to_hex(), 0x001122);
    assert_eq!(Color::new(0, 0, 0).to_hex(), 0);
    assert_eq!(Color::new(255, 255, 255).to_hex(), 0x00FF_FFFF);
    assert_eq!(Color::new(1, 0, 0).to_hex(), 0x0001_0000);
}

#[test]
fn fragment_new_defaults_vertex_position_to_origin() {
    let f = Fragment::new(3, 4, Color::new(9, 8, 7), 42);
    assert_eq!(f.position.x, 3);
    assert_eq!(f.position.y, 4);
    assert_eq!(f.position.z, 42);
    assert_eq!(f.depth, 42);
    assert_eq!(f.color, Color::new(9, 8, 7));
    assert_eq!(f.vertex_position, Vec3i { x: 0, y: 0, z: 0 });
}

#[test]
fn fragment_new_with_vertex_position_keeps_it() {
    let vp = Vec3i { x: -5, y: 6, z: 7 };
    let f = Fragment::new_with_vertex_position(1, 2, Color::new(0, 0, 0), -3, vp);
    assert_eq!(f.position.z, -3);
    assert_eq!(f.depth, -3);
    assert_eq!(f.vertex_position, vp);
}
