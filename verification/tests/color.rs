use kalamos::Color;

#[test]
fn rgba_packs_argb() {
    let c = Color::rgba(0x12, 0x34, 0x56, 0x78);
    assert_eq!(c.0, 0x7812_3456);
    assert_eq!((c.r(), c.g(), c.b(), c.a()), (0x12, 0x34, 0x56, 0x78));
    assert_eq!(c.as_rgba_tuple(), (0x12, 0x34, 0x56, 0x78));
    assert_eq!(c.as_rgba(), [0x12, 0x34, 0x56, 0x78]);
}

#[test]
fn rgb_is_opaque() {
    let c = Color::rgb(0xFF, 0x00, 0x80);
    assert_eq!(c.0, 0xFFFF_0080);
    assert_eq!(c.a(), 0xFF);
}

#[test]
fn components_roundtrip_through_rgba() {
    for v in [0u32, 1, 0xDEAD_BEEF, 0xFFFF_FFFF, 0x0102_0304, 0x8000_0000] {
        let c = Color(v);
        let [r, g, b, a] = c.as_rgba();
        assert_eq!(Color::rgba(r, g, b, a), c);
    }
    for (r, g, b, a) in [(0, 0, 0, 0), (255, 255, 255, 255), (1, 2, 3, 4), (200, 0, 17, 99)] {
        assert_eq!(Color::rgba(r, g, b, a).as_rgba_tuple(), (r, g, b, a));
    }
}
