use kalamos::{Affinity, Cursor, LayoutCursor, Motion};

#[test]
fn cursor_new_has_before_affinity() {
    let c = Cursor::new(3, 7);
    assert_eq!(c, Cursor { line: 3, index: 7, affinity: Affinity::Before });
    assert_eq!(c, Cursor::new_with_affinity(3, 7, Affinity::Before));
    assert_eq!(Cursor::default(), Cursor::new(0, 0));
    let after = Cursor::new_with_affinity(1, 2, Affinity::After);
    assert_eq!(after.affinity, Affinity::After);
    assert!(Cursor::new(0, 5) < Cursor::new(1, 0));
}

#[test]
fn affinity_flags_roundtrip() {
    for a in [Affinity::Before, Affinity::After] {
        assert_eq!(Affinity::from_before(a.before()), a);
        assert_eq!(Affinity::from_after(a.after()), a);
        assert_ne!(a.before(), a.after());
    }
    for flag in [true, false] {
        assert_eq!(Affinity::from_before(flag), Affinity::from_after(!flag));
    }
    assert_eq!(Affinity::default(), Affinity::Before);
}

#[test]
fn layout_cursor_new_keeps_fields() {
    let lc = LayoutCursor::new(1, 2, 3);
    assert_eq!(lc, LayoutCursor { line: 1, layout: 2, glyph: 3 });
    assert_eq!(Motion::LayoutCursor(lc), Motion::LayoutCursor(LayoutCursor::new(1, 2, 3)));
    assert_ne!(Motion::Vertical(-4), Motion::Vertical(4));
}
