use kalamos::{image_pixels, Color, ImageContent, Placement};

#[test]
fn mask_pixels_put_coverage_in_alpha() {
    let placement = Placement { left: 3, top: 2, width: 2, height: 2 };
    let base = Color::rgba(0x11, 0x22, 0x33, 0x44);
    let data = [0x00, 0x80, 0xFF, 0x01];
    let pixels = image_pixels(placement, ImageContent::Mask, &data, base);
    assert_eq!(
        pixels,
        vec![
            (3, -2, Color(0x0011_2233)),
            (4, -2, Color(0x8011_2233)),
            (3, -1, Color(0xFF11_2233)),
            (4, -1, Color(0x0111_2233)),
        ]
    );
}

#[test]
fn color_pixels_take_four_bytes_each() {
    let placement = Placement { left: -1, top: 0, width: 1, height: 2 };
    let data = [1, 2, 3, 4, 5, 6, 7, 8];
    let pixels = image_pixels(placement, ImageContent::Color, &data, Color(0));
    assert_eq!(
        pixels,
        vec![(-1, 0, Color::rgba(1, 2, 3, 4)), (-1, 1, Color::rgba(5, 6, 7, 8))]
    );
}

#[test]
fn subpixel_masks_and_empty_images_yield_nothing() {
    let placement = Placement { left: 0, top: 0, width: 1, height: 1 };
    assert!(image_pixels(placement, ImageContent::SubpixelMask, &[1, 2, 3], Color(0)).is_empty());
    let empty = Placement { left: 0, top: 0, width: 0, height: 5 };
    assert!(image_pixels(empty, ImageContent::Mask, &[], Color(0)).is_empty());
    let oversized = Placement { left: 0, top: 0, width: 1, height: 0x8000_0000 };
    assert!(image_pixels(oversized, ImageContent::Mask, &[], Color(0)).is_empty());
}
