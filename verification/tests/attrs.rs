use std::hash::Hasher;

use kalamos::{
    canonical_bits, Attrs, AttrsOwned, CacheKeyFlags, CacheMetrics, Color, Family, FamilyOwned,
    FeatureTag, FontFeatures, FontMatchAttrs, LetterSpacing, Stretch, Style, TextDecoration,
    UnderlineStyle, Weight,
};

/// Cache metrics of the metrics with the given font size and line height.
fn cache_metrics(font_size: f32, line_height: f32) -> CacheMetrics {
    CacheMetrics::from_bits(font_size.to_bits(), line_height.to_bits())
}

// CacheMetrics is cache identity for metrics, so values equal under
// f32 == must be one identity: -0.0 folds into +0.0 and every NaN
// payload folds into the canonical NaN.

#[test]
fn negative_zero_and_positive_zero_are_one_cache_identity() {
    assert_eq!(cache_metrics(-0.0, 20.0), cache_metrics(0.0, 20.0));
    assert_eq!(cache_metrics(16.0, -0.0), cache_metrics(16.0, 0.0));
}

#[test]
fn all_nan_payloads_are_one_cache_identity() {
    let other_nan = f32::from_bits(f32::NAN.to_bits() ^ 1);
    assert!(other_nan.is_nan(), "precondition: still a NaN");
    assert_eq!(cache_metrics(f32::NAN, 20.0), cache_metrics(other_nan, 20.0));
}

#[test]
fn ordinary_metrics_roundtrip_exactly() {
    let (font_size, line_height) = (14.5f32, 19.25f32);
    let cached = cache_metrics(font_size, line_height);
    let roundtripped = (
        f32::from_bits(cached.font_size_bits()),
        f32::from_bits(cached.line_height_bits()),
    );
    assert_eq!(roundtripped.0, font_size);
    assert_eq!(roundtripped.1, line_height);
}

// FontFeatures holds one value per tag: enable-then-disable is the same
// state as disable alone, later writes win, and insertion order is not
// observable.

#[test]
fn enable_then_disable_is_disable() {
    let mut noisy = FontFeatures::new();
    noisy
        .enable(FeatureTag::kerning())
        .disable(FeatureTag::kerning());
    let mut quiet = FontFeatures::new();
    quiet.disable(FeatureTag::kerning());
    assert_eq!(noisy, quiet, "only the last write per tag is state");
}

#[test]
fn later_set_overwrites_earlier() {
    let mut twice = FontFeatures::new();
    twice
        .set(FeatureTag::stylistic_set_1(), 2)
        .set(FeatureTag::stylistic_set_1(), 5);
    let mut once = FontFeatures::new();
    once.set(FeatureTag::stylistic_set_1(), 5);
    assert_eq!(twice, once);
}

#[test]
fn insertion_order_is_not_observable() {
    let mut kern_first = FontFeatures::new();
    kern_first
        .enable(FeatureTag::kerning())
        .enable(FeatureTag::standard_ligatures());
    let mut liga_first = FontFeatures::new();
    liga_first
        .enable(FeatureTag::standard_ligatures())
        .enable(FeatureTag::kerning());
    assert_eq!(
        kern_first, liga_first,
        "the same per-tag values are the same state regardless of write order"
    );
}

#[test]
fn feature_iter_is_in_tag_order_with_last_values() {
    let mut features = FontFeatures::new();
    features
        .set(FeatureTag::stylistic_set_2(), 7)
        .enable(FeatureTag::kerning())
        .disable(FeatureTag::all_small_caps())
        .set(FeatureTag::kerning(), 3);
    let got: Vec<([u8; 4], u32)> = features
        .iter()
        .into_iter()
        .map(|(tag, value)| (*tag.as_bytes(), value))
        .collect();
    assert_eq!(got, vec![(*b"c2sc", 0), (*b"kern", 3), (*b"ss02", 7)]);
}

#[test]
fn feature_tags_have_their_opentype_bytes() {
    assert_eq!(FeatureTag::kerning().as_bytes(), b"kern");
    assert_eq!(FeatureTag::standard_ligatures().as_bytes(), b"liga");
    assert_eq!(FeatureTag::contextual_ligatures().as_bytes(), b"clig");
    assert_eq!(FeatureTag::contextual_alternates().as_bytes(), b"calt");
    assert_eq!(FeatureTag::discretionary_ligatures().as_bytes(), b"dlig");
    assert_eq!(FeatureTag::small_caps().as_bytes(), b"smcp");
    assert_eq!(FeatureTag::all_small_caps().as_bytes(), b"c2sc");
    assert_eq!(FeatureTag::stylistic_set_1().as_bytes(), b"ss01");
    assert_eq!(FeatureTag::stylistic_set_2().as_bytes(), b"ss02");
    assert_eq!(FeatureTag::new(b"abcd").as_bytes(), b"abcd");
    assert_eq!(FeatureTag::new(b"kern"), FeatureTag::kerning());
}

#[test]
fn canonical_bits_fold_zero_and_nan() {
    assert_eq!(canonical_bits(0x8000_0000), 0);
    assert_eq!(canonical_bits(0x7f80_0001), 0x7fc0_0000);
    assert_eq!(canonical_bits(0xffc0_1234), 0x7fc0_0000);
    // Infinities are not NaNs and keep their bits.
    assert_eq!(canonical_bits(0x7f80_0000), 0x7f80_0000);
    assert_eq!(canonical_bits(0xff80_0000), 0xff80_0000);
    assert_eq!(canonical_bits(1.5f32.to_bits()), 1.5f32.to_bits());
    assert_eq!(canonical_bits((-1.5f32).to_bits()), (-1.5f32).to_bits());
}

fn hash_of<T: std::hash::Hash>(value: &T) -> u64 {
    let mut hasher = std::collections::hash_map::DefaultHasher::new();
    value.hash(&mut hasher);
    hasher.finish()
}

#[test]
fn letter_spacing_equality_follows_f32_equality() {
    let zero = LetterSpacing(0.0f32.to_bits());
    let minus_zero = LetterSpacing((-0.0f32).to_bits());
    assert_eq!(zero, minus_zero);
    assert_eq!(hash_of(&zero), hash_of(&minus_zero));
    let nan_a = LetterSpacing(f32::NAN.to_bits());
    let nan_b = LetterSpacing(f32::NAN.to_bits() ^ 3);
    assert_eq!(nan_a, nan_b);
    assert_eq!(hash_of(&nan_a), hash_of(&nan_b));
    assert_ne!(LetterSpacing(0.5f32.to_bits()), LetterSpacing(0.25f32.to_bits()));
    assert_ne!(LetterSpacing(f32::NAN.to_bits()), LetterSpacing(0.0f32.to_bits()));
}

#[test]
fn letter_spacing_keeps_the_value_it_was_given() {
    // Canonicalization is for `==` and `Hash` only: the stored value is the raw one.
    let attrs = Attrs::new().letter_spacing((-0.0f32).to_bits());
    let spacing = attrs.letter_spacing_opt.unwrap();
    assert_eq!(spacing.0, (-0.0f32).to_bits());
    assert!(f32::from_bits(spacing.0).is_sign_negative());
    let odd_nan = f32::NAN.to_bits() ^ 1;
    let owned = AttrsOwned::new(&Attrs::new().letter_spacing(odd_nan));
    assert_eq!(owned.letter_spacing_opt.unwrap().0, odd_nan);
    assert_eq!(owned.as_attrs().letter_spacing_opt.unwrap().0, odd_nan);
    assert_eq!(owned.clone().letter_spacing_opt.unwrap().0, odd_nan);
}

#[test]
fn text_decoration_defaults_to_nothing() {
    let plain = TextDecoration::new();
    assert!(!plain.has_decoration());
    assert_eq!(plain, TextDecoration::default());
    assert_eq!(plain.underline, UnderlineStyle::Off);
    let underlined = TextDecoration {
        underline: UnderlineStyle::Double,
        ..TextDecoration::new()
    };
    assert!(underlined.has_decoration());
    let struck = TextDecoration {
        strikethrough: true,
        ..TextDecoration::new()
    };
    assert!(struck.has_decoration());
    let colored_only = TextDecoration {
        underline_color_opt: Some(Color::rgb(1, 2, 3)),
        ..TextDecoration::new()
    };
    assert!(!colored_only.has_decoration());
}

#[test]
fn attrs_new_is_regular_sans_serif() {
    let attrs = Attrs::new();
    assert_eq!(attrs.family, Family::SansSerif);
    assert_eq!(attrs.stretch, Stretch::Normal);
    assert_eq!(attrs.style, Style::Normal);
    assert_eq!(attrs.weight, Weight(400));
    assert_eq!(attrs.weight, Weight::normal());
    assert_eq!(attrs.metadata, 0);
    assert_eq!(attrs.color_opt, None);
    assert_eq!(attrs.cache_key_flags, CacheKeyFlags::empty());
    assert_eq!(attrs.metrics_opt, None);
    assert_eq!(attrs.letter_spacing_opt, None);
    assert_eq!(attrs.font_features, FontFeatures::new());
    assert!(!attrs.text_decoration.has_decoration());
}

#[test]
fn attrs_builders_set_one_field_each() {
    let attrs = Attrs::new()
        .color(Color::rgb(0x10, 0x20, 0x30))
        .family(Family::Name("Noto Naskh Arabic"))
        .stretch(Stretch::Condensed)
        .style(Style::Italic)
        .weight(Weight::bold())
        .metadata(42)
        .cache_key_flags(CacheKeyFlags::from_bits_retain(2))
        .metrics(cache_metrics(14.0, 20.0))
        .letter_spacing(0.5f32.to_bits())
        .underline(UnderlineStyle::Single)
        .underline_color(Color::rgb(1, 1, 1))
        .strikethrough()
        .strikethrough_color(Color::rgb(2, 2, 2))
        .overline()
        .overline_color(Color::rgb(3, 3, 3));
    assert_eq!(attrs.color_opt, Some(Color(0xFF10_2030)));
    assert_eq!(attrs.family, Family::Name("Noto Naskh Arabic"));
    assert_eq!(attrs.stretch, Stretch::Condensed);
    assert_eq!(attrs.style, Style::Italic);
    assert_eq!(attrs.weight, Weight(700));
    assert_eq!(attrs.metadata, 42);
    assert_eq!(attrs.cache_key_flags.bits(), 2);
    assert_eq!(attrs.metrics_opt, Some(cache_metrics(14.0, 20.0)));
    assert_eq!(attrs.letter_spacing_opt, Some(LetterSpacing(0.5f32.to_bits())));
    assert_eq!(attrs.text_decoration.underline, UnderlineStyle::Single);
    assert_eq!(attrs.text_decoration.underline_color_opt, Some(Color::rgb(1, 1, 1)));
    assert!(attrs.text_decoration.strikethrough);
    assert_eq!(attrs.text_decoration.strikethrough_color_opt, Some(Color::rgb(2, 2, 2)));
    assert!(attrs.text_decoration.overline);
    assert_eq!(attrs.text_decoration.overline_color_opt, Some(Color::rgb(3, 3, 3)));

    let mut features = FontFeatures::new();
    features.disable(FeatureTag::contextual_alternates());
    let with_features = Attrs::new().font_features(features.clone());
    assert_eq!(with_features.font_features, features);
}

#[test]
fn compatible_compares_font_selection_only() {
    let a = Attrs::new().family(Family::Name("Amiri")).color(Color::rgb(1, 2, 3));
    let b = Attrs::new().family(Family::Name("Amiri")).metadata(9).strikethrough();
    assert!(a.compatible(&b));
    assert!(!a.compatible(&b.clone().weight(Weight::bold())));
    assert!(!a.compatible(&b.clone().style(Style::Oblique)));
    assert!(!a.compatible(&b.clone().stretch(Stretch::Expanded)));
    assert!(!a.compatible(&Attrs::new().family(Family::Name("Amira"))));
    assert!(!a.compatible(&Attrs::new()));
}

#[test]
fn family_equality_compares_names() {
    let name = String::from("Vazirmatn");
    assert_eq!(Family::Name(&name), Family::Name("Vazirmatn"));
    assert_ne!(Family::Name("Vazirmatn"), Family::Name("vazirmatn"));
    assert_ne!(Family::Name("Serif"), Family::Serif);
    assert_eq!(Family::Monospace, Family::Monospace);
    assert_ne!(Family::Cursive, Family::Fantasy);
}

#[test]
fn owned_family_and_attrs_roundtrip() {
    for family in [
        Family::Name("كتاب"),
        Family::Serif,
        Family::SansSerif,
        Family::Cursive,
        Family::Fantasy,
        Family::Monospace,
    ] {
        let owned = FamilyOwned::new(family);
        assert_eq!(owned.as_family(), family);
        assert_eq!(owned.clone(), owned);
    }
    let attrs = Attrs::new()
        .family(Family::Name("Scheherazade"))
        .weight(Weight::semibold())
        .letter_spacing((-0.0f32).to_bits());
    let owned = AttrsOwned::new(&attrs);
    assert_eq!(owned.as_attrs(), attrs);
    assert_eq!(owned.clone(), owned);
    assert_eq!(
        FontMatchAttrs::from_attrs(&attrs),
        FontMatchAttrs::from_attrs(&owned.as_attrs())
    );
    assert_ne!(
        FontMatchAttrs::from_attrs(&attrs),
        FontMatchAttrs::from_attrs(&Attrs::new())
    );
    assert_eq!(FontMatchAttrs::from(&attrs), FontMatchAttrs::from_attrs(&attrs));
}

#[test]
fn weight_presets() {
    let all = [
        Weight::thin(),
        Weight::extra_light(),
        Weight::light(),
        Weight::normal(),
        Weight::medium(),
        Weight::semibold(),
        Weight::bold(),
        Weight::extra_bold(),
        Weight::black(),
    ];
    let values: Vec<u16> = all.iter().map(|w| w.0).collect();
    assert_eq!(values, vec![100, 200, 300, 400, 500, 600, 700, 800, 900]);
}

#[test]
fn owned_attrs_equality_follows_their_values() {
    let a = AttrsOwned::new(&Attrs::new().family(Family::Name("Noto")).letter_spacing((-0.0f32).to_bits()));
    let b = AttrsOwned::new(&Attrs::new().family(Family::Name("Noto")).letter_spacing(0.0f32.to_bits()));
    let c = AttrsOwned::new(&Attrs::new().family(Family::Name("Noto Sans")).letter_spacing(0.0f32.to_bits()));
    assert_eq!(a, b);
    assert_ne!(b, c);
    assert_eq!(FamilyOwned::new(Family::Name("Noto")), FamilyOwned::new(Family::Name("Noto")));
    assert_ne!(FamilyOwned::new(Family::Name("Noto")), FamilyOwned::new(Family::Serif));
}
