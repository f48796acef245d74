use core::hash::{Hash, Hasher};
use vstd::prelude::*;
use vstd::std_specs::cmp::PartialEqSpecImpl;

use crate::color::Color;
use crate::features::{FeatureTag, FontFeatures};
use crate::font::{CacheKeyFlags, Family, FamilyModel, FamilyOwned, Stretch, Style, Weight};

verus! {

/// The exponent bits of an `f32` bit pattern are all set and its mantissa is
/// not zero: the pattern is a NaN.
pub open spec fn is_nan_bits(bits: u32) -> bool {
    bits & 0x7f80_0000 == 0x7f80_0000 && bits & 0x007f_ffff != 0
}

/// The bit pattern of an `f32` zero, `+0.0` or `-0.0`.
pub open spec fn is_zero_bits(bits: u32) -> bool {
    bits == 0 || bits == 0x8000_0000
}

/// The bits of the quiet NaN that every NaN folds into.
pub open spec fn canonical_nan_bits() -> u32 {
    0x7fc0_0000
}

/// `f32` bits with one representation per semantic value: `-0.0` folds
/// into `+0.0` and every NaN payload folds into the canonical quiet NaN.
pub open spec fn spec_canonical_bits(bits: u32) -> u32 {
    if is_nan_bits(bits) {
        canonical_nan_bits()
    } else if bits == 0x8000_0000 {
        0
    } else {
        bits
    }
}

/// Two `f32` values, given by their bits, are equal under `==`.
pub open spec fn f32_bits_eq(a: u32, b: u32) -> bool {
    !is_nan_bits(a) && !is_nan_bits(b) && (a == b || (is_zero_bits(a) && is_zero_bits(b)))
}

/// Canonical bits of an `f32` given by its bit pattern: the bits of the
/// value plus `+0.0`, or of the canonical NaN when the value is a NaN.
pub fn canonical_bits(bits: u32) -> (r: u32)
    ensures
        r == spec_canonical_bits(bits),
{
    if bits & 0x7f80_0000 == 0x7f80_0000 && bits & 0x007f_ffff != 0 {
        0x7fc0_0000
    } else if bits == 0x8000_0000 {
        0
    } else {
        bits
    }
}

/// Canonical bits are one identity per class of values that `f32` `==`
/// cannot tell apart (all NaNs counting as one class), and canonicalizing
/// twice changes nothing.
pub proof fn lemma_canonical_bits_identity(a: u32, b: u32)
    ensures
        spec_canonical_bits(a) == spec_canonical_bits(b) <==> (f32_bits_eq(a, b) || (
        is_nan_bits(a) && is_nan_bits(b))),
        spec_canonical_bits(spec_canonical_bits(a)) == spec_canonical_bits(a),
        !is_nan_bits(a) && !is_zero_bits(a) ==> spec_canonical_bits(a) == a,
{
    assert(is_nan_bits(0x7fc0_0000u32)) by (bit_vector);
    assert(!is_nan_bits(0u32)) by (bit_vector);
    assert(!is_nan_bits(0x8000_0000u32)) by (bit_vector);
}

/// Metrics (font size and line height), held by the bit patterns of the two
/// `f32` values, canonicalized so that bit-based `Eq` and `Hash` agree with
/// `f32` `==` wherever `==` can distinguish.
#[derive(Clone, Copy, Debug, Eq, Hash, PartialEq, Structural)]
pub struct CacheMetrics {
    font_size_bits: u32,
    line_height_bits: u32,
}

impl View for CacheMetrics {
    type V = (u32, u32);

    /// The canonical bits of the font size and of the line height.
    closed spec fn view(&self) -> (u32, u32) {
        (self.font_size_bits, self.line_height_bits)
    }
}

impl CacheMetrics {
    /// Cache metrics of the font size and line height with the given `f32` bit patterns
    pub fn from_bits(font_size_bits: u32, line_height_bits: u32) -> (r: Self)
        ensures
            r@ == (spec_canonical_bits(font_size_bits), spec_canonical_bits(line_height_bits)),
    {
        Self {
            font_size_bits: canonical_bits(font_size_bits),
            line_height_bits: canonical_bits(line_height_bits),
        }
    }

    /// Bits of the font size
    pub fn font_size_bits(&self) -> (r: u32)
        ensures
            r == self@.0,
    {
        self.font_size_bits
    }

    /// Bits of the line height
    pub fn line_height_bits(&self) -> (r: u32)
        ensures
            r == self@.1,
    {
        self.line_height_bits
    }
}

/// Two cache metrics are one value exactly when their views agree.
pub proof fn lemma_cache_metrics_view_injective(a: CacheMetrics, b: CacheMetrics)
    ensures
        a@ == b@ <==> a == b,
{
}

/// Two `f32` values, given by their bits, are one value for a cache: equal
/// under `==`, or both NaN.
pub open spec fn f32_bits_same(a: u32, b: u32) -> bool {
    f32_bits_eq(a, b) || (is_nan_bits(a) && is_nan_bits(b))
}

/// Cache metrics made from the bits of two `f32` pairs are one value exactly
/// when the font sizes are one value and the line heights are one value:
/// values equal under `==` share one cache identity, distinct values never do.
pub proof fn lemma_cache_metrics_identity(
    a: CacheMetrics,
    b: CacheMetrics,
    a_font_size: u32,
    a_line_height: u32,
    b_font_size: u32,
    b_line_height: u32,
)
    requires
        a@ == (spec_canonical_bits(a_font_size), spec_canonical_bits(a_line_height)),
        b@ == (spec_canonical_bits(b_font_size), spec_canonical_bits(b_line_height)),
    ensures
        a == b <==> (f32_bits_same(a_font_size, b_font_size) && f32_bits_same(
            a_line_height,
            b_line_height,
        )),
{
    lemma_canonical_bits_identity(a_font_size, b_font_size);
    lemma_canonical_bits_identity(a_line_height, b_line_height);
    lemma_cache_metrics_view_injective(a, b);
}

/// Reading back the bits of cache metrics and making cache metrics of them
/// again gives the same cache metrics.
pub proof fn lemma_cache_metrics_roundtrip(c: CacheMetrics, font_size: u32, line_height: u32)
    requires
        c@ == (spec_canonical_bits(font_size), spec_canonical_bits(line_height)),
    ensures
        (spec_canonical_bits(c@.0), spec_canonical_bits(c@.1)) == c@,
{
    lemma_canonical_bits_identity(font_size, font_size);
    lemma_canonical_bits_identity(line_height, line_height);
}

/// Letter spacing (tracking) in EM, held by the bit pattern of an `f32`.
/// `==` and `Hash` go by the canonical bits, so that they agree: NaNs are all
/// one value, `-0.0` is `+0.0`, and other values compare as `f32` `==` does.
#[derive(Clone, Copy, Debug)]
pub struct LetterSpacing(pub u32);

impl View for LetterSpacing {
    type V = u32;

    /// The canonical bits of the spacing: what `==` and `Hash` go by.
    open spec fn view(&self) -> u32 {
        spec_canonical_bits(self.0)
    }
}

impl PartialEq for LetterSpacing {
    fn eq(&self, other: &Self) -> (r: bool) {
        canonical_bits(self.0) == canonical_bits(other.0)
    }
}

impl PartialEqSpecImpl for LetterSpacing {
    open spec fn obeys_eq_spec() -> bool {
        true
    }

    open spec fn eq_spec(&self, other: &Self) -> bool {
        self@ == other@
    }
}

impl Eq for LetterSpacing {}

/// `Hash::hash` of `u32`: feeds the number to the hasher. Nothing is
/// promised of the hasher's state afterwards.
pub assume_specification<H: Hasher>[ <u32 as Hash>::hash::<H> ](v: &u32, state: &mut H);

impl Hash for LetterSpacing {
    fn hash<H: Hasher>(&self, state: &mut H) {
        canonical_bits(self.0).hash(state);
    }
}

/// Two letter spacings are `==` exactly when their values are equal under
/// `f32` `==`, or both are NaNs.
pub proof fn lemma_letter_spacing_eq(a: LetterSpacing, b: LetterSpacing)
    ensures
        a@ == b@ <==> (f32_bits_eq(a.0, b.0) || (is_nan_bits(a.0) && is_nan_bits(b.0))),
{
    lemma_canonical_bits_identity(a.0, b.0);
}

/// Underline style of a text decoration
#[derive(Clone, Copy, Debug, Default, Eq, Hash, PartialEq, Structural)]
pub enum UnderlineStyle {
    /// No underline
    #[default]
    Off,
    /// One line
    Single,
    /// Two lines
    Double,
}

/// Decorations drawn with the text: underline, strikethrough, overline, each
/// with an optional color of its own.
#[derive(Clone, Copy, Debug, Default, Eq, Hash, PartialEq, Structural)]
pub struct TextDecoration {
    pub underline: UnderlineStyle,
    pub underline_color_opt: Option<Color>,
    pub strikethrough: bool,
    pub strikethrough_color_opt: Option<Color>,
    pub overline: bool,
    pub overline_color_opt: Option<Color>,
}

/// The decoration that draws no line and sets no color.
pub open spec fn no_decoration() -> TextDecoration {
    TextDecoration {
        underline: UnderlineStyle::Off,
        underline_color_opt: None,
        strikethrough: false,
        strikethrough_color_opt: None,
        overline: false,
        overline_color_opt: None,
    }
}

impl TextDecoration {
    /// No decoration
    pub fn new() -> (r: Self)
        ensures
            r == no_decoration(),
    {
        Self {
            underline: UnderlineStyle::Off,
            underline_color_opt: None,
            strikethrough: false,
            strikethrough_color_opt: None,
            overline: false,
            overline_color_opt: None,
        }
    }

    /// Whether any line is drawn: an underline, a strikethrough or an overline
    pub fn has_decoration(&self) -> (r: bool)
        ensures
            r == (self.underline != UnderlineStyle::Off || self.strikethrough || self.overline),
    {
        !matches!(self.underline, UnderlineStyle::Off) || self.strikethrough || self.overline
    }
}

/// The canonical bits of a letter spacing, if one is set.
pub open spec fn spacing_model(s: Option<LetterSpacing>) -> Option<u32> {
    match s {
        Some(s) => Some(s@),
        None => None,
    }
}

/// The bits of a letter spacing exactly as it was set, if one is set.
pub open spec fn raw_spacing(s: Option<LetterSpacing>) -> Option<u32> {
    match s {
        Some(s) => Some(s.0),
        None => None,
    }
}

/// Text attributes as contracts see them: every field by value, the family
/// by its name or generic family, the letter spacing by its canonical bits,
/// the font features by their per-tag values. Two attributes are `==`
/// exactly when their models agree.
pub struct AttrsModel {
    pub color_opt: Option<Color>,
    pub family: FamilyModel,
    pub stretch: Stretch,
    pub style: Style,
    pub weight: Weight,
    pub metadata: usize,
    pub cache_key_flags: CacheKeyFlags,
    pub metrics_opt: Option<CacheMetrics>,
    /// The canonical bits of the letter spacing, if one is set
    pub letter_spacing_opt: Option<u32>,
    pub font_features: Map<FeatureTag, u32>,
    pub text_decoration: TextDecoration,
}

/// Text attributes
#[derive(Debug, Eq, Hash, PartialEq)]
pub struct Attrs<'a> {
    pub color_opt: Option<Color>,
    pub family: Family<'a>,
    pub stretch: Stretch,
    pub style: Style,
    pub weight: Weight,
    pub metadata: usize,
    pub cache_key_flags: CacheKeyFlags,
    pub metrics_opt: Option<CacheMetrics>,
    /// Letter spacing (tracking) in EM
    pub letter_spacing_opt: Option<LetterSpacing>,
    pub font_features: FontFeatures,
    pub text_decoration: TextDecoration,
}

impl<'a> View for Attrs<'a> {
    type V = AttrsModel;

    open spec fn view(&self) -> AttrsModel {
        AttrsModel {
            color_opt: self.color_opt,
            family: self.family@,
            stretch: self.stretch,
            style: self.style,
            weight: self.weight,
            metadata: self.metadata,
            cache_key_flags: self.cache_key_flags,
            metrics_opt: self.metrics_opt,
            letter_spacing_opt: spacing_model(self.letter_spacing_opt),
            font_features: self.font_features@,
            text_decoration: self.text_decoration,
        }
    }
}

impl<'a> Clone for Attrs<'a> {
    fn clone(&self) -> (r: Self)
        ensures
            r@ == self@,
            r.letter_spacing_opt == self.letter_spacing_opt,
    {
        Attrs {
            color_opt: self.color_opt,
            family: self.family,
            stretch: self.stretch,
            style: self.style,
            weight: self.weight,
            metadata: self.metadata,
            cache_key_flags: self.cache_key_flags,
            metrics_opt: self.metrics_opt,
            letter_spacing_opt: self.letter_spacing_opt,
            font_features: self.font_features.clone(),
            text_decoration: self.text_decoration,
        }
    }
}

impl<'a> Attrs<'a> {
    /// Create a new set of attributes with sane defaults
    ///
    /// This defaults to a regular Sans-Serif font.
    pub fn new() -> (r: Self)
        ensures
            r.color_opt is None,
            r.family == Family::SansSerif,
            r.stretch == Stretch::Normal,
            r.style == Style::Normal,
            r.weight == Weight(400),
            r.metadata == 0,
            r.cache_key_flags@ == 0,
            r.metrics_opt is None,
            r.letter_spacing_opt is None,
            r.font_features@ == Map::<FeatureTag, u32>::empty(),
            r.text_decoration == no_decoration(),
    {
        Self {
            color_opt: None,
            family: Family::SansSerif,
            stretch: Stretch::Normal,
            style: Style::Normal,
            weight: Weight::normal(),
            metadata: 0,
            cache_key_flags: CacheKeyFlags::empty(),
            metrics_opt: None,
            letter_spacing_opt: None,
            font_features: FontFeatures::new(),
            text_decoration: TextDecoration::new(),
        }
    }

    /// Set `Color`
    pub fn color(self, color: Color) -> (r: Self)
        ensures
            r == (Attrs { color_opt: Some(color), ..self }),
    {
        Attrs { color_opt: Some(color), ..self }
    }

    /// Set `Family`
    pub fn family(self, family: Family<'a>) -> (r: Self)
        ensures
            r == (Attrs { family, ..self }),
    {
        Attrs { family, ..self }
    }

    /// Set `Stretch`
    pub fn stretch(self, stretch: Stretch) -> (r: Self)
        ensures
            r == (Attrs { stretch, ..self }),
    {
        Attrs { stretch, ..self }
    }

    /// Set `Style`
    pub fn style(self, style: Style) -> (r: Self)
        ensures
            r == (Attrs { style, ..self }),
    {
        Attrs { style, ..self }
    }

    /// Set `Weight`
    pub fn weight(self, weight: Weight) -> (r: Self)
        ensures
            r == (Attrs { weight, ..self }),
    {
        Attrs { weight, ..self }
    }

    /// Set metadata
    pub fn metadata(self, metadata: usize) -> (r: Self)
        ensures
            r == (Attrs { metadata, ..self }),
    {
        Attrs { metadata, ..self }
    }

    /// Set `CacheKeyFlags`
    pub fn cache_key_flags(self, cache_key_flags: CacheKeyFlags) -> (r: Self)
        ensures
            r == (Attrs { cache_key_flags, ..self }),
    {
        Attrs { cache_key_flags, ..self }
    }

    /// Set metrics, overriding values in buffer
    pub fn metrics(self, metrics: CacheMetrics) -> (r: Self)
        ensures
            r == (Attrs { metrics_opt: Some(metrics), ..self }),
    {
        Attrs { metrics_opt: Some(metrics), ..self }
    }

    /// Set letter spacing (tracking) in EM, given by the bits of an `f32`
    pub fn letter_spacing(self, letter_spacing_bits: u32) -> (r: Self)
        ensures
            r == (Attrs { letter_spacing_opt: Some(LetterSpacing(letter_spacing_bits)), ..self }),
    {
        Attrs { letter_spacing_opt: Some(LetterSpacing(letter_spacing_bits)), ..self }
    }

    /// Set `FontFeatures`
    pub fn font_features(self, font_features: FontFeatures) -> (r: Self)
        ensures
            r == (Attrs { font_features, ..self }),
    {
        Attrs { font_features, ..self }
    }

    /// Set the underline style
    pub fn underline(self, style: UnderlineStyle) -> (r: Self)
        ensures
            r == (Attrs {
                text_decoration: TextDecoration { underline: style, ..self.text_decoration },
                ..self
            }),
    {
        Attrs {
            text_decoration: TextDecoration { underline: style, ..self.text_decoration },
            ..self
        }
    }

    /// Set the underline color
    pub fn underline_color(self, color: Color) -> (r: Self)
        ensures
            r == (Attrs {
                text_decoration: TextDecoration {
                    underline_color_opt: Some(color),
                    ..self.text_decoration
                },
                ..self
            }),
    {
        Attrs {
            text_decoration: TextDecoration { underline_color_opt: Some(color), ..self.text_decoration },
            ..self
        }
    }

    /// Draw a strikethrough
    pub fn strikethrough(self) -> (r: Self)
        ensures
            r == (Attrs {
                text_decoration: TextDecoration { strikethrough: true, ..self.text_decoration },
                ..self
            }),
    {
        Attrs {
            text_decoration: TextDecoration { strikethrough: true, ..self.text_decoration },
            ..self
        }
    }

    /// Set the strikethrough color
    pub fn strikethrough_color(self, color: Color) -> (r: Self)
        ensures
            r == (Attrs {
                text_decoration: TextDecoration {
                    strikethrough_color_opt: Some(color),
                    ..self.text_decoration
                },
                ..self
            }),
    {
        Attrs {
            text_decoration: TextDecoration { strikethrough_color_opt: Some(color), ..self.text_decoration },
            ..self
        }
    }

    /// Draw an overline
    pub fn overline(self) -> (r: Self)
        ensures
            r == (Attrs {
                text_decoration: TextDecoration { overline: true, ..self.text_decoration },
                ..self
            }),
    {
        Attrs {
            text_decoration: TextDecoration { overline: true, ..self.text_decoration },
            ..self
        }
    }

    /// Set the overline color
    pub fn overline_color(self, color: Color) -> (r: Self)
        ensures
            r == (Attrs {
                text_decoration: TextDecoration {
                    overline_color_opt: Some(color),
                    ..self.text_decoration
                },
                ..self
            }),
    {
        Attrs {
            text_decoration: TextDecoration { overline_color_opt: Some(color), ..self.text_decoration },
            ..self
        }
    }

    /// Check if this set of attributes can be shaped with another: same
    /// family, stretch, style and weight
    pub fn compatible(&self, other: &Self) -> (r: bool)
        ensures
            r == attrs_compatible(self@, other@),
            r <==> (self.family@ == other.family@ && self.stretch == other.stretch && self.style
                == other.style && self.weight == other.weight),
    {
        self.family == other.family && self.stretch == other.stretch && self.style == other.style
            && self.weight == other.weight
    }
}

/// Two sets of attributes select fonts alike: same family, stretch, style and weight.
pub open spec fn attrs_compatible(a: AttrsModel, b: AttrsModel) -> bool {
    a.family == b.family && a.stretch == b.stretch && a.style == b.style && a.weight == b.weight
}

/// Compatibility is an equivalence: every set of attributes can be shaped
/// with itself, and the relation is symmetric and transitive.
pub proof fn lemma_compatible_equivalence(a: AttrsModel, b: AttrsModel, c: AttrsModel)
    ensures
        attrs_compatible(a, a),
        attrs_compatible(a, b) ==> attrs_compatible(b, a),
        attrs_compatible(a, b) && attrs_compatible(b, c) ==> attrs_compatible(a, c),
{
}

/// Two sets of attributes can be shaped together exactly when they agree on
/// the family, the stretch, the style and the weight: a difference in any one
/// of them, however small (two weights both lighter than bold, say), keeps
/// them apart, and nothing else (color, metrics, spacing, features,
/// decorations, metadata) matters.
pub proof fn lemma_compatible_iff_same_font_selection(a: AttrsModel, b: AttrsModel)
    ensures
        attrs_compatible(a, b) <==> (a.family == b.family && a.stretch == b.stretch && a.style
            == b.style && a.weight.0 == b.weight.0),
        a.family != b.family ==> !attrs_compatible(a, b),
        a.stretch != b.stretch ==> !attrs_compatible(a, b),
        a.style != b.style ==> !attrs_compatible(a, b),
        a.weight.0 != b.weight.0 ==> !attrs_compatible(a, b),
        attrs_compatible(a, AttrsModel { family: a.family, stretch: a.stretch, style: a.style, weight: a.weight, ..b }),
{
}

/// Two sets of attributes can be shaped together exactly when the
/// font-matching attributes taken from them are the same.
pub proof fn lemma_compatible_iff_same_font_match(
    a: Attrs,
    b: Attrs,
    fa: FontMatchAttrs,
    fb: FontMatchAttrs,
)
    requires
        fa@ == (a.family@, a.stretch, a.style, a.weight),
        fb@ == (b.family@, b.stretch, b.style, b.weight),
    ensures
        attrs_compatible(a@, b@) <==> fa@ == fb@,
{
}

/// Font-specific part of `Attrs` to be used for matching
#[derive(Debug, Eq, Hash, PartialEq)]
pub struct FontMatchAttrs {
    family: FamilyOwned,
    stretch: Stretch,
    style: Style,
    weight: Weight,
}

impl View for FontMatchAttrs {
    type V = (FamilyModel, Stretch, Style, Weight);

    closed spec fn view(&self) -> (FamilyModel, Stretch, Style, Weight) {
        (self.family@, self.stretch, self.style, self.weight)
    }
}

impl<'a> From<&Attrs<'a>> for FontMatchAttrs {
    /// The family, stretch, style and weight of `attrs`
    fn from(attrs: &Attrs<'a>) -> (r: Self)
        ensures
            r@ == (attrs.family@, attrs.stretch, attrs.style, attrs.weight),
    {
        Self::from_attrs(attrs)
    }
}

/// `From<&Attrs>` is stated over views in its own `ensures`: the owned family
/// name is opaque, so no single value can be named as the conversion's result.
impl<'a> vstd::std_specs::convert::FromSpecImpl<&Attrs<'a>> for FontMatchAttrs {
    open spec fn obeys_from_spec() -> bool {
        false
    }

    open spec fn from_spec(v: &Attrs<'a>) -> FontMatchAttrs {
        choose|r: FontMatchAttrs| #[trigger] r@ == (v.family@, v.stretch, v.style, v.weight)
    }
}

impl Clone for FontMatchAttrs {
    fn clone(&self) -> (r: Self)
        ensures
            r@ == self@,
    {
        FontMatchAttrs {
            family: self.family.clone(),
            stretch: self.stretch,
            style: self.style,
            weight: self.weight,
        }
    }
}

impl FontMatchAttrs {
    /// The family, stretch, style and weight of `attrs`
    pub fn from_attrs(attrs: &Attrs) -> (r: Self)
        ensures
            r@ == (attrs.family@, attrs.stretch, attrs.style, attrs.weight),
    {
        Self {
            family: FamilyOwned::new(attrs.family),
            stretch: attrs.stretch,
            style: attrs.style,
            weight: attrs.weight,
        }
    }
}

/// An owned version of `Attrs`
#[derive(Debug, Eq, Hash)]
pub struct AttrsOwned {
    pub color_opt: Option<Color>,
    pub family_owned: FamilyOwned,
    pub stretch: Stretch,
    pub style: Style,
    pub weight: Weight,
    pub metadata: usize,
    pub cache_key_flags: CacheKeyFlags,
    pub metrics_opt: Option<CacheMetrics>,
    /// Letter spacing (tracking) in EM
    pub letter_spacing_opt: Option<LetterSpacing>,
    pub font_features: FontFeatures,
    pub text_decoration: TextDecoration,
}

impl View for AttrsOwned {
    type V = AttrsModel;

    open spec fn view(&self) -> AttrsModel {
        AttrsModel {
            color_opt: self.color_opt,
            family: self.family_owned@,
            stretch: self.stretch,
            style: self.style,
            weight: self.weight,
            metadata: self.metadata,
            cache_key_flags: self.cache_key_flags,
            metrics_opt: self.metrics_opt,
            letter_spacing_opt: spacing_model(self.letter_spacing_opt),
            font_features: self.font_features@,
            text_decoration: self.text_decoration,
        }
    }
}

impl PartialEq for AttrsOwned {
    fn eq(&self, other: &Self) -> (r: bool) {
        self.color_opt == other.color_opt && self.family_owned == other.family_owned
            && self.stretch == other.stretch && self.style == other.style && self.weight
            == other.weight && self.metadata == other.metadata && self.cache_key_flags
            == other.cache_key_flags && self.metrics_opt == other.metrics_opt
            && self.letter_spacing_opt == other.letter_spacing_opt && self.font_features
            == other.font_features && self.text_decoration == other.text_decoration
    }
}

impl PartialEqSpecImpl for AttrsOwned {
    open spec fn obeys_eq_spec() -> bool {
        true
    }

    open spec fn eq_spec(&self, other: &Self) -> bool {
        self@ == other@
    }
}

impl Clone for AttrsOwned {
    fn clone(&self) -> (r: Self)
        ensures
            r@ == self@,
            r.letter_spacing_opt == self.letter_spacing_opt,
    {
        AttrsOwned {
            color_opt: self.color_opt,
            family_owned: self.family_owned.clone(),
            stretch: self.stretch,
            style: self.style,
            weight: self.weight,
            metadata: self.metadata,
            cache_key_flags: self.cache_key_flags,
            metrics_opt: self.metrics_opt,
            letter_spacing_opt: self.letter_spacing_opt,
            font_features: self.font_features.clone(),
            text_decoration: self.text_decoration,
        }
    }
}

impl AttrsOwned {
    /// The owned attributes holding the same values as `attrs`
    pub fn new(attrs: &Attrs) -> (r: Self)
        ensures
            r@ == attrs@,
            r.letter_spacing_opt == attrs.letter_spacing_opt,
    {
        Self {
            color_opt: attrs.color_opt,
            family_owned: FamilyOwned::new(attrs.family),
            stretch: attrs.stretch,
            style: attrs.style,
            weight: attrs.weight,
            metadata: attrs.metadata,
            cache_key_flags: attrs.cache_key_flags,
            metrics_opt: attrs.metrics_opt,
            letter_spacing_opt: attrs.letter_spacing_opt,
            font_features: attrs.font_features.clone(),
            text_decoration: attrs.text_decoration,
        }
    }

    /// The attributes borrowed from these owned ones
    pub fn as_attrs(&self) -> (r: Attrs<'_>)
        ensures
            r@ == self@,
            r.letter_spacing_opt == self.letter_spacing_opt,
    {
        Attrs {
            color_opt: self.color_opt,
            family: self.family_owned.as_family(),
            stretch: self.stretch,
            style: self.style,
            weight: self.weight,
            metadata: self.metadata,
            cache_key_flags: self.cache_key_flags,
            metrics_opt: self.metrics_opt,
            letter_spacing_opt: self.letter_spacing_opt,
            font_features: self.font_features.clone(),
            text_decoration: self.text_decoration,
        }
    }
}

/// Owning attributes and borrowing them back loses nothing: the two
/// conversions are inverse on the attributes' values.
pub proof fn lemma_attrs_owned_roundtrip(a: Attrs, o: AttrsOwned, b: Attrs)
    requires
        o@ == a@,
        b@ == o@,
    ensures
        b@ == a@,
{
}

} // verus!
