use smol_str::SmolStr;
use vstd::prelude::*;
use vstd::std_specs::cmp::PartialEqSpecImpl;
use vstd::string::StringSliceAdditionalSpecFns;
use vstd::utf8::*;

verus! {

/// Whether two strings hold the same characters, compared byte by byte.
fn str_eq(a: &str, b: &str) -> (r: bool)
    ensures
        r == (a@ == b@),
{
    let x = a.as_bytes();
    let y = b.as_bytes();
    proof {
        broadcast use encode_utf8_decode_utf8;

        assert(decode_utf8(a.spec_bytes()) == a@);
        assert(decode_utf8(b.spec_bytes()) == b@);
    }
    if x.len() != y.len() {
        return false;
    }
    let mut i: usize = 0;
    while i < x.len()
        invariant
            x@ == a.spec_bytes(),
            y@ == b.spec_bytes(),
            x@.len() == y@.len(),
            0 <= i <= x@.len(),
            forall|j: int| 0 <= j < i ==> x@[j] == y@[j],
        decreases x@.len() - i,
    {
        if x[i] != y[i] {
            return false;
        }
        i = i + 1;
    }
    proof {
        assert(x@ =~= y@);
    }
    true
}

/// A font family as contracts see it: a name, or one of the generic families.
pub enum FamilyModel {
    Name(Seq<char>),
    Serif,
    SansSerif,
    Cursive,
    Fantasy,
    Monospace,
}

/// A font family
#[derive(Clone, Copy, Debug, Eq, Hash)]
pub enum Family<'a> {
    /// The name of a font family of choice.
    Name(&'a str),
    /// Serif fonts represent the formal text style for a script.
    Serif,
    /// Low contrast glyphs with plain stroke endings.
    SansSerif,
    /// Informal script styles, like handwritten pen or brush writing.
    Cursive,
    /// Decorative or expressive fonts.
    Fantasy,
    /// All glyphs have the same fixed width.
    Monospace,
}

impl<'a> View for Family<'a> {
    type V = FamilyModel;

    open spec fn view(&self) -> FamilyModel {
        match *self {
            Family::Name(name) => FamilyModel::Name(name@),
            Family::Serif => FamilyModel::Serif,
            Family::SansSerif => FamilyModel::SansSerif,
            Family::Cursive => FamilyModel::Cursive,
            Family::Fantasy => FamilyModel::Fantasy,
            Family::Monospace => FamilyModel::Monospace,
        }
    }
}

impl<'a> PartialEq for Family<'a> {
    fn eq(&self, other: &Self) -> (r: bool) {
        match (self, other) {
            (Family::Name(a), Family::Name(b)) => str_eq(a, b),
            (Family::Serif, Family::Serif) => true,
            (Family::SansSerif, Family::SansSerif) => true,
            (Family::Cursive, Family::Cursive) => true,
            (Family::Fantasy, Family::Fantasy) => true,
            (Family::Monospace, Family::Monospace) => true,
            _ => false,
        }
    }
}

impl<'a> PartialEqSpecImpl for Family<'a> {
    open spec fn obeys_eq_spec() -> bool {
        true
    }

    open spec fn eq_spec(&self, other: &Self) -> bool {
        self@ == other@
    }
}

/// Width of a font face, from ultra-condensed to ultra-expanded
#[derive(Clone, Copy, Debug, Default, Eq, Hash, Ord, PartialEq, PartialOrd, Structural)]
pub enum Stretch {
    UltraCondensed,
    ExtraCondensed,
    Condensed,
    SemiCondensed,
    #[default]
    Normal,
    SemiExpanded,
    Expanded,
    ExtraExpanded,
    UltraExpanded,
}

/// Allows italic or oblique faces to be selected.
#[derive(Clone, Copy, Debug, Default, Eq, Hash, PartialEq, Structural)]
pub enum Style {
    /// A face that is neither italic not obliqued.
    #[default]
    Normal,
    /// A form that is generally cursive in nature.
    Italic,
    /// A typically-sloped version of the regular face.
    Oblique,
}

/// The weight of glyphs in the font, their degree of blackness or stroke thickness.
#[derive(Clone, Copy, Debug, Eq, Hash, Ord, PartialEq, PartialOrd, Structural)]
pub struct Weight(pub u16);

impl Weight {
    /// Thin weight (100), the thinnest value.
    pub fn thin() -> (r: Weight)
        ensures
            r == Weight(100),
    {
        Weight(100)
    }

    /// Extra light weight (200).
    pub fn extra_light() -> (r: Weight)
        ensures
            r == Weight(200),
    {
        Weight(200)
    }

    /// Light weight (300).
    pub fn light() -> (r: Weight)
        ensures
            r == Weight(300),
    {
        Weight(300)
    }

    /// Normal (400).
    pub fn normal() -> (r: Weight)
        ensures
            r == Weight(400),
    {
        Weight(400)
    }

    /// Medium weight (500, higher than normal).
    pub fn medium() -> (r: Weight)
        ensures
            r == Weight(500),
    {
        Weight(500)
    }

    /// Semibold weight (600).
    pub fn semibold() -> (r: Weight)
        ensures
            r == Weight(600),
    {
        Weight(600)
    }

    /// Bold weight (700).
    pub fn bold() -> (r: Weight)
        ensures
            r == Weight(700),
    {
        Weight(700)
    }

    /// Extra-bold weight (800).
    pub fn extra_bold() -> (r: Weight)
        ensures
            r == Weight(800),
    {
        Weight(800)
    }

    /// Black weight (900), the thickest value.
    pub fn black() -> (r: Weight)
        ensures
            r == Weight(900),
    {
        Weight(900)
    }
}

/// Flags that change how a glyph is rendered, carried by its cache key
#[derive(Clone, Copy, Debug, Eq, Hash, PartialEq, Structural)]
pub struct CacheKeyFlags {
    bits: u32,
}

impl View for CacheKeyFlags {
    type V = u32;

    closed spec fn view(&self) -> u32 {
        self.bits
    }
}

impl CacheKeyFlags {
    /// No flag set
    pub fn empty() -> (r: Self)
        ensures
            r@ == 0,
    {
        Self { bits: 0 }
    }

    /// The flags with the given bits, unknown bits included
    pub fn from_bits_retain(bits: u32) -> (r: Self)
        ensures
            r@ == bits,
    {
        Self { bits }
    }

    /// The bits of the flags
    pub fn bits(&self) -> (r: u32)
        ensures
            r == self@,
    {
        self.bits
    }
}

/// Two flag sets are one value exactly when their bits agree.
pub proof fn lemma_cache_key_flags_view_injective(a: CacheKeyFlags, b: CacheKeyFlags)
    ensures
        a@ == b@ <==> a == b,
{
}

/// `smol_str::SmolStr`, opaque to contracts: `smol_str_chars` names the
/// characters it holds.
#[verifier::external_type_specification]
#[verifier::external_body]
pub struct ExSmolStr(SmolStr);

/// The characters that a `SmolStr` holds.
pub uninterp spec fn smol_str_chars(s: SmolStr) -> Seq<char>;

/// `SmolStr::from(&str)`: a small string holding the characters of `s`.
#[verifier::external_body]
fn smol_str_from(s: &str) -> (r: SmolStr)
    ensures
        smol_str_chars(r) == s@,
{
    SmolStr::from(s)
}

/// `SmolStr::as_str`: the characters the small string holds.
#[verifier::external_body]
fn smol_str_as_str(s: &SmolStr) -> (r: &str)
    ensures
        r@ == smol_str_chars(*s),
{
    s.as_str()
}

/// `SmolStr::clone`: a small string holding the same characters.
#[verifier::external_body]
fn smol_str_clone(s: &SmolStr) -> (r: SmolStr)
    ensures
        smol_str_chars(r) == smol_str_chars(*s),
{
    s.clone()
}

/// An owned version of `Family`
#[derive(Debug, Eq, Hash)]
pub enum FamilyOwned {
    Name(SmolStr),
    Serif,
    SansSerif,
    Cursive,
    Fantasy,
    Monospace,
}

impl View for FamilyOwned {
    type V = FamilyModel;

    open spec fn view(&self) -> FamilyModel {
        match *self {
            FamilyOwned::Name(name) => FamilyModel::Name(smol_str_chars(name)),
            FamilyOwned::Serif => FamilyModel::Serif,
            FamilyOwned::SansSerif => FamilyModel::SansSerif,
            FamilyOwned::Cursive => FamilyModel::Cursive,
            FamilyOwned::Fantasy => FamilyModel::Fantasy,
            FamilyOwned::Monospace => FamilyModel::Monospace,
        }
    }
}

impl PartialEq for FamilyOwned {
    fn eq(&self, other: &Self) -> (r: bool) {
        match (self, other) {
            (FamilyOwned::Name(a), FamilyOwned::Name(b)) => str_eq(
                smol_str_as_str(a),
                smol_str_as_str(b),
            ),
            (FamilyOwned::Serif, FamilyOwned::Serif) => true,
            (FamilyOwned::SansSerif, FamilyOwned::SansSerif) => true,
            (FamilyOwned::Cursive, FamilyOwned::Cursive) => true,
            (FamilyOwned::Fantasy, FamilyOwned::Fantasy) => true,
            (FamilyOwned::Monospace, FamilyOwned::Monospace) => true,
            _ => false,
        }
    }
}

impl PartialEqSpecImpl for FamilyOwned {
    open spec fn obeys_eq_spec() -> bool {
        true
    }

    open spec fn eq_spec(&self, other: &Self) -> bool {
        self@ == other@
    }
}

impl Clone for FamilyOwned {
    fn clone(&self) -> (r: Self)
        ensures
            r@ == self@,
    {
        match self {
            FamilyOwned::Name(name) => FamilyOwned::Name(smol_str_clone(name)),
            FamilyOwned::Serif => FamilyOwned::Serif,
            FamilyOwned::SansSerif => FamilyOwned::SansSerif,
            FamilyOwned::Cursive => FamilyOwned::Cursive,
            FamilyOwned::Fantasy => FamilyOwned::Fantasy,
            FamilyOwned::Monospace => FamilyOwned::Monospace,
        }
    }
}

impl FamilyOwned {
    /// The owned family with the same name or generic family as `family`
    pub fn new(family: Family) -> (r: Self)
        ensures
            r@ == family@,
    {
        match family {
            Family::Name(name) => Self::Name(smol_str_from(name)),
            Family::Serif => Self::Serif,
            Family::SansSerif => Self::SansSerif,
            Family::Cursive => Self::Cursive,
            Family::Fantasy => Self::Fantasy,
            Family::Monospace => Self::Monospace,
        }
    }

    /// The family borrowed from this owned one
    pub fn as_family(&self) -> (r: Family<'_>)
        ensures
            r@ == self@,
    {
        match self {
            Self::Name(name) => Family::Name(smol_str_as_str(name)),
            Self::Serif => Family::Serif,
            Self::SansSerif => Family::SansSerif,
            Self::Cursive => Family::Cursive,
            Self::Fantasy => Family::Fantasy,
            Self::Monospace => Family::Monospace,
        }
    }
}

} // verus!
