use std::collections::BTreeMap;
use vstd::prelude::*;
use vstd::std_specs::btree::{increasing_seq, spec_btree_map_iter};
use vstd::std_specs::cmp::{OrdSpec, PartialEqSpecImpl};
use vstd::std_specs::iter::IteratorSpec;

verus! {

broadcast use {vstd::laws_cmp::group_laws_cmp, vstd::std_specs::btree::group_btree_axioms};

/// A 4-byte `OpenType` feature tag identifier
#[derive(Clone, Copy, Debug, Eq, Hash, Ord, PartialEq, PartialOrd)]
pub struct FeatureTag([u8; 4]);

impl View for FeatureTag {
    type V = Seq<u8>;

    /// The four bytes of the tag.
    closed spec fn view(&self) -> Seq<u8> {
        self.0@
    }
}

/// The four bytes of a tag read as one big-endian number; numeric order on
/// codes is lexicographic order on the bytes.
pub open spec fn tag_code(t: FeatureTag) -> u32 {
    (t@[0] * 0x100_0000 + t@[1] * 0x1_0000 + t@[2] * 0x100 + t@[3]) as u32
}

/// `a` comes before `b` in byte-lexicographic order.
pub open spec fn tag_precedes(a: Seq<u8>, b: Seq<u8>) -> bool {
    exists|k: int|
        0 <= k < 4 && a[k] < b[k] && forall|j: int| 0 <= j < k ==> #[trigger] a[j] == b[j]
}

/// A tag has exactly four bytes.
pub proof fn lemma_tag_len(t: FeatureTag)
    ensures
        t@.len() == 4,
{
}

/// Two tags with the same code are the same tag.
pub proof fn lemma_tag_code_injective(a: FeatureTag, b: FeatureTag)
    ensures
        tag_code(a) == tag_code(b) <==> a == b,
{
    broadcast use vstd::array::group_array_axioms;

    if tag_code(a) == tag_code(b) {
        let (a0, a1, a2, a3) = (a@[0], a@[1], a@[2], a@[3]);
        let (b0, b1, b2, b3) = (b@[0], b@[1], b@[2], b@[3]);
        assert(a0 == b0 && a1 == b1 && a2 == b2 && a3 == b3) by (bit_vector)
            requires
                ((a0 as u32) * 0x100_0000 + (a1 as u32) * 0x1_0000 + (a2 as u32) * 0x100 + (
                a3 as u32)) as u32 == ((b0 as u32) * 0x100_0000 + (b1 as u32) * 0x1_0000 + (
                b2 as u32) * 0x100 + (b3 as u32)) as u32,
        ;
        assert(a.0 =~= b.0);
    }
}

/// Two tags with the same bytes are the same tag.
pub proof fn lemma_tag_view_injective(a: FeatureTag, b: FeatureTag)
    ensures
        a@ == b@ <==> a == b,
{
    lemma_tag_code_injective(a, b);
}

/// Numeric order on tag codes is byte-lexicographic order on tags.
pub proof fn lemma_tag_code_order(a: FeatureTag, b: FeatureTag)
    ensures
        tag_code(a) < tag_code(b) <==> tag_precedes(a@, b@),
{
    let (a0, a1, a2, a3) = (a@[0], a@[1], a@[2], a@[3]);
    let (b0, b1, b2, b3) = (b@[0], b@[1], b@[2], b@[3]);
    let lt = tag_code(a) < tag_code(b);
    assert(lt == (a0 < b0 || (a0 == b0 && a1 < b1) || (a0 == b0 && a1 == b1 && a2 < b2) || (a0
        == b0 && a1 == b1 && a2 == b2 && a3 < b3))) by (bit_vector)
        requires
            lt == ((((a0 as u32) * 0x100_0000 + (a1 as u32) * 0x1_0000 + (a2 as u32) * 0x100 + (
            a3 as u32)) as u32) < (((b0 as u32) * 0x100_0000 + (b1 as u32) * 0x1_0000 + (b2 as u32)
                * 0x100 + (b3 as u32)) as u32)),
    ;
    if lt {
        if a0 < b0 {
            assert(forall|j: int| 0 <= j < 0 ==> #[trigger] a@[j] == b@[j]);
            assert(a@[0] < b@[0]);
        } else if a1 < b1 {
            assert(forall|j: int| 0 <= j < 1 ==> #[trigger] a@[j] == b@[j]);
            assert(a@[1] < b@[1]);
        } else if a2 < b2 {
            assert(forall|j: int| 0 <= j < 2 ==> #[trigger] a@[j] == b@[j]);
            assert(a@[2] < b@[2]);
        } else {
            assert(forall|j: int| 0 <= j < 3 ==> #[trigger] a@[j] == b@[j]);
            assert(a@[3] < b@[3]);
        }
    }
    if tag_precedes(a@, b@) {
        let k = choose|k: int|
            0 <= k < 4 && a@[k] < b@[k] && forall|j: int| 0 <= j < k ==> #[trigger] a@[j]
                == b@[j];
        if k >= 1 {
            assert(a@[0] == b@[0]);
        }
        if k >= 2 {
            assert(a@[1] == b@[1]);
        }
        if k >= 3 {
            assert(a@[2] == b@[2]);
        }
    }
}

impl FeatureTag {
    /// The tag with the given four bytes
    pub fn new(tag: &[u8; 4]) -> (r: Self)
        ensures
            r@ == tag@,
    {
        Self(*tag)
    }

    /// Kerning adjusts spacing between specific character pairs
    pub fn kerning() -> (r: FeatureTag)
        ensures
            r@ == seq![0x6bu8, 0x65, 0x72, 0x6e],
    {
        let r = FeatureTag([0x6b, 0x65, 0x72, 0x6e]);
        assert(r@ =~= seq![0x6bu8, 0x65, 0x72, 0x6e]);
        r
    }

    /// Standard ligatures (fi, fl, etc.)
    pub fn standard_ligatures() -> (r: FeatureTag)
        ensures
            r@ == seq![0x6cu8, 0x69, 0x67, 0x61],
    {
        let r = FeatureTag([0x6c, 0x69, 0x67, 0x61]);
        assert(r@ =~= seq![0x6cu8, 0x69, 0x67, 0x61]);
        r
    }

    /// Contextual ligatures (context-dependent ligatures)
    pub fn contextual_ligatures() -> (r: FeatureTag)
        ensures
            r@ == seq![0x63u8, 0x6c, 0x69, 0x67],
    {
        let r = FeatureTag([0x63, 0x6c, 0x69, 0x67]);
        assert(r@ =~= seq![0x63u8, 0x6c, 0x69, 0x67]);
        r
    }

    /// Contextual alternates (glyph substitutions based on context)
    pub fn contextual_alternates() -> (r: FeatureTag)
        ensures
            r@ == seq![0x63u8, 0x61, 0x6c, 0x74],
    {
        let r = FeatureTag([0x63, 0x61, 0x6c, 0x74]);
        assert(r@ =~= seq![0x63u8, 0x61, 0x6c, 0x74]);
        r
    }

    /// Discretionary ligatures (optional stylistic ligatures)
    pub fn discretionary_ligatures() -> (r: FeatureTag)
        ensures
            r@ == seq![0x64u8, 0x6c, 0x69, 0x67],
    {
        let r = FeatureTag([0x64, 0x6c, 0x69, 0x67]);
        assert(r@ =~= seq![0x64u8, 0x6c, 0x69, 0x67]);
        r
    }

    /// Small caps (lowercase to small capitals)
    pub fn small_caps() -> (r: FeatureTag)
        ensures
            r@ == seq![0x73u8, 0x6d, 0x63, 0x70],
    {
        let r = FeatureTag([0x73, 0x6d, 0x63, 0x70]);
        assert(r@ =~= seq![0x73u8, 0x6d, 0x63, 0x70]);
        r
    }

    /// All small caps (uppercase and lowercase to small capitals)
    pub fn all_small_caps() -> (r: FeatureTag)
        ensures
            r@ == seq![0x63u8, 0x32, 0x73, 0x63],
    {
        let r = FeatureTag([0x63, 0x32, 0x73, 0x63]);
        assert(r@ =~= seq![0x63u8, 0x32, 0x73, 0x63]);
        r
    }

    /// Stylistic Set 1 (font-specific alternate glyphs)
    pub fn stylistic_set_1() -> (r: FeatureTag)
        ensures
            r@ == seq![0x73u8, 0x73, 0x30, 0x31],
    {
        let r = FeatureTag([0x73, 0x73, 0x30, 0x31]);
        assert(r@ =~= seq![0x73u8, 0x73, 0x30, 0x31]);
        r
    }

    /// Stylistic Set 2 (font-specific alternate glyphs)
    pub fn stylistic_set_2() -> (r: FeatureTag)
        ensures
            r@ == seq![0x73u8, 0x73, 0x30, 0x32],
    {
        let r = FeatureTag([0x73, 0x73, 0x30, 0x32]);
        assert(r@ =~= seq![0x73u8, 0x73, 0x30, 0x32]);
        r
    }

    /// The four bytes of the tag
    pub fn as_bytes(&self) -> (r: &[u8; 4])
        ensures
            r@ == self@,
    {
        &self.0
    }

    /// The tag's big-endian code, its key in `FontFeatures`
    fn code(&self) -> (c: u32)
        ensures
            c == tag_code(*self),
    {
        let b = self.0;
        let (b0, b1, b2, b3) = (b[0], b[1], b[2], b[3]);
        let c = ((b0 as u32) << 24) | ((b1 as u32) << 16) | ((b2 as u32) << 8) | (b3 as u32);
        assert(c == ((b0 as u32) * 0x100_0000 + (b1 as u32) * 0x1_0000 + (b2 as u32) * 0x100 + (
        b3 as u32)) as u32) by (bit_vector)
            requires
                c == ((b0 as u32) << 24) | ((b1 as u32) << 16) | ((b2 as u32) << 8) | (b3 as u32),
        ;
        c
    }

    /// The tag whose code is `c`
    fn from_code(c: u32) -> (t: Self)
        ensures
            tag_code(t) == c,
    {
        let b0 = (c >> 24) as u8;
        let b1 = ((c >> 16) & 0xff) as u8;
        let b2 = ((c >> 8) & 0xff) as u8;
        let b3 = (c & 0xff) as u8;
        assert(c == ((b0 as u32) * 0x100_0000 + (b1 as u32) * 0x1_0000 + (b2 as u32) * 0x100 + (
        b3 as u32)) as u32) by (bit_vector)
            requires
                b0 == (c >> 24) as u8,
                b1 == ((c >> 16) & 0xff) as u8,
                b2 == ((c >> 8) & 0xff) as u8,
                b3 == (c & 0xff) as u8,
        ;
        let t = Self([b0, b1, b2, b3]);
        assert(t@ =~= seq![b0, b1, b2, b3]);
        t
    }
}

/// `s` lists the settings of `m` in canonical order: each entry is a setting
/// of `m`, each setting of `m` is listed, and tags strictly increase.
pub open spec fn lists_features(s: Seq<(FeatureTag, u32)>, m: Map<FeatureTag, u32>) -> bool {
    &&& forall|i: int|
        0 <= i < s.len() ==> m.contains_key(#[trigger] s[i].0) && m[s[i].0] == s[i].1
    &&& forall|t: FeatureTag|
        #[trigger] m.contains_key(t) ==> exists|i: int| 0 <= i < s.len() && #[trigger] s[i].0 == t
    &&& forall|i: int, j: int|
        0 <= i < j < s.len() ==> tag_precedes(#[trigger] s[i].0@, #[trigger] s[j].0@)
}

/// Two canonical listings that agree on a prefix and then differ (in an
/// entry, or in that one of them ends there) list different settings.
proof fn lemma_listings_differ(
    a: Seq<(FeatureTag, u32)>,
    b: Seq<(FeatureTag, u32)>,
    ma: Map<FeatureTag, u32>,
    mb: Map<FeatureTag, u32>,
    i: int,
)
    requires
        lists_features(a, ma),
        lists_features(b, mb),
        0 <= i <= a.len(),
        i <= b.len(),
        forall|j: int| 0 <= j < i ==> #[trigger] a[j] == b[j],
        (i < a.len() && i < b.len() && a[i] != b[i]) || (i == a.len() && i < b.len()) || (i
            == b.len() && i < a.len()),
    ensures
        ma != mb,
{
    if ma == mb {
        if i < a.len() && i < b.len() {
            if a[i].0 == b[i].0 {
                assert(a[i] == b[i]);
            } else {
                lemma_tag_code_injective(a[i].0, b[i].0);
                lemma_tag_code_order(a[i].0, b[i].0);
                lemma_tag_code_order(b[i].0, a[i].0);
                if tag_code(a[i].0) < tag_code(b[i].0) {
                    assert(mb.contains_key(a[i].0));
                    let k = choose|k: int| 0 <= k < b.len() && #[trigger] b[k].0 == a[i].0;
                    if k < i {
                        assert(a[k] == b[k]);
                        lemma_tag_code_order(a[k].0, a[i].0);
                    } else if k > i {
                        lemma_tag_code_order(b[i].0, b[k].0);
                    }
                } else {
                    assert(ma.contains_key(b[i].0));
                    let k = choose|k: int| 0 <= k < a.len() && #[trigger] a[k].0 == b[i].0;
                    if k < i {
                        assert(a[k] == b[k]);
                        lemma_tag_code_order(b[k].0, b[i].0);
                    } else if k > i {
                        lemma_tag_code_order(a[i].0, a[k].0);
                    }
                }
            }
        } else if i == a.len() {
            assert(ma.contains_key(b[i].0));
            let k = choose|k: int| 0 <= k < a.len() && #[trigger] a[k].0 == b[i].0;
            assert(a[k] == b[k]);
            lemma_tag_code_order(b[k].0, b[i].0);
        } else {
            assert(mb.contains_key(a[i].0));
            let k = choose|k: int| 0 <= k < b.len() && #[trigger] b[k].0 == a[i].0;
            assert(a[k] == b[k]);
            lemma_tag_code_order(a[k].0, a[i].0);
        }
    }
}

/// Two listings that agree entry by entry list the same settings.
proof fn lemma_listings_agree(
    a: Seq<(FeatureTag, u32)>,
    b: Seq<(FeatureTag, u32)>,
    ma: Map<FeatureTag, u32>,
    mb: Map<FeatureTag, u32>,
)
    requires
        lists_features(a, ma),
        lists_features(b, mb),
        a == b,
    ensures
        ma == mb,
{
    assert forall|t: FeatureTag| ma.contains_key(t) implies mb.contains_key(t) by {
        let k = choose|k: int| 0 <= k < a.len() && #[trigger] a[k].0 == t;
        assert(b[k].0 == t);
    }
    assert forall|t: FeatureTag| mb.contains_key(t) implies ma.contains_key(t) by {
        let k = choose|k: int| 0 <= k < b.len() && #[trigger] b[k].0 == t;
        assert(a[k].0 == t);
    }
    assert forall|t: FeatureTag| ma.contains_key(t) implies ma[t] == mb[t] by {
        let k = choose|k: int| 0 <= k < a.len() && #[trigger] a[k].0 == t;
        assert(b[k].0 == t);
    }
    assert(ma =~= mb);
}

/// `OpenType` feature settings: one value per `FeatureTag`.
///
/// A tag has exactly one value, the last one written, and the settings come
/// out in canonical (tag) order, so two `FontFeatures` built from the same
/// per-tag values compare and hash equal regardless of write order.
#[derive(Debug, Default, Eq, Hash)]
pub struct FontFeatures {
    features: BTreeMap<u32, u32>,
}

impl View for FontFeatures {
    type V = Map<FeatureTag, u32>;

    /// The value set for each tag.
    closed spec fn view(&self) -> Map<FeatureTag, u32> {
        Map::new(
            |t: FeatureTag| self.features@.contains_key(tag_code(t)),
            |t: FeatureTag| self.features@[tag_code(t)],
        )
    }
}

impl PartialEq for FontFeatures {
    /// Whether the two hold the same value for every tag
    fn eq(&self, other: &Self) -> (r: bool) {
        let a = self.iter();
        let b = other.iter();
        let n = if a.len() < b.len() {
            a.len()
        } else {
            b.len()
        };
        let mut i: usize = 0;
        while i < n
            invariant
                lists_features(a@, self@),
                lists_features(b@, other@),
                n <= a.len() && n <= b.len() && (n == a.len() || n == b.len()),
                0 <= i <= n,
                forall|j: int| 0 <= j < i ==> #[trigger] a@[j] == b@[j],
            decreases n - i,
        {
            if a[i].0.code() != b[i].0.code() || a[i].1 != b[i].1 {
                proof {
                    lemma_tag_code_injective(a@[i as int].0, b@[i as int].0);
                    lemma_listings_differ(a@, b@, self@, other@, i as int);
                }
                return false;
            }
            proof {
                lemma_tag_code_injective(a@[i as int].0, b@[i as int].0);
            }
            i = i + 1;
        }
        if a.len() != b.len() {
            proof {
                lemma_listings_differ(a@, b@, self@, other@, i as int);
            }
            return false;
        }
        proof {
            assert(a@ =~= b@);
            lemma_listings_agree(a@, b@, self@, other@);
        }
        true
    }
}

impl PartialEqSpecImpl for FontFeatures {
    open spec fn obeys_eq_spec() -> bool {
        true
    }

    open spec fn eq_spec(&self, other: &Self) -> bool {
        self@ == other@
    }
}

impl Clone for FontFeatures {
    fn clone(&self) -> (r: Self)
        ensures
            r@ == self@,
    {
        FontFeatures { features: self.features.clone() }
    }
}

impl FontFeatures {
    /// No feature settings
    pub fn new() -> (r: Self)
        ensures
            r@ == Map::<FeatureTag, u32>::empty(),
    {
        let r = Self { features: BTreeMap::new() };
        assert(r@ =~= Map::<FeatureTag, u32>::empty());
        r
    }

    /// Set `tag` to `value`, replacing any earlier value for the same tag
    pub fn set(&mut self, tag: FeatureTag, value: u32) -> (r: &mut Self)
        ensures
            r@ == old(self)@.insert(tag, value),
            *final(self) == *final(r),
    {
        let code = tag.code();
        self.features.insert(code, value);
        proof {
            assert forall|t: FeatureTag| #[trigger] tag_code(t) == code implies t == tag by {
                lemma_tag_code_injective(t, tag);
            }
            assert(self@ =~= old(self)@.insert(tag, value));
        }
        self
    }

    /// The settings, in canonical (tag) order
    pub fn iter(&self) -> (r: Vec<(FeatureTag, u32)>)
        ensures
            lists_features(r@, self@),
    {
        let ghost m = self.features@;
        let ghost all = spec_btree_map_iter(&self.features).remaining();
        let mut out: Vec<(FeatureTag, u32)> = Vec::new();
        for kv in iter: self.features.iter()
            invariant
                iter.seq() == all,
                out.len() == iter.index(),
                forall|i: int|
                    0 <= i < out.len() ==> tag_code(#[trigger] out[i].0) == *all[i].0 && out[i].1
                        == *all[i].1,
        {
            out.push((FeatureTag::from_code(*kv.0), *kv.1));
        }
        proof {
            assert(all.len() == m.dom().len());
            assert(forall|i: int| 0 <= i < all.len() ==> m.contains_key(*all[i].0) && m[*all[i].0] == *all[i].1);
            let ks = all.map_values(|kv: (&u32, &u32)| *kv.0);
            assert(increasing_seq(ks));
            assert forall|i: int, j: int| 0 <= i < j < all.len() implies *all[i].0 < *all[j].0 by {
                assert(ks[i].cmp_spec(&ks[j]) is Less);
            }
        }
        proof {
            assert forall|i: int|
                0 <= i < out.len() implies self@.contains_key(#[trigger] out[i].0) && self@[out[i].0]
                == out[i].1 by {}
            assert forall|t: FeatureTag| #[trigger] self@.contains_key(t) implies exists|i: int|
                0 <= i < out.len() && #[trigger] out[i].0 == t by {
                let k = tag_code(t);
                assert(all.contains((&k, &m[k])));
                let i = choose|i: int| 0 <= i < all.len() && all[i] == (&k, &m[k]);
                lemma_tag_code_injective(out[i].0, t);
            }
            assert forall|i: int, j: int|
                0 <= i < j < out.len() implies tag_precedes(#[trigger] out[i].0@, #[trigger] out[j].0@) by {
                lemma_tag_code_order(out[i].0, out[j].0);
            }
        }
        out
    }

    /// Enable a feature (set to 1)
    pub fn enable(&mut self, tag: FeatureTag) -> (r: &mut Self)
        ensures
            r@ == old(self)@.insert(tag, 1),
            *final(self) == *final(r),
    {
        self.set(tag, 1)
    }

    /// Disable a feature (set to 0)
    pub fn disable(&mut self, tag: FeatureTag) -> (r: &mut Self)
        ensures
            r@ == old(self)@.insert(tag, 0),
            *final(self) == *final(r),
    {
        self.set(tag, 0)
    }
}

/// Only the last write per tag is state, and writes to different tags commute.
pub proof fn lemma_feature_writes(m: Map<FeatureTag, u32>, a: FeatureTag, b: FeatureTag, x: u32, y: u32)
    ensures
        m.insert(a, x).insert(a, y) == m.insert(a, y),
        a != b ==> m.insert(a, x).insert(b, y) == m.insert(b, y).insert(a, x),
{
    assert(m.insert(a, x).insert(a, y) =~= m.insert(a, y));
    if a != b {
        assert(m.insert(a, x).insert(b, y) =~= m.insert(b, y).insert(a, x));
    }
}

} // verus!
