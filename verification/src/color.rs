use vstd::prelude::*;

verus! {

/// Text color, packed as `0xAARRGGBB`
#[derive(Clone, Copy, Debug, PartialOrd, Ord, Eq, Hash, PartialEq, Structural)]
pub struct Color(pub u32);

/// The packed value of a color with the given components.
pub open spec fn rgba_value(r: u8, g: u8, b: u8, a: u8) -> int {
    a * 0x100_0000 + r * 0x1_0000 + g * 0x100 + b
}

/// The red component of a packed color value.
pub open spec fn red_of(v: u32) -> u8 {
    ((v / 0x1_0000) % 0x100) as u8
}

/// The green component of a packed color value.
pub open spec fn green_of(v: u32) -> u8 {
    ((v / 0x100) % 0x100) as u8
}

/// The blue component of a packed color value.
pub open spec fn blue_of(v: u32) -> u8 {
    (v % 0x100) as u8
}

/// The alpha component of a packed color value.
pub open spec fn alpha_of(v: u32) -> u8 {
    (v / 0x100_0000) as u8
}

impl Color {
    /// Create new color with red, green, and blue components, fully opaque
    pub fn rgb(r: u8, g: u8, b: u8) -> (c: Self)
        ensures
            c.0 == rgba_value(r, g, b, 0xFF),
    {
        Self::rgba(r, g, b, 0xFF)
    }

    /// Create new color with red, green, blue, and alpha components
    pub fn rgba(r: u8, g: u8, b: u8, a: u8) -> (c: Self)
        ensures
            c.0 == rgba_value(r, g, b, a),
    {
        let v = ((a as u32) << 24) | ((r as u32) << 16) | ((g as u32) << 8) | (b as u32);
        assert(v == a * 0x100_0000 + r * 0x1_0000 + g * 0x100 + b) by (bit_vector)
            requires
                v == ((a as u32) << 24) | ((r as u32) << 16) | ((g as u32) << 8) | (b as u32),
        ;
        Self(v)
    }

    /// Get a tuple over all of the attributes, in `(r, g, b, a)` order.
    pub fn as_rgba_tuple(self) -> (t: (u8, u8, u8, u8))
        ensures
            t == (red_of(self.0), green_of(self.0), blue_of(self.0), alpha_of(self.0)),
    {
        (self.r(), self.g(), self.b(), self.a())
    }

    /// Get an array over all of the components, in `[r, g, b, a]` order.
    pub fn as_rgba(self) -> (t: [u8; 4])
        ensures
            t@ == seq![red_of(self.0), green_of(self.0), blue_of(self.0), alpha_of(self.0)],
    {
        let t = [self.r(), self.g(), self.b(), self.a()];
        assert(t@ =~= seq![red_of(self.0), green_of(self.0), blue_of(self.0), alpha_of(self.0)]);
        t
    }

    /// Get the red component
    pub fn r(&self) -> (c: u8)
        ensures
            c == red_of(self.0),
    {
        let v = self.0;
        assert(((v & 0x00_FF_00_00) >> 16) == (v / 0x1_0000) % 0x100) by (bit_vector);
        ((v & 0x00_FF_00_00) >> 16) as u8
    }

    /// Get the green component
    pub fn g(&self) -> (c: u8)
        ensures
            c == green_of(self.0),
    {
        let v = self.0;
        assert(((v & 0x00_00_FF_00) >> 8) == (v / 0x100) % 0x100) by (bit_vector);
        ((v & 0x00_00_FF_00) >> 8) as u8
    }

    /// Get the blue component
    pub fn b(&self) -> (c: u8)
        ensures
            c == blue_of(self.0),
    {
        let v = self.0;
        assert((v & 0x00_00_00_FF) == v % 0x100) by (bit_vector);
        (v & 0x00_00_00_FF) as u8
    }

    /// Get the alpha component
    pub fn a(&self) -> (c: u8)
        ensures
            c == alpha_of(self.0),
    {
        let v = self.0;
        assert(((v & 0xFF_00_00_00) >> 24) == v / 0x100_0000) by (bit_vector);
        ((v & 0xFF_00_00_00) >> 24) as u8
    }
}

/// Each component read back from a packed color is the component it was packed with.
pub proof fn lemma_components_of_rgba(r: u8, g: u8, b: u8, a: u8)
    ensures
        0 <= rgba_value(r, g, b, a) <= u32::MAX,
        red_of(rgba_value(r, g, b, a) as u32) == r,
        green_of(rgba_value(r, g, b, a) as u32) == g,
        blue_of(rgba_value(r, g, b, a) as u32) == b,
        alpha_of(rgba_value(r, g, b, a) as u32) == a,
{
    let v = rgba_value(r, g, b, a);
    assert(0 <= v <= u32::MAX);
    let w = v as u32;
    assert(w == a * 0x100_0000 + r * 0x1_0000 + g * 0x100 + b);
    assert(((w / 0x1_0000) % 0x100) == r && ((w / 0x100) % 0x100) == g && (w % 0x100) == b && (w
        / 0x100_0000) == a) by (bit_vector)
        requires
            w == a * 0x100_0000 + r * 0x1_0000 + g * 0x100 + b,
    ;
}

/// Packing the components read from a color gives back that color.
pub proof fn lemma_rgba_of_components(v: u32)
    ensures
        rgba_value(red_of(v), green_of(v), blue_of(v), alpha_of(v)) == v,
{
    let r = red_of(v);
    let g = green_of(v);
    let b = blue_of(v);
    let a = alpha_of(v);
    assert(r == (v / 0x1_0000) % 0x100);
    assert(g == (v / 0x100) % 0x100);
    assert(b == v % 0x100);
    assert(a == v / 0x100_0000);
    assert(a * 0x100_0000 + r * 0x1_0000 + g * 0x100 + b == v) by (bit_vector)
        requires
            r == (v / 0x1_0000) % 0x100,
            g == (v / 0x100) % 0x100,
            b == v % 0x100,
            a == v / 0x100_0000,
    ;
}

} // verus!
