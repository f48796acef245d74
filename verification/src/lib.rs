//! Text attributes, cursor positions and paragraph splitting for an
//! RTL-first text shaping and layout library.
//!
//! The functions here carry contracts that Verus proves, except the few
//! trusted items: the calls into outside crates (`rangemap`, `smol_str`,
//! `unicode-bidi`) and the `Hash` of `u32` go through small wrappers and one
//! `assume_specification`, whose contracts Verus takes as given and whose doc
//! comments say what each claims.

pub mod attrs;
pub mod attrs_list;
pub mod bidi_para;
pub mod color;
pub mod cursor;
pub mod features;
pub mod font;
pub mod raster;
mod text_split;

pub use crate::attrs::{
    canonical_bits, Attrs, AttrsOwned, CacheMetrics, FontMatchAttrs, LetterSpacing,
    TextDecoration, UnderlineStyle,
};
pub use crate::attrs_list::AttrsList;
pub use crate::bidi_para::BidiParagraphs;
pub use crate::color::Color;
pub use crate::cursor::{Affinity, Cursor, LayoutCursor, Motion};
pub use crate::features::{FeatureTag, FontFeatures};
pub use crate::font::{CacheKeyFlags, Family, FamilyOwned, Stretch, Style, Weight};
pub use crate::raster::{image_pixels, ImageContent, Placement};
