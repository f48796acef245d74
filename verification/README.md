# kalamos (verified core)

The attribute, cursor and paragraph logic of an RTL-first text shaping and
layout library, written in Verus: the functions in `src/` carry contracts
that Verus proves. The calls into outside crates (`rangemap`, `smol_str`,
`unicode-bidi`) and the `Hash` of `u32` are not proved: they go through small
trusted items (`#[verifier::external_body]` wrappers and one
`assume_specification`), whose contracts Verus takes as given and whose doc
comments say what each one claims of the outside code.

- `src/color.rs`: packed `0xAARRGGBB` colors and their components.
- `src/features.rs`: OpenType feature tags and per-tag feature settings,
  listed in canonical tag order; `==` compares the per-tag values.
- `src/font.rs`: font family, stretch, style, weight and cache-key flags;
  owned families through `smol_str`.
- `src/attrs.rs`: canonical `f32` bits for cache metrics and letter spacing,
  text decorations, text attributes and their owned form.
- `src/attrs_list.rs`: default attributes plus attribute spans over byte
  ranges, held in a `rangemap::RangeMap`; lookup, insertion, splitting.
- `src/bidi_para.rs`: splitting text into paragraphs at UAX #9 class-B
  characters (CR LF as one separator), through `unicode-bidi`.
- `src/cursor.rs`: cursors, affinity, layout cursors and motions.
- `src/raster.rs`: the pixels of a rasterized glyph image.
- `src/text_split.rs`: UTF-8 facts used to split strings at characters.

`app/` holds what carries `f32` values (metrics, scroll position, decoration
geometry, the clamp of a variable-font axis) and the conversions to `fontdb`'s
font selection types. `tests/` runs the library on concrete values.

Not here: the glyph rasterizer and its cache (`SwashCache`, `swash_image`,
`swash_outline_commands`) and the variable-font weight coordinate
(`wght_coordinate`). They need the `swash` crate and the font system and
cache-key types, none of which this crate has, and they compute in `f32`.
Only the pixel layout of a rasterized image (`raster::image_pixels`) is
kept.
