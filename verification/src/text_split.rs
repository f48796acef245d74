use vstd::prelude::*;
use vstd::utf8::*;

verus! {

/// The UTF-8 encoding of a concatenation is the concatenation of the encodings.
pub proof fn lemma_encode_utf8_concat(a: Seq<char>, b: Seq<char>)
    ensures
        encode_utf8(a + b) == encode_utf8(a) + encode_utf8(b),
    decreases a.len(),
{
    if a.len() == 0 {
        assert(a + b =~= b);
        assert(encode_utf8(a) =~= Seq::<u8>::empty());
        assert(encode_utf8(a) + encode_utf8(b) =~= encode_utf8(b));
    } else {
        lemma_encode_utf8_concat(a.drop_first(), b);
        assert((a + b).drop_first() =~= a.drop_first() + b);
        assert((a + b)[0] == a[0]);
        assert(encode_utf8(a + b) =~= encode_utf8(a) + encode_utf8(b));
    }
}

/// Appending a character appends its scalar encoding.
pub proof fn lemma_encode_utf8_push(pre: Seq<char>, c: char)
    ensures
        encode_utf8(pre.push(c)) == encode_utf8(pre) + encode_scalar(c as u32),
{
    lemma_encode_utf8_concat(pre, seq![c]);
    assert(pre.push(c) == pre + seq![c]);
    assert(seq![c].drop_first() =~= Seq::<char>::empty());
    assert(encode_utf8(seq![c]) == encode_scalar(seq![c][0] as u32) + encode_utf8(
        seq![c].drop_first(),
    ));
    assert(encode_utf8(seq![c]) =~= encode_scalar(c as u32));
}

/// The first byte of a scalar's encoding is never a continuation byte.
proof fn lemma_leading_byte_not_continuation(v: u32)
    requires
        is_scalar(v),
    ensures
        encode_scalar(v).len() >= 1,
        !is_continuation_byte(encode_scalar(v)[0]),
{
    if has_width_1_encoding(v) {
        assert(!is_continuation_byte(leading_byte_width_1(v))) by (bit_vector)
            requires
                0 <= v <= 0x7F,
        ;
    } else if has_width_2_encoding(v) {
        assert(!is_continuation_byte(leading_byte_width_2(v))) by (bit_vector)
            requires
                0x80 <= v <= 0x7FF,
        ;
    } else if has_width_3_encoding(v) {
        assert(!is_continuation_byte(leading_byte_width_3(v))) by (bit_vector)
            requires
                0x800 <= v <= 0xFFFF,
        ;
    } else {
        assert(!is_continuation_byte(leading_byte_width_4(v))) by (bit_vector)
            requires
                0x10000 <= v <= 0x10FFFF,
        ;
    }
}

/// The byte offset of the `k`-th character of `s` is a character boundary of
/// the encoding of `s`, and splits it into the encodings of the two parts.
pub proof fn lemma_char_boundary_at(s: Seq<char>, k: int)
    requires
        0 <= k <= s.len(),
    ensures
        encode_utf8(s) == encode_utf8(s.take(k)) + encode_utf8(s.skip(k)),
        is_char_boundary(encode_utf8(s), encode_utf8(s.take(k)).len() as int),
{
    broadcast use encode_utf8_valid_utf8;

    assert(s == s.take(k) + s.skip(k));
    lemma_encode_utf8_concat(s.take(k), s.skip(k));
    let bytes = encode_utf8(s);
    let idx = encode_utf8(s.take(k)).len() as int;
    if k == s.len() {
        assert(s.take(k) == s);
        is_char_boundary_start_end_of_seq(bytes);
    } else {
        let rest = s.skip(k);
        char_is_scalar(rest[0]);
        lemma_leading_byte_not_continuation(rest[0] as u32);
        assert(encode_utf8(rest) == encode_scalar(rest[0] as u32) + encode_utf8(rest.drop_first()));
        assert(bytes[idx] == encode_scalar(rest[0] as u32)[0]);
        is_char_boundary_iff_not_is_continuation_byte(bytes, idx);
    }
}

/// Number of bytes in the UTF-8 encoding of `c`.
pub fn utf8_width(c: char) -> (w: usize)
    ensures
        w == encode_scalar(c as u32).len(),
        1 <= w <= 4,
{
    proof {
        char_is_scalar(c);
    }
    let u = c as u32;
    if u < 0x80 {
        1
    } else if u < 0x800 {
        2
    } else if u < 0x10000 {
        3
    } else {
        4
    }
}

/// Splits `s` before its `k`-th character, given the byte offset of that character.
pub fn split_at_char<'a>(s: &'a str, Ghost(k): Ghost<int>, byte: usize) -> (r: (&'a str, &'a str))
    requires
        0 <= k <= s@.len(),
        byte == encode_utf8(s@.take(k)).len(),
    ensures
        r.0@ == s@.take(k),
        r.1@ == s@.skip(k),
{
    proof {
        lemma_char_boundary_at(s@, k);
    }
    let r = s.split_at(byte);
    proof {
        broadcast use encode_utf8_decode_utf8;

        let bytes = encode_utf8(s@);
        assert(bytes.subrange(0, byte as int) == encode_utf8(s@.take(k)));
        assert(bytes.subrange(byte as int, bytes.len() as int) == encode_utf8(s@.skip(k)));
        assert(decode_utf8(encode_utf8(r.0@)) == r.0@);
        assert(decode_utf8(encode_utf8(r.1@)) == r.1@);
    }
    r
}

} // verus!
