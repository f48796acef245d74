use vstd::prelude::*;
use vstd::std_specs::iter::IteratorSpec;
use vstd::string::StringSliceAdditionalSpecFns;
use vstd::utf8::*;

use crate::text_split::{lemma_char_boundary_at, lemma_encode_utf8_push, split_at_char, utf8_width};

verus! {

broadcast use vstd::string::group_string_axioms;

/// Characters of bidi class `B` (UAX #9 `Paragraph_Separator`): LF, CR, the
/// information separators U+001C..=U+001E, NEL and PS.
pub open spec fn is_paragraph_separator(c: char) -> bool {
    ||| c == '\n'
    ||| c == '\r'
    ||| (0x1c <= (c as u32) && (c as u32) <= 0x1e)
    ||| (c as u32) == 0x85
    ||| (c as u32) == 0x2029
}

/// `unicode_bidi::bidi_class`, asked whether `c` is of class `B`.
/// Trusted: the crate's hard-coded table assigns `B` to exactly U+000A,
/// U+000D, U+001C..=U+001E, U+0085 and U+2029, and `L` or another class to
/// every other character.
#[verifier::external_body]
fn has_bidi_class_b(c: char) -> (r: bool)
    ensures
        r == is_paragraph_separator(c),
{
    matches!(unicode_bidi::bidi_class(c), unicode_bidi::BidiClass::B)
}

/// Number of characters that the separator at index `j` of `s` takes up: CR
/// followed by LF is one separator of two characters.
pub open spec fn separator_width(s: Seq<char>, j: int) -> int {
    if s[j] == '\r' && j + 1 < s.len() && s[j + 1] == '\n' {
        2
    } else {
        1
    }
}

/// `p` is the first paragraph of the non-empty text `s`, and `rest` is what
/// follows the separator that ends it (empty when no separator ends it).
pub open spec fn paragraph_split(s: Seq<char>, p: Seq<char>, rest: Seq<char>) -> bool {
    let j = p.len() as int;
    &&& j <= s.len()
    &&& p == s.take(j)
    &&& forall|i: int| 0 <= i < j ==> !is_paragraph_separator(#[trigger] s[i])
    &&& if j == s.len() {
        rest.len() == 0
    } else {
        is_paragraph_separator(s[j]) && rest == s.skip(j + separator_width(s, j))
    }
}

/// The split of a text into its first paragraph and the rest is unique: the
/// paragraph ends at the first separator.
pub proof fn lemma_paragraph_split_unique(
    s: Seq<char>,
    p1: Seq<char>,
    r1: Seq<char>,
    p2: Seq<char>,
    r2: Seq<char>,
)
    requires
        paragraph_split(s, p1, r1),
        paragraph_split(s, p2, r2),
    ensures
        p1 == p2,
        r1 == r2,
{
    if p1.len() < p2.len() {
        assert(!is_paragraph_separator(s[p1.len() as int]));
    }
    if p2.len() < p1.len() {
        assert(!is_paragraph_separator(s[p2.len() as int]));
    }
}

/// A paragraph, the separator that ends it (one character, or CR LF) and the
/// rest give back the text, and the rest is shorter than the text.
pub proof fn lemma_paragraph_split_rebuilds(s: Seq<char>, p: Seq<char>, rest: Seq<char>)
    requires
        s.len() > 0,
        paragraph_split(s, p, rest),
    ensures
        rest.len() < s.len(),
        p.len() == s.len() ==> s == p && rest.len() == 0,
        p.len() < s.len() ==> {
            let j = p.len() as int;
            let w = separator_width(s, j);
            &&& s == p + s.subrange(j, j + w) + rest
            &&& forall|i: int| j <= i < j + w ==> is_paragraph_separator(#[trigger] s[i])
            &&& (w == 2 ==> s[j] == '\r' && s[j + 1] == '\n')
        },
{
    let j = p.len() as int;
    if j < s.len() {
        let w = separator_width(s, j);
        assert(s =~= p + s.subrange(j, j + w) + rest);
    } else {
        assert(s =~= p);
    }
}

/// The successive results of `next` on `text`: `rems[0]` is the text,
/// each `next` call yields paragraph `ps[i]` of a non-empty `rems[i]` and
/// leaves `rems[i + 1]`, and the last remainder is empty, after which `next`
/// yields `None` (and keeps yielding it, the remainder staying empty).
pub open spec fn paragraph_run(text: Seq<char>, ps: Seq<Seq<char>>, rems: Seq<Seq<char>>) -> bool {
    &&& rems.len() == ps.len() + 1
    &&& rems[0] == text
    &&& rems[ps.len() as int].len() == 0
    &&& forall|i: int|
        0 <= i < ps.len() ==> (#[trigger] rems[i]).len() > 0 && paragraph_split(
            rems[i],
            ps[i],
            rems[i + 1],
        )
}

/// The separator consumed after paragraph `i` of a run.
pub open spec fn run_separator(ps: Seq<Seq<char>>, rems: Seq<Seq<char>>, i: int) -> Seq<char> {
    rems[i].subrange(ps[i].len() as int, rems[i].len() - rems[i + 1].len())
}

/// Paragraphs `i`, `i + 1`, ... of a run, each followed by its separator.
pub open spec fn rebuilt_from(ps: Seq<Seq<char>>, rems: Seq<Seq<char>>, i: int) -> Seq<char>
    decreases ps.len() - i,
{
    if 0 <= i < ps.len() {
        ps[i] + run_separator(ps, rems, i) + rebuilt_from(ps, rems, i + 1)
    } else {
        Seq::empty()
    }
}

/// Each remainder of a run is rebuilt by the paragraphs and separators after it.
proof fn lemma_run_rebuilds_from(text: Seq<char>, ps: Seq<Seq<char>>, rems: Seq<Seq<char>>, i: int)
    requires
        paragraph_run(text, ps, rems),
        0 <= i <= ps.len(),
    ensures
        rems[i] == rebuilt_from(ps, rems, i),
    decreases ps.len() - i,
{
    if i == ps.len() {
        assert(rems[i] =~= Seq::<char>::empty());
    } else {
        lemma_run_rebuilds_from(text, ps, rems, i + 1);
        assert(rems[i].len() > 0 && paragraph_split(rems[i], ps[i], rems[i + 1]));
        lemma_paragraph_split_rebuilds(rems[i], ps[i], rems[i + 1]);
        let s = rems[i];
        let j = ps[i].len() as int;
        if j < s.len() {
            let w = separator_width(s, j);
            assert(s.len() == j + w + rems[i + 1].len());
        }
        assert(s =~= ps[i] + run_separator(ps, rems, i) + rems[i + 1]);
    }
}

/// The whole run of paragraphs rebuilds the text: the text is the paragraphs,
/// each followed by its separator; no paragraph holds a separator; each
/// separator is CR LF or one class-B character, save that the last may be
/// empty; a lone CR separator is never followed by LF; and the run never
/// ends with an empty paragraph without a separator after it.
pub proof fn lemma_paragraph_run(text: Seq<char>, ps: Seq<Seq<char>>, rems: Seq<Seq<char>>)
    requires
        paragraph_run(text, ps, rems),
    ensures
        text == rebuilt_from(ps, rems, 0),
        forall|i: int, k: int|
            0 <= i < ps.len() && 0 <= k < ps[i].len() ==> !is_paragraph_separator(
                #[trigger] ps[i][k],
            ),
        forall|i: int|
            0 <= i < ps.len() ==> {
                let s = #[trigger] run_separator(ps, rems, i);
                ||| s == seq!['\r', '\n']
                ||| (s.len() == 1 && is_paragraph_separator(s[0]))
                ||| (i == ps.len() - 1 && s.len() == 0)
            },
        forall|i: int|
            0 <= i < ps.len() && #[trigger] run_separator(ps, rems, i) == seq!['\r'] ==> !(rems[i
                + 1].len() > 0 && rems[i + 1][0] == '\n'),
        !(ps.len() > 0 && ps[ps.len() - 1].len() == 0 && run_separator(
            ps,
            rems,
            ps.len() - 1,
        ).len() == 0),
{
    lemma_run_rebuilds_from(text, ps, rems, 0);
    assert forall|i: int, k: int|
        0 <= i < ps.len() && 0 <= k < ps[i].len() implies !is_paragraph_separator(
        #[trigger] ps[i][k],
    ) by {
        assert(rems[i].len() > 0 && paragraph_split(rems[i], ps[i], rems[i + 1]));
        assert(ps[i][k] == rems[i][k]);
    }
    assert forall|i: int| 0 <= i < ps.len() implies {
        let s = #[trigger] run_separator(ps, rems, i);
        ||| s == seq!['\r', '\n']
        ||| (s.len() == 1 && is_paragraph_separator(s[0]))
        ||| (i == ps.len() - 1 && s.len() == 0)
    } by {
        let r = rems[i];
        assert(r.len() > 0 && paragraph_split(r, ps[i], rems[i + 1]));
        let j = ps[i].len() as int;
        let s = run_separator(ps, rems, i);
        if j == r.len() {
            assert(s.len() == 0);
            if i + 1 < ps.len() {
                assert(rems[i + 1].len() > 0);
            }
        } else {
            let w = separator_width(r, j);
            assert(r.len() == j + w + rems[i + 1].len());
            if w == 2 {
                assert(s =~= seq!['\r', '\n']);
            } else {
                assert(s.len() == 1 && s[0] == r[j]);
            }
        }
    }
    assert forall|i: int|
        0 <= i < ps.len() && #[trigger] run_separator(ps, rems, i) == seq!['\r'] implies !(rems[i
        + 1].len() > 0 && rems[i + 1][0] == '\n') by {
        let r = rems[i];
        assert(r.len() > 0 && paragraph_split(r, ps[i], rems[i + 1]));
        let j = ps[i].len() as int;
        let s = run_separator(ps, rems, i);
        assert(s.len() == 1);
        assert(j < r.len());
        let w = separator_width(r, j);
        assert(r.len() == j + w + rems[i + 1].len());
        assert(s[0] == r[j]);
        if rems[i + 1].len() > 0 {
            assert(rems[i + 1][0] == r[j + 1]);
        }
    }
    if ps.len() > 0 {
        let i = ps.len() - 1;
        assert(rems[i].len() > 0 && paragraph_split(rems[i], ps[i], rems[i + 1]));
        let j = ps[i].len() as int;
        if j < rems[i].len() {
            let w = separator_width(rems[i], j);
            assert(rems[i].len() == j + w + rems[i + 1].len());
        }
    }
}

/// Two runs of the same text that agree up to remainder `i` agree from there on.
proof fn lemma_runs_agree_from(
    text: Seq<char>,
    ps1: Seq<Seq<char>>,
    rems1: Seq<Seq<char>>,
    ps2: Seq<Seq<char>>,
    rems2: Seq<Seq<char>>,
    i: int,
)
    requires
        paragraph_run(text, ps1, rems1),
        paragraph_run(text, ps2, rems2),
        0 <= i <= ps1.len(),
        i <= ps2.len(),
        rems1[i] == rems2[i],
        forall|j: int| 0 <= j < i ==> ps1[j] == ps2[j] && rems1[j] == rems2[j],
    ensures
        ps1 == ps2,
        rems1 == rems2,
    decreases ps1.len() - i,
{
    if i < ps1.len() && i < ps2.len() {
        assert(rems1[i].len() > 0 && paragraph_split(rems1[i], ps1[i], rems1[i + 1]));
        assert(rems2[i].len() > 0 && paragraph_split(rems2[i], ps2[i], rems2[i + 1]));
        lemma_paragraph_split_unique(rems1[i], ps1[i], rems1[i + 1], ps2[i], rems2[i + 1]);
        lemma_runs_agree_from(text, ps1, rems1, ps2, rems2, i + 1);
    } else {
        if i < ps2.len() {
            assert(rems2[i].len() > 0);
        }
        if i < ps1.len() {
            assert(rems1[i].len() > 0);
        }
        assert(ps1 =~= ps2);
        assert(rems1 =~= rems2);
    }
}

/// A text has one run of paragraphs: any two runs of the same text agree.
pub proof fn lemma_paragraph_run_unique(
    text: Seq<char>,
    ps1: Seq<Seq<char>>,
    rems1: Seq<Seq<char>>,
    ps2: Seq<Seq<char>>,
    rems2: Seq<Seq<char>>,
)
    requires
        paragraph_run(text, ps1, rems1),
        paragraph_run(text, ps2, rems2),
    ensures
        ps1 == ps2,
        rems1 == rems2,
{
    lemma_runs_agree_from(text, ps1, rems1, ps2, rems2, 0);
}

/// An iterator over the paragraphs in the input text.
///
/// A paragraph ends at any character of bidi class `B` (LF, CR, NEL, PS, and
/// the information separators), with CR LF consumed as a single separator.
/// It yields the paragraph content only; separators are consumed, never
/// returned. Text ending in a separator does not yield a trailing empty
/// paragraph.
#[derive(Debug)]
pub struct BidiParagraphs<'text> {
    /// The not-yet-yielded tail of the input.
    remaining: &'text str,
}

impl<'text> View for BidiParagraphs<'text> {
    type V = Seq<char>;

    /// The characters not yet yielded or consumed as separators.
    closed spec fn view(&self) -> Seq<char> {
        self.remaining@
    }
}

impl<'text> BidiParagraphs<'text> {
    /// Create an iterator over the paragraphs of `text`.
    pub fn new(text: &'text str) -> (r: Self)
        ensures
            r@ == text@,
    {
        Self { remaining: text }
    }

    /// The next paragraph, or `None` once the whole text has been consumed.
    pub fn next(&mut self) -> (r: Option<&'text str>)
        ensures
            old(self)@.len() == 0 ==> r is None && final(self)@ == old(self)@,
            old(self)@.len() > 0 ==> r is Some && paragraph_split(old(self)@, r->0@, final(self)@),
    {
        let s = self.remaining;
        if s.is_empty() {
            return None;
        }
        let n_bytes = s.as_bytes().len();
        let ghost text = s@;
        let mut it = s.chars();
        let mut i: usize = 0;
        let mut byte: usize = 0;
        let mut found: Option<char> = None;
        proof {
            assert(text.take(0) =~= Seq::<char>::empty());
            assert(text.skip(0) =~= text);
            assert(encode_utf8(text) == s.spec_bytes());
        }
        loop
            invariant_except_break
                found is None,
                it.remaining() == text.skip(i as int),
            invariant
                text == s@,
                n_bytes == encode_utf8(text).len(),
                i <= byte,
                0 <= i <= text.len(),
                byte == encode_utf8(text.take(i as int)).len(),
                forall|j: int| 0 <= j < i ==> !is_paragraph_separator(#[trigger] text[j]),
            ensures
                found is None ==> i == text.len(),
                found matches Some(c) ==> i < text.len() && text[i as int] == c
                    && is_paragraph_separator(c) && it.remaining() == text.skip(i + 1),
            decreases text.len() - i,
        {
            let ghost before = it.remaining();
            match it.next() {
                Some(c) => {
                    proof {
                        assert(before.len() > 0);
                        assert(text[i as int] == c);
                        assert(text.skip(i + 1) =~= before.drop_first());
                    }
                    if has_bidi_class_b(c) {
                        found = Some(c);
                        break;
                    }
                    let w = utf8_width(c);
                    proof {
                        lemma_char_boundary_at(text, i + 1);
                        assert(text.take(i + 1) == text.take(i as int).push(c));
                        lemma_encode_utf8_push(text.take(i as int), c);
                    }
                    byte = byte + w;
                    i = i + 1;
                },
                None => {
                    break;
                },
            }
        }
        let (para, tail) = split_at_char(s, Ghost(i as int), byte);
        match found {
            None => {
                proof {
                    assert(text.skip(i as int).len() == 0);
                }
                self.remaining = tail;
                Some(para)
            },
            Some(c) => {
                let w = utf8_width(c);
                proof {
                    lemma_char_boundary_at(text, i + 1);
                    assert(text.take(i + 1) == text.take(i as int).push(c));
                    lemma_encode_utf8_push(text.take(i as int), c);
                }
                let mut after = byte + w;
                let ghost mut skip: int = i + 1;
                if c == '\r' {
                    if let Some(next_c) = it.next() {
                        if next_c == '\n' {
                            proof {
                                assert(text[i + 1] == '\n');
                                lemma_char_boundary_at(text, i + 2);
                                assert(text.take(i + 2) == text.take(i + 1).push('\n'));
                                lemma_encode_utf8_push(text.take(i + 1), '\n');
                            }
                            after = after + 1;
                            proof {
                                skip = i + 2;
                            }
                        }
                    }
                }
                proof {
                    assert(skip == i + separator_width(text, i as int));
                }
                let rest = split_at_char(s, Ghost(skip), after).1;
                self.remaining = rest;
                Some(para)
            },
        }
    }
}

} // verus!
