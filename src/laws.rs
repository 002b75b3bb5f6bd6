use vstd::prelude::*;

use crate::difference::{added_style, difference, turns_off, Difference};
use crate::display::{
    continues, first_step, inner_bytes, painted, pass, segment_bytes, step, strings_bytes,
    trailer, transition, PassState, SegmentView,
};
use crate::style::{plain_style, reset_code, style_prefix, style_suffix, Style};

verus! {

/// The texts of the segments, one after the other.
pub open spec fn texts(vs: Seq<SegmentView>) -> Seq<u8>
    decreases vs.len(),
{
    if vs.len() == 0 {
        seq![]
    } else {
        texts(vs.drop_last()) + vs.last().text
    }
}

/// Whether a segment is plain text: the plain style, no command, no wrapping.
pub open spec fn is_plain_text(v: SegmentView) -> bool {
    v == painted(plain_style(), v.text)
}

/// After a segment that the next one does not continue, no wrap region is
/// open.
proof fn lemma_inner_closes(v: SegmentView, in_zw: bool)
    ensures
        !inner_bytes(v, in_zw, false).1,
{
    reveal(inner_bytes);
}

/// A plain-text segment outside a wrap region is written as its text.
proof fn lemma_inner_plain(v: SegmentView)
    requires
        v.control is None,
    ensures
        inner_bytes(v, false, false) == (v.text, false),
{
    reveal(inner_bytes);
}

proof fn lemma_pass_plain(vs: Seq<SegmentView>, n: int)
    requires
        1 <= n <= vs.len(),
        forall|i: int| 0 <= i < vs.len() ==> is_plain_text(#[trigger] vs[i]),
    ensures
        pass(vs, n).out == texts(vs.subrange(0, n)),
        !pass(vs, n).in_zw,
        !pass(vs, n).styling,
    decreases n,
{
    reveal(transition);
    assert(is_plain_text(vs[n - 1]));
    lemma_inner_plain(vs[n - 1]);
    let sub = vs.subrange(0, n);
    assert(sub.drop_last() =~= vs.subrange(0, n - 1));
    if n == 1 {
        assert(texts(sub.drop_last()) == Seq::<u8>::empty());
        assert(pass(vs, n).out =~= texts(sub));
    } else {
        lemma_pass_plain(vs, n - 1);
        assert(is_plain_text(vs[n - 2]));
        assert(pass(vs, n).out =~= texts(sub));
    }
}

/// Segments of plain text are written as their texts one after the other,
/// with no escape byte among them.
pub proof fn law_plain_segments_verbatim(vs: Seq<SegmentView>)
    requires
        forall|i: int| 0 <= i < vs.len() ==> is_plain_text(#[trigger] vs[i]),
    ensures
        strings_bytes(vs) == texts(vs),
{
    if vs.len() > 0 {
        lemma_pass_plain(vs, vs.len() as int);
        assert(vs.subrange(0, vs.len() as int) =~= vs);
        assert(strings_bytes(vs) =~= texts(vs));
    }
}

/// A styled segment of text, on its own or as the only one of a sequence, is
/// written as its style's prefix, its text, and its style's suffix.
pub proof fn law_single_styled_segment(style: Style, text: Seq<u8>)
    requires
        style != plain_style(),
    ensures
        segment_bytes(painted(style, text)) == style_prefix(style) + text + style_suffix(style),
        strings_bytes(seq![painted(style, text)]) == style_prefix(style) + text + style_suffix(
            style,
        ),
{
    let v = painted(style, text);
    lemma_inner_plain(v);
    assert(strings_bytes(seq![v]) =~= style_prefix(style) + text + style_suffix(style));
}

proof fn lemma_two_texts(a: SegmentView, b: SegmentView)
    requires
        a.control is None && a.wrap is None,
        b.control is None && b.wrap is None,
    ensures
        ({
            let vs = seq![a, b];
            let st = pass(vs, 1);
            &&& st == (PassState {
                out: style_prefix(a.style) + a.text,
                in_zw: false,
                styling: a.style != plain_style(),
            })
            &&& pass(vs, 2) == step(st, a, b, false)
        }),
{
    lemma_inner_plain(a);
}

/// Two segments of text in the same style: nothing is written between the
/// two texts.
pub proof fn law_same_style_adds_nothing(style: Style, x: Seq<u8>, y: Seq<u8>)
    ensures
        strings_bytes(seq![painted(style, x), painted(style, y)]) == style_prefix(style) + x + y
            + style_suffix(style),
{
    let (a, b) = (painted(style, x), painted(style, y));
    lemma_two_texts(a, b);
    reveal(transition);
    lemma_inner_plain(b);
    assert(strings_bytes(seq![a, b]) =~= style_prefix(style) + x + y + style_suffix(style));
}

/// Two segments of text where the second only adds attributes or changes a
/// colour: between the texts only the prefix of what is added is written,
/// never the second style in full.
pub proof fn law_added_attributes_only(s1: Style, s2: Style, x: Seq<u8>, y: Seq<u8>)
    requires
        s1 != s2,
        !turns_off(s1, s2),
    ensures
        difference(s1, s2) == Difference::ExtraStyles(added_style(s1, s2)),
        strings_bytes(seq![painted(s1, x), painted(s2, y)]) == style_prefix(s1) + x + style_prefix(
            added_style(s1, s2),
        ) + y + reset_code(),
{
    let (a, b) = (painted(s1, x), painted(s2, y));
    lemma_two_texts(a, b);
    reveal(transition);
    reveal(inner_bytes);
    assert(s2 != plain_style());
    assert(strings_bytes(seq![a, b]) =~= style_prefix(s1) + x + style_prefix(added_style(s1, s2))
        + y + reset_code());
}

/// Two segments of text where the second turns an attribute or a colour off:
/// between the texts a full reset is written, then the second style in full.
pub proof fn law_dropped_attribute_resets(s1: Style, s2: Style, x: Seq<u8>, y: Seq<u8>)
    requires
        turns_off(s1, s2),
    ensures
        difference(s1, s2) == Difference::Reset,
        strings_bytes(seq![painted(s1, x), painted(s2, y)]) == style_prefix(s1) + x + reset_code()
            + style_prefix(s2) + y + style_suffix(s2),
{
    let (a, b) = (painted(s1, x), painted(s2, y));
    lemma_two_texts(a, b);
    reveal(transition);
    lemma_inner_plain(b);
    assert(strings_bytes(seq![a, b]) =~= style_prefix(s1) + x + reset_code() + style_prefix(s2)
        + y + style_suffix(s2));
}

proof fn lemma_styling_ends_at_plain(vs: Seq<SegmentView>, n: int)
    requires
        1 <= n <= vs.len(),
        vs[n - 1].style == plain_style(),
    ensures
        !pass(vs, n).styling,
    decreases n,
{
    reveal(transition);
    if n > 1 {
        if vs[n - 2].style == plain_style() {
            lemma_styling_ends_at_plain(vs, n - 1);
        }
    }
}

/// A sequence that ends with a segment in the plain style gets no reset at
/// its end, however earlier segments were styled.
pub proof fn law_no_trailing_reset_after_plain(vs: Seq<SegmentView>)
    requires
        vs.len() > 0,
        vs.last().style == plain_style(),
    ensures
        trailer(pass(vs, vs.len() as int), vs.last()) == Seq::<u8>::empty(),
        strings_bytes(vs) == pass(vs, vs.len() as int).out,
{
    lemma_styling_ends_at_plain(vs, vs.len() as int);
    assert(strings_bytes(vs) =~= pass(vs, vs.len() as int).out);
}

/// A segment in the plain style between two segments of plain text, whatever
/// its command and wrapping: the neighbours are written as their bare texts
/// and the segment as it is written on its own. Followed by plain text, such
/// a segment is written as it is alone, then the text.
pub proof fn law_wrapping_stays_inside(p1: SegmentView, w: SegmentView, p2: SegmentView)
    requires
        is_plain_text(p1),
        is_plain_text(p2),
        w.style == plain_style(),
    ensures
        strings_bytes(seq![p1, w, p2]) == p1.text + segment_bytes(w) + p2.text,
        strings_bytes(seq![p1, w]) == p1.text + segment_bytes(w),
        strings_bytes(seq![w, p2]) == strings_bytes(seq![w]) + p2.text,
{
    reveal(transition);
    lemma_inner_plain(p1);
    lemma_inner_plain(p2);
    lemma_inner_closes(w, false);
    lemma_inner_closes(w, w.wrap is Some);
    let three = seq![p1, w, p2];
    assert(!continues(three, 0) && !continues(three, 1) && !continues(three, 2));
    assert(pass(three, 1).out =~= p1.text);
    assert(pass(three, 2).out =~= p1.text + segment_bytes(w));
    assert(!pass(three, 2).in_zw && !pass(three, 2).styling);
    assert(pass(three, 3).out =~= p1.text + segment_bytes(w) + p2.text);
    assert(strings_bytes(three) =~= p1.text + segment_bytes(w) + p2.text);
    let front = seq![p1, w];
    assert(!continues(front, 0) && !continues(front, 1));
    assert(pass(front, 1).out =~= p1.text);
    assert(pass(front, 2).out =~= p1.text + segment_bytes(w));
    assert(strings_bytes(front) =~= p1.text + segment_bytes(w));
    let back = seq![w, p2];
    assert(!continues(back, 0) && !continues(back, 1));
    assert(!continues(seq![w], 0));
    assert(first_step(back) == first_step(seq![w]));
    assert(!pass(back, 1).in_zw && !pass(back, 1).styling);
    assert(strings_bytes(seq![w]) =~= first_step(seq![w]).out);
    assert(pass(back, 2).out =~= first_step(seq![w]).out + p2.text);
    assert(strings_bytes(back) =~= strings_bytes(seq![w]) + p2.text);
}

} // verus!
