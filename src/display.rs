use vstd::prelude::*;
use vstd::string::StringSliceAdditionalSpecFns;

use crate::difference::{difference, Difference};
use crate::style::{lemma_style_ascii, plain_style, reset_code, style_prefix, style_suffix, write_reset, Color, Style};
use crate::text::{
    append_bytes, ascii_bytes, lemma_ascii_valid_utf8, lemma_str_valid_utf8, lemma_valid_utf8_concat,
    AnsiText,
};
use vstd::utf8::{decode_utf8, encode_utf8, encode_utf8_decode_utf8, valid_utf8};

verus! {

/// How the invisible parts of a segment (its escape sequences) are marked
/// off, so that a consumer that measures text width can skip them.
#[derive(Clone, Copy, Debug, PartialEq, Eq)]
pub enum Wrapping<'a> {
    /// The bytes `0x01` and `0x02`.
    CtrlACtrlB,
    /// A begin marker and an end marker of the caller's choice.
    Str(&'a str, &'a str),
}

/// The begin and end markers that a wrapping policy puts around invisible
/// bytes; `None` when the segment asks for no wrapping.
pub open spec fn wrap_markers(w: Option<Wrapping>) -> Option<(Seq<u8>, Seq<u8>)> {
    match w {
        Some(Wrapping::CtrlACtrlB) => Some((seq![1u8], seq![2u8])),
        Some(Wrapping::Str(b, e)) => Some((b.spec_bytes(), e.spec_bytes())),
        None => None,
    }
}

/// An operating-system command that a segment stands for.
#[derive(Clone, Debug, PartialEq, Eq)]
enum OSControl<S> {
    Title,
    Link { url: S },
}

/// What a segment's operating-system command is, in the model.
pub enum ControlView {
    /// The text is a window title, and nothing of it is visible.
    Title,
    /// The text is the visible label of a link to the given target.
    Link(Seq<u8>),
}

/// The model of a segment: its style, its payload's bytes, its command, and
/// its wrap markers.
pub struct SegmentView {
    pub style: Style,
    pub text: Seq<u8>,
    pub control: Option<ControlView>,
    pub wrap: Option<(Seq<u8>, Seq<u8>)>,
}

/// A piece of text or bytes with the style to display it in, and optionally
/// the title or hyperlink command it stands for.
#[derive(Clone, Debug, PartialEq, Eq)]
pub struct AnsiGenericString<'a, S> {
    pub(crate) style: Style,
    pub(crate) string: S,
    oscontrol: Option<OSControl<S>>,
    /// Whether, and with what, to mark off the invisible bytes.
    pub wrap_zw: Option<Wrapping<'a>>,
}

/// A styled piece of text.
pub type AnsiString<'a> = AnsiGenericString<'a, &'a str>;

/// A styled piece of bytes of unknown encoding.
pub type AnsiByteString<'a> = AnsiGenericString<'a, &'a [u8]>;

impl<'a, S: AnsiText> View for AnsiGenericString<'a, S> {
    type V = SegmentView;

    closed spec fn view(&self) -> SegmentView {
        SegmentView {
            style: self.style,
            text: self.string.text_bytes(),
            control: match self.oscontrol {
                None => None,
                Some(OSControl::Title) => Some(ControlView::Title),
                Some(OSControl::Link { url }) => Some(ControlView::Link(url.text_bytes())),
            },
            wrap: wrap_markers(self.wrap_zw),
        }
    }
}

/// `ESC ] 2 ;`: opens a window-title command.
pub open spec fn osc_title() -> Seq<u8> {
    seq![27u8, 93u8, 50u8, 59u8]
}

/// `ESC ] 8 ; ;`: opens a hyperlink command.
pub open spec fn osc_link() -> Seq<u8> {
    seq![27u8, 93u8, 56u8, 59u8, 59u8]
}

/// `ESC \`: ends a command.
pub open spec fn string_terminator() -> Seq<u8> {
    seq![27u8, 92u8]
}

/// The begin marker of a segment's wrapping, empty when it has none.
pub open spec fn zw_begin(v: SegmentView) -> Seq<u8> {
    match v.wrap {
        Some(m) => m.0,
        None => seq![],
    }
}

/// The end marker of a segment's wrapping, empty when it has none.
pub open spec fn zw_end(v: SegmentView) -> Seq<u8> {
    match v.wrap {
        Some(m) => m.1,
        None => seq![],
    }
}

/// Opens a command: a wrapped segment outside a wrap region opens one first.
/// The bytes written, and whether a wrap region is open afterwards.
pub open spec fn osc_open(v: SegmentView, code: Seq<u8>, in_zw: bool) -> (Seq<u8>, bool) {
    if !in_zw && v.wrap is Some {
        (zw_begin(v) + code, true)
    } else {
        (code, in_zw)
    }
}

/// Ends a command, and with it the open wrap region unless the next segment
/// continues it.
pub open spec fn osc_close(v: SegmentView, in_zw: bool, continues: bool) -> (Seq<u8>, bool) {
    if in_zw && !continues {
        (string_terminator() + zw_end(v), false)
    } else {
        (string_terminator(), in_zw)
    }
}

/// The bytes of a segment between its style's prefix and suffix, and whether
/// a wrap region is open afterwards, given whether one is open before and
/// whether the next segment continues it.
#[verifier::opaque]
pub open spec fn inner_bytes(v: SegmentView, in_zw: bool, continues: bool) -> (Seq<u8>, bool) {
    match v.control {
        None => {
            if in_zw {
                (zw_end(v) + v.text, false)
            } else {
                (v.text, in_zw)
            }
        },
        Some(ControlView::Title) => {
            let (a, z1) = osc_open(v, osc_title(), in_zw);
            let (c, z2) = osc_close(v, z1, continues);
            (a + v.text + c, z2)
        },
        Some(ControlView::Link(url)) => {
            let (a, z1) = osc_open(v, osc_link(), in_zw);
            let (b, z2) = if v.wrap is Some {
                (string_terminator() + zw_end(v), false)
            } else {
                (string_terminator(), z1)
            };
            let (c, z3) = osc_open(v, osc_link(), z2);
            let (d, z4) = osc_close(v, z3, continues);
            (a + url + b + v.text + c + d, z4)
        },
    }
}

/// The bytes of one segment on its own: its style's prefix, its payload with
/// any command around it, and its style's suffix.
pub open spec fn segment_bytes(v: SegmentView) -> Seq<u8> {
    style_prefix(v.style) + inner_bytes(v, false, false).0 + style_suffix(v.style)
}

/// Where a pass over a sequence of segments stands: what it has written,
/// whether a wrap region is open, and whether styling is still in force.
pub struct PassState {
    pub out: Seq<u8>,
    pub in_zw: bool,
    pub styling: bool,
}

/// Whether segment `i` and the one after it both ask for wrapping, so that
/// one wrap region can run on from the first into the second.
pub open spec fn continues(vs: Seq<SegmentView>, i: int) -> bool {
    vs[i].wrap is Some && i + 1 < vs.len() && vs[i + 1].wrap is Some
}

/// The state after the first segment: its prefix, then its begin marker if
/// it is wrapped, then its payload.
pub open spec fn first_step(vs: Seq<SegmentView>) -> PassState {
    let v = vs[0];
    let open = if v.wrap is Some {
        zw_begin(v)
    } else {
        seq![]
    };
    let (o, z) = inner_bytes(v, v.wrap is Some, continues(vs, 0));
    PassState {
        out: style_prefix(v.style) + open + o,
        in_zw: z,
        styling: v.style != plain_style(),
    }
}

/// The bytes that take the terminal from `prev`'s style to `next`'s, and the
/// wrap and styling state after them.
#[verifier::opaque]
pub open spec fn transition(st: PassState, prev: SegmentView, next: SegmentView) -> (
    Seq<u8>,
    bool,
    bool,
) {
    match difference(prev.style, next.style) {
        Difference::ExtraStyles(d) => {
            if !st.in_zw {
                (style_prefix(d) + zw_begin(next), true, st.styling || next.style != plain_style())
            } else {
                (style_prefix(d), st.in_zw, st.styling || next.style != plain_style())
            }
        },
        Difference::Reset => (
            reset_code() + style_prefix(next.style),
            st.in_zw,
            next.style != plain_style(),
        ),
        Difference::Empty => (seq![], st.in_zw, st.styling),
    }
}

/// The state after writing `next`, which follows `prev`.
pub open spec fn step(st: PassState, prev: SegmentView, next: SegmentView, cont: bool) -> PassState {
    let (t, z1, styling) = transition(st, prev, next);
    let (o, z2) = inner_bytes(next, z1, cont);
    PassState { out: st.out + t + o, in_zw: z2, styling }
}

/// The state after the first `n` segments, for `1 <= n <= vs.len()`.
pub open spec fn pass(vs: Seq<SegmentView>, n: int) -> PassState
    decreases n,
{
    if n <= 1 {
        first_step(vs)
    } else {
        step(pass(vs, n - 1), vs[n - 2], vs[n - 1], continues(vs, n - 1))
    }
}

/// What ends a pass: a reset when styling is in force or the last segment is
/// styled, then the end marker of a wrap region still open.
pub open spec fn trailer(st: PassState, last: SegmentView) -> Seq<u8> {
    if st.styling || last.style != plain_style() {
        reset_code() + if st.in_zw {
            zw_end(last)
        } else {
            seq![]
        }
    } else {
        seq![]
    }
}

/// The bytes of a sequence of segments written together.
pub open spec fn strings_bytes(vs: Seq<SegmentView>) -> Seq<u8> {
    if vs.len() == 0 {
        seq![]
    } else {
        let st = pass(vs, vs.len() as int);
        st.out + trailer(st, vs.last())
    }
}

/// Appends the begin marker of a wrapping policy.
fn write_wrap_begin(w: &Option<Wrapping>, out: &mut Vec<u8>)
    ensures
        final(out)@ == old(out)@ + match wrap_markers(*w) {
            Some(m) => m.0,
            None => seq![],
        },
{
    match w {
        Some(Wrapping::CtrlACtrlB) => {
            out.push(1);
            assert(out@ =~= old(out)@ + seq![1u8]);
        },
        Some(Wrapping::Str(b, _)) => append_bytes(out, b.as_bytes()),
        None => {
            assert(out@ =~= old(out)@ + Seq::<u8>::empty());
        },
    }
}

/// Appends the end marker of a wrapping policy.
fn write_wrap_end(w: &Option<Wrapping>, out: &mut Vec<u8>)
    ensures
        final(out)@ == old(out)@ + match wrap_markers(*w) {
            Some(m) => m.1,
            None => seq![],
        },
{
    match w {
        Some(Wrapping::CtrlACtrlB) => {
            out.push(2);
            assert(out@ =~= old(out)@ + seq![2u8]);
        },
        Some(Wrapping::Str(_, e)) => append_bytes(out, e.as_bytes()),
        None => {
            assert(out@ =~= old(out)@ + Seq::<u8>::empty());
        },
    }
}

/// Appends `ESC ] 2 ;` or, when `link` holds, `ESC ] 8 ; ;`.
fn write_osc_code(out: &mut Vec<u8>, link: bool)
    ensures
        final(out)@ == old(out)@ + if link {
            osc_link()
        } else {
            osc_title()
        },
{
    out.push(27);
    out.push(93);
    if link {
        out.push(56);
        out.push(59);
        out.push(59);
    } else {
        out.push(50);
        out.push(59);
    }
    assert(out@ =~= old(out)@ + if link {
        osc_link()
    } else {
        osc_title()
    });
}

/// Appends `ESC \`.
fn write_terminator(out: &mut Vec<u8>)
    ensures
        final(out)@ == old(out)@ + string_terminator(),
{
    out.push(27);
    out.push(92);
    assert(out@ =~= old(out)@ + string_terminator());
}

/// The model of a fresh segment: `text` in `style`, with no command and no
/// wrapping.
pub open spec fn painted(style: Style, text: Seq<u8>) -> SegmentView {
    SegmentView { style, text, control: None, wrap: None }
}

impl<'a, S: AnsiText> AnsiGenericString<'a, S> {
    /// The segment's style.
    pub fn style_ref(&self) -> (r: &Style)
        ensures
            *r == self@.style,
    {
        &self.style
    }

    /// The segment's style, to change in place.
    pub fn style_ref_mut(&mut self) -> (r: &mut Style)
        ensures
            *r == old(self)@.style,
    {
        &mut self.style
    }

    /// The segment's payload.
    pub fn as_str(&self) -> (r: &S)
        ensures
            r.text_bytes() == self@.text,
    {
        &self.string
    }

    /// A segment that sets the terminal's window title to `s`; it shows
    /// nothing.
    pub fn title(s: S) -> (r: Self)
        ensures
            r@ == (SegmentView {
                style: plain_style(),
                text: s.text_bytes(),
                control: Some(ControlView::Title),
                wrap: None,
            }),
    {
        AnsiGenericString {
            style: Style::new(),
            string: s,
            oscontrol: Some(OSControl::Title),
            wrap_zw: None,
        }
    }

    /// Makes the segment a hyperlink to `url`; its text stays the visible
    /// label.
    pub fn hyperlink(&mut self, url: S)
        ensures
            final(self)@ == (SegmentView {
                control: Some(ControlView::Link(url.text_bytes())),
                ..old(self)@
            }),
    {
        self.oscontrol = Some(OSControl::Link { url });
    }

    /// The target of the segment's hyperlink, if it is one.
    pub fn url_string(&self) -> (r: Option<&S>)
        ensures
            match self@.control {
                Some(ControlView::Link(u)) => r is Some && r.unwrap().text_bytes() == u,
                _ => r is None,
            },
    {
        match &self.oscontrol {
            Some(OSControl::Link { url }) => Some(url),
            _ => None,
        }
    }

    fn write_osc(&self, out: &mut Vec<u8>, in_zw: &mut bool, link: bool)
        ensures
            ({
                let (o, z) = osc_open(
                    self@,
                    if link {
                        osc_link()
                    } else {
                        osc_title()
                    },
                    *old(in_zw),
                );
                final(out)@ == old(out)@ + o && *final(in_zw) == z
            }),
    {
        if !*in_zw && self.wrap_zw.is_some() {
            write_wrap_begin(&self.wrap_zw, out);
            *in_zw = true;
        }
        write_osc_code(out, link);
        assert(out@ =~= old(out)@ + osc_open(
            self@,
            if link {
                osc_link()
            } else {
                osc_title()
            },
            *old(in_zw),
        ).0);
    }

    fn write_osc_end(&self, out: &mut Vec<u8>, in_zw: &mut bool, wrap_zw_continues: bool)
        ensures
            ({
                let (o, z) = osc_close(self@, *old(in_zw), wrap_zw_continues);
                final(out)@ == old(out)@ + o && *final(in_zw) == z
            }),
    {
        write_terminator(out);
        if *in_zw && !wrap_zw_continues {
            write_wrap_end(&self.wrap_zw, out);
            *in_zw = false;
        }
        assert(out@ =~= old(out)@ + osc_close(self@, *old(in_zw), wrap_zw_continues).0);
    }

    /// Appends the part of this segment within its style's prefix and suffix.
    /// `in_zw` tells whether a wrap region is open, and is kept up to date;
    /// `wrap_zw_continues` tells whether the next segment continues it.
    pub fn write_inner(&self, out: &mut Vec<u8>, in_zw: &mut bool, wrap_zw_continues: bool)
        ensures
            final(out)@ == old(out)@ + inner_bytes(self@, *old(in_zw), wrap_zw_continues).0,
            *final(in_zw) == inner_bytes(self@, *old(in_zw), wrap_zw_continues).1,
    {
        reveal(inner_bytes);
        match &self.oscontrol {
            Some(OSControl::Link { url }) => {
                self.write_osc(out, in_zw, true);
                append_bytes(out, url.as_byte_slice());
                write_terminator(out);
                if self.wrap_zw.is_some() {
                    write_wrap_end(&self.wrap_zw, out);
                    *in_zw = false;
                }
                append_bytes(out, self.string.as_byte_slice());
                self.write_osc(out, in_zw, true);
                self.write_osc_end(out, in_zw, wrap_zw_continues);
            },
            Some(OSControl::Title) => {
                self.write_osc(out, in_zw, false);
                append_bytes(out, self.string.as_byte_slice());
                self.write_osc_end(out, in_zw, wrap_zw_continues);
            },
            None => {
                if *in_zw {
                    write_wrap_end(&self.wrap_zw, out);
                    *in_zw = false;
                }
                append_bytes(out, self.string.as_byte_slice());
            },
        }
        assert(out@ =~= old(out)@ + inner_bytes(self@, *old(in_zw), wrap_zw_continues).0);
    }

    /// Appends this segment on its own: its style's prefix, its payload with
    /// any command around it, and its style's suffix.
    pub fn write_to_any(&self, out: &mut Vec<u8>)
        ensures
            final(out)@ == old(out)@ + segment_bytes(self@),
    {
        let mut in_zw = false;
        self.style.write_prefix(out);
        self.write_inner(out, &mut in_zw, false);
        self.style.write_suffix(out);
        assert(out@ =~= old(out)@ + segment_bytes(self@));
    }
}

/// Segments written together, so that each style change costs as few escape
/// bytes as possible.
#[derive(Debug, PartialEq, Eq)]
pub struct AnsiGenericStrings<'a, S>(pub &'a [AnsiGenericString<'a, S>]);

/// Text segments written together.
pub type AnsiStrings<'a> = AnsiGenericStrings<'a, &'a str>;

/// Byte segments written together.
pub type AnsiByteStrings<'a> = AnsiGenericStrings<'a, &'a [u8]>;

/// Collects text segments to be written together.
#[allow(non_snake_case)]
pub fn AnsiStrings<'a>(arg: &'a [AnsiString<'a>]) -> (r: AnsiStrings<'a>)
    ensures
        r.0@ == arg@,
{
    AnsiGenericStrings(arg)
}

/// Collects byte segments to be written together.
#[allow(non_snake_case)]
pub fn AnsiByteStrings<'a>(arg: &'a [AnsiByteString<'a>]) -> (r: AnsiByteStrings<'a>)
    ensures
        r.0@ == arg@,
{
    AnsiGenericStrings(arg)
}

impl<'a, S: AnsiText> View for AnsiGenericStrings<'a, S> {
    type V = Seq<SegmentView>;

    open spec fn view(&self) -> Seq<SegmentView> {
        self.0@.map_values(|s: AnsiGenericString<'a, S>| s@)
    }
}

/// Appends what takes the terminal from `prev`'s style to `next`'s.
fn write_transition<'a, S: AnsiText>(
    prev: &AnsiGenericString<'a, S>,
    next: &AnsiGenericString<'a, S>,
    out: &mut Vec<u8>,
    in_zw: &mut bool,
    styling: &mut bool,
    Ghost(st): Ghost<PassState>,
)
    requires
        *old(in_zw) == st.in_zw,
        *old(styling) == st.styling,
    ensures
        final(out)@ == old(out)@ + transition(st, prev@, next@).0,
        *final(in_zw) == transition(st, prev@, next@).1,
        *final(styling) == transition(st, prev@, next@).2,
{
    reveal(transition);
    match Difference::between(&prev.style, &next.style) {
        Difference::ExtraStyles(d) => {
            d.write_prefix(out);
            if !*in_zw {
                write_wrap_begin(&next.wrap_zw, out);
                *in_zw = true;
            }
            *styling = *styling || !next.style.is_plain();
        },
        Difference::Reset => {
            write_reset(out);
            next.style.write_prefix(out);
            *styling = !next.style.is_plain();
        },
        Difference::Empty => {},
    }
    assert(out@ =~= old(out)@ + transition(st, prev@, next@).0);
}

/// Appends what ends a pass whose last segment is `last`.
fn write_trailer<'a, S: AnsiText>(
    last: &AnsiGenericString<'a, S>,
    out: &mut Vec<u8>,
    in_zw: bool,
    styling: bool,
    Ghost(st): Ghost<PassState>,
)
    requires
        in_zw == st.in_zw,
        styling == st.styling,
    ensures
        final(out)@ == old(out)@ + trailer(st, last@),
{
    if styling || !last.style.is_plain() {
        write_reset(out);
        if in_zw {
            write_wrap_end(&last.wrap_zw, out);
        }
    }
    assert(out@ =~= old(out)@ + trailer(st, last@));
}

impl<'a, S: AnsiText> AnsiGenericStrings<'a, S> {
    /// Appends the first segment: its prefix, its begin marker if it is
    /// wrapped, and its payload. Returns the wrap and styling state.
    fn write_first(&self, out: &mut Vec<u8>) -> (r: (bool, bool))
        requires
            self.0@.len() > 0,
        ensures
            final(out)@ == old(out)@ + pass(self@, 1).out,
            r.0 == pass(self@, 1).in_zw,
            r.1 == pass(self@, 1).styling,
    {
        let segs = self.0;
        let first = &segs[0];
        let mut in_zw = false;
        first.style.write_prefix(out);
        if first.wrap_zw.is_some() {
            write_wrap_begin(&first.wrap_zw, out);
            in_zw = true;
        }
        let cont = first.wrap_zw.is_some() && segs.len() > 1 && segs[1].wrap_zw.is_some();
        assert(self@[0] == first@);
        assert(cont == continues(self@, 0));
        first.write_inner(out, &mut in_zw, cont);
        let styling = !first.style.is_plain();
        assert(out@ =~= old(out)@ + pass(self@, 1).out);
        (in_zw, styling)
    }

    /// Appends all the segments in order. Between two segments only what
    /// changes in the style is written, or a reset when an attribute has to
    /// be turned off; at the end a reset restores the plain style if styling
    /// is in force.
    pub fn write_to_any(&self, out: &mut Vec<u8>)
        ensures
            final(out)@ == old(out)@ + strings_bytes(self@),
    {
        let segs = self.0;
        let n = segs.len();
        let ghost vs = self@;
        if n == 0 {
            assert(out@ =~= old(out)@ + strings_bytes(vs));
            return ;
        }
        let (mut in_zw, mut styling) = self.write_first(out);
        let mut i: usize = 1;
        while i < n
            invariant
                n == segs@.len(),
                vs == self@,
                segs@ == self.0@,
                1 <= i <= n,
                out@ == old(out)@ + pass(vs, i as int).out,
                in_zw == pass(vs, i as int).in_zw,
                styling == pass(vs, i as int).styling,
            decreases n - i,
        {
            let prev = &segs[i - 1];
            let next = &segs[i];
            let cont = next.wrap_zw.is_some() && i + 1 < n && segs[i + 1].wrap_zw.is_some();
            let ghost st = pass(vs, i as int);
            assert(vs[i - 1] == prev@ && vs[i as int] == next@);
            assert(cont == continues(vs, i as int));
            write_transition(prev, next, out, &mut in_zw, &mut styling, Ghost(st));
            next.write_inner(out, &mut in_zw, cont);
            i = i + 1;
            assert(out@ =~= old(out)@ + pass(vs, i as int).out);
        }
        let ghost st = pass(vs, n as int);
        write_trailer(&segs[n - 1], out, in_zw, styling, Ghost(st));
        assert(out@ =~= old(out)@ + strings_bytes(vs));
    }
}

impl<'a, S: AnsiText> From<S> for AnsiGenericString<'a, S> {
    /// `input` in the plain style.
    fn from(input: S) -> (r: AnsiGenericString<'a, S>) {
        AnsiGenericString { string: input, style: Style::new(), oscontrol: None, wrap_zw: None }
    }
}

impl<'a, S: AnsiText> vstd::std_specs::convert::FromSpecImpl<S> for AnsiGenericString<'a, S> {
    open spec fn obeys_from_spec() -> bool {
        true
    }

    closed spec fn from_spec(input: S) -> AnsiGenericString<'a, S> {
        AnsiGenericString { string: input, style: plain_style(), oscontrol: None, wrap_zw: None }
    }
}

/// A segment made from a payload alone is that payload in the plain style.
pub proof fn lemma_from_is_plain<'a, S: AnsiText>(input: S)
    ensures
        <AnsiGenericString<'a, S> as vstd::std_specs::convert::FromSpec<S>>::from_spec(
            input,
        )@ == painted(plain_style(), input.text_bytes()),
{
}

impl Style {
    /// `input` in this style.
    pub fn paint<'a, S: AnsiText>(self, input: S) -> (r: AnsiGenericString<'a, S>)
        ensures
            r@ == painted(self, input.text_bytes()),
    {
        AnsiGenericString { string: input, style: self, oscontrol: None, wrap_zw: None }
    }
}

impl Color {
    /// `input` in this colour, with no other attribute.
    pub fn paint<'a, S: AnsiText>(self, input: S) -> (r: AnsiGenericString<'a, S>)
        ensures
            r@ == painted(Style { foreground: Some(self), ..plain_style() }, input.text_bytes()),
    {
        AnsiGenericString { string: input, style: self.normal(), oscontrol: None, wrap_zw: None }
    }
}

/// Whether a segment's model holds only valid UTF-8: its text, its link
/// target and its wrap markers.
pub open spec fn utf8_segment(v: SegmentView) -> bool {
    &&& valid_utf8(v.text)
    &&& (v.control matches Some(ControlView::Link(u)) ==> valid_utf8(u))
    &&& (v.wrap matches Some(m) ==> valid_utf8(m.0) && valid_utf8(m.1))
}

proof fn lemma_ascii_codes_utf8()
    ensures
        valid_utf8(osc_title()),
        valid_utf8(osc_link()),
        valid_utf8(string_terminator()),
        valid_utf8(reset_code()),
        valid_utf8(Seq::<u8>::empty()),
{
    lemma_ascii_valid_utf8(osc_title());
    lemma_ascii_valid_utf8(osc_link());
    lemma_ascii_valid_utf8(string_terminator());
    lemma_ascii_valid_utf8(reset_code());
    lemma_ascii_valid_utf8(Seq::<u8>::empty());
}

proof fn lemma_markers_utf8(v: SegmentView)
    requires
        utf8_segment(v),
    ensures
        valid_utf8(zw_begin(v)),
        valid_utf8(zw_end(v)),
{
    lemma_ascii_codes_utf8();
}

proof fn lemma_inner_utf8(v: SegmentView, in_zw: bool, cont: bool)
    requires
        utf8_segment(v),
    ensures
        valid_utf8(inner_bytes(v, in_zw, cont).0),
{
    reveal(inner_bytes);
    lemma_ascii_codes_utf8();
    lemma_markers_utf8(v);
    lemma_valid_utf8_concat(zw_begin(v), osc_title());
    lemma_valid_utf8_concat(zw_begin(v), osc_link());
    lemma_valid_utf8_concat(string_terminator(), zw_end(v));
    lemma_valid_utf8_concat(zw_end(v), v.text);
    match v.control {
        None => {},
        Some(ControlView::Title) => {
            let (a, z1) = osc_open(v, osc_title(), in_zw);
            let (c, z2) = osc_close(v, z1, cont);
            lemma_valid_utf8_concat(a, v.text);
            lemma_valid_utf8_concat(a + v.text, c);
        },
        Some(ControlView::Link(url)) => {
            let (a, z1) = osc_open(v, osc_link(), in_zw);
            let (b, z2) = if v.wrap is Some {
                (string_terminator() + zw_end(v), false)
            } else {
                (string_terminator(), z1)
            };
            let (c, z3) = osc_open(v, osc_link(), z2);
            let (d, z4) = osc_close(v, z3, cont);
            lemma_valid_utf8_concat(a, url);
            lemma_valid_utf8_concat(a + url, b);
            lemma_valid_utf8_concat(a + url + b, v.text);
            lemma_valid_utf8_concat(a + url + b + v.text, c);
            lemma_valid_utf8_concat(a + url + b + v.text + c, d);
        },
    }
}

/// A segment whose model holds only valid UTF-8 is written as valid UTF-8.
pub proof fn lemma_segment_utf8(v: SegmentView)
    requires
        utf8_segment(v),
    ensures
        valid_utf8(segment_bytes(v)),
{
    lemma_style_ascii(v.style);
    lemma_ascii_valid_utf8(style_prefix(v.style));
    lemma_ascii_valid_utf8(style_suffix(v.style));
    lemma_inner_utf8(v, false, false);
    lemma_valid_utf8_concat(style_prefix(v.style), inner_bytes(v, false, false).0);
    lemma_valid_utf8_concat(
        style_prefix(v.style) + inner_bytes(v, false, false).0,
        style_suffix(v.style),
    );
}

proof fn lemma_transition_utf8(st: PassState, prev: SegmentView, next: SegmentView)
    requires
        utf8_segment(next),
    ensures
        valid_utf8(transition(st, prev, next).0),
{
    reveal(transition);
    lemma_ascii_codes_utf8();
    lemma_markers_utf8(next);
    lemma_style_ascii(next.style);
    lemma_ascii_valid_utf8(style_prefix(next.style));
    lemma_valid_utf8_concat(reset_code(), style_prefix(next.style));
    if let Difference::ExtraStyles(d) = difference(prev.style, next.style) {
        lemma_style_ascii(d);
        lemma_ascii_valid_utf8(style_prefix(d));
        lemma_valid_utf8_concat(style_prefix(d), zw_begin(next));
    }
}

proof fn lemma_pass_utf8(vs: Seq<SegmentView>, n: int)
    requires
        1 <= n <= vs.len(),
        forall|i: int| 0 <= i < vs.len() ==> utf8_segment(#[trigger] vs[i]),
    ensures
        valid_utf8(pass(vs, n).out),
    decreases n,
{
    lemma_ascii_codes_utf8();
    if n == 1 {
        let v = vs[0];
        lemma_style_ascii(v.style);
        lemma_ascii_valid_utf8(style_prefix(v.style));
        lemma_markers_utf8(v);
        let open = if v.wrap is Some {
            zw_begin(v)
        } else {
            seq![]
        };
        lemma_inner_utf8(v, v.wrap is Some, continues(vs, 0));
        lemma_valid_utf8_concat(style_prefix(v.style), open);
        lemma_valid_utf8_concat(
            style_prefix(v.style) + open,
            inner_bytes(v, v.wrap is Some, continues(vs, 0)).0,
        );
    } else {
        lemma_pass_utf8(vs, n - 1);
        let st = pass(vs, n - 1);
        let (t, z1, styling) = transition(st, vs[n - 2], vs[n - 1]);
        lemma_transition_utf8(st, vs[n - 2], vs[n - 1]);
        lemma_inner_utf8(vs[n - 1], z1, continues(vs, n - 1));
        lemma_valid_utf8_concat(st.out, t);
        lemma_valid_utf8_concat(st.out + t, inner_bytes(vs[n - 1], z1, continues(vs, n - 1)).0);
    }
}

/// Segments whose models hold only valid UTF-8 are written together as valid
/// UTF-8.
pub proof fn lemma_strings_utf8(vs: Seq<SegmentView>)
    requires
        forall|i: int| 0 <= i < vs.len() ==> utf8_segment(#[trigger] vs[i]),
    ensures
        valid_utf8(strings_bytes(vs)),
{
    lemma_ascii_codes_utf8();
    if vs.len() > 0 {
        let st = pass(vs, vs.len() as int);
        lemma_pass_utf8(vs, vs.len() as int);
        lemma_markers_utf8(vs.last());
        lemma_valid_utf8_concat(reset_code(), zw_end(vs.last()));
        lemma_valid_utf8_concat(st.out, trailer(st, vs.last()));
    }
}

proof fn lemma_text_segment_utf8<'a>(s: &AnsiString<'a>)
    ensures
        utf8_segment(s@),
{
    lemma_str_valid_utf8(s.string);
    if let Some(OSControl::Link { url }) = s.oscontrol {
        lemma_str_valid_utf8(url);
    }
    match s.wrap_zw {
        Some(Wrapping::Str(b, e)) => {
            lemma_str_valid_utf8(b);
            lemma_str_valid_utf8(e);
        },
        _ => {
            lemma_ascii_valid_utf8(seq![1u8]);
            lemma_ascii_valid_utf8(seq![2u8]);
        },
    }
}

/// Relies on `String::from_utf8`: bytes that are valid UTF-8 become the
/// string they encode, and no other bytes become a string.
#[verifier::external_body]
fn string_from_utf8(bytes: Vec<u8>) -> (r: Option<String>)
    ensures
        r is Some <==> valid_utf8(bytes@),
        r matches Some(s) ==> encode_utf8(s@) == bytes@,
{
    String::from_utf8(bytes).ok()
}

/// The string that `bytes` encode, which are valid UTF-8.
fn decode_valid(bytes: Vec<u8>) -> (r: String)
    requires
        valid_utf8(bytes@),
    ensures
        r@ == decode_utf8(bytes@),
{
    match string_from_utf8(bytes) {
        Some(s) => {
            proof {
                encode_utf8_decode_utf8(s@);
            }
            s
        },
        None => String::new(),
    }
}

impl<'a> AnsiGenericString<'a, &'a str> {
    /// The segment written on its own, as text.
    pub fn to_string(&self) -> (r: String)
        ensures
            valid_utf8(segment_bytes(self@)),
            r@ == decode_utf8(segment_bytes(self@)),
    {
        let mut out: Vec<u8> = Vec::new();
        self.write_to_any(&mut out);
        proof {
            lemma_text_segment_utf8(self);
            lemma_segment_utf8(self@);
            assert(out@ =~= segment_bytes(self@));
        }
        decode_valid(out)
    }
}

impl<'a> AnsiGenericStrings<'a, &'a str> {
    /// The segments written together, as text.
    pub fn to_string(&self) -> (r: String)
        ensures
            valid_utf8(strings_bytes(self@)),
            r@ == decode_utf8(strings_bytes(self@)),
    {
        let mut out: Vec<u8> = Vec::new();
        self.write_to_any(&mut out);
        proof {
            assert forall|i: int| 0 <= i < self@.len() implies utf8_segment(#[trigger] self@[i]) by {
                lemma_text_segment_utf8(&self.0@[i]);
            }
            lemma_strings_utf8(self@);
            assert(out@ =~= strings_bytes(self@));
        }
        decode_valid(out)
    }
}

} // verus!
