use vstd::prelude::*;

use crate::text::ascii_bytes;

verus! {

/// A terminal colour, usable as a foreground or a background.
#[derive(Clone, Copy, Debug, PartialEq, Eq, Structural)]
pub enum Color {
    Black,
    DarkGray,
    Red,
    LightRed,
    Green,
    LightGreen,
    Yellow,
    LightYellow,
    Blue,
    LightBlue,
    Purple,
    LightPurple,
    Magenta,
    LightMagenta,
    Cyan,
    LightCyan,
    White,
    LightGray,
    /// One of the 256 indexed colours.
    Fixed(u8),
    /// A 24-bit colour.
    Rgb(u8, u8, u8),
    /// The terminal's own default colour.
    Default,
}

/// The decimal digits of a byte value, without leading zeros.
pub open spec fn decimal(n: u8) -> Seq<u8> {
    if n < 10 {
        seq![(48 + n) as u8]
    } else if n < 100 {
        seq![(48 + n / 10) as u8, (48 + n % 10) as u8]
    } else {
        seq![(48 + n / 100) as u8, (48 + (n / 10) % 10) as u8, (48 + n % 10) as u8]
    }
}

/// Appends the decimal digits of `n`.
pub fn write_decimal(out: &mut Vec<u8>, n: u8)
    ensures
        final(out)@ == old(out)@ + decimal(n),
{
    if n < 10 {
        out.push(48 + n);
    } else if n < 100 {
        out.push(48 + n / 10);
        out.push(48 + n % 10);
    } else {
        out.push(48 + n / 100);
        out.push(48 + (n / 10) % 10);
        out.push(48 + n % 10);
    }
    assert(out@ =~= old(out)@ + decimal(n));
}


/// The digit that selects one of the eight basic colours, for colours that
/// have one.
pub open spec fn basic_digit(c: Color) -> Option<(u8, bool)> {
    match c {
        Color::Black => Some((48u8, false)),
        Color::Red => Some((49u8, false)),
        Color::Green => Some((50u8, false)),
        Color::Yellow => Some((51u8, false)),
        Color::Blue => Some((52u8, false)),
        Color::Purple => Some((53u8, false)),
        Color::Magenta => Some((53u8, false)),
        Color::Cyan => Some((54u8, false)),
        Color::White => Some((55u8, false)),
        Color::DarkGray => Some((48u8, true)),
        Color::LightRed => Some((49u8, true)),
        Color::LightGreen => Some((50u8, true)),
        Color::LightYellow => Some((51u8, true)),
        Color::LightBlue => Some((52u8, true)),
        Color::LightPurple => Some((53u8, true)),
        Color::LightMagenta => Some((53u8, true)),
        Color::LightCyan => Some((54u8, true)),
        Color::LightGray => Some((55u8, true)),
        _ => None,
    }
}

/// The SGR parameter that selects colour `c`, as a foreground colour or, when
/// `background` holds, as a background colour.
pub open spec fn color_code(c: Color, background: bool) -> Seq<u8> {
    let layer: u8 = if background { 52u8 } else { 51u8 };
    match c {
        Color::Fixed(n) => seq![layer, 56u8, 59u8, 53u8, 59u8] + decimal(n),
        Color::Rgb(r, g, b) => seq![layer, 56u8, 59u8, 50u8, 59u8] + decimal(r) + seq![59u8]
            + decimal(g) + seq![59u8] + decimal(b),
        Color::Default => seq![layer, 57u8],
        _ => {
            let (d, bright) = basic_digit(c).unwrap();
            if !bright {
                seq![layer, d]
            } else if background {
                seq![49u8, 48u8, d]
            } else {
                seq![57u8, d]
            }
        },
    }
}

impl Color {
    fn basic_digit(&self) -> (r: Option<(u8, bool)>)
        ensures
            r == basic_digit(*self),
    {
        match self {
            Color::Black => Some((48u8, false)),
            Color::Red => Some((49u8, false)),
            Color::Green => Some((50u8, false)),
            Color::Yellow => Some((51u8, false)),
            Color::Blue => Some((52u8, false)),
            Color::Purple => Some((53u8, false)),
            Color::Magenta => Some((53u8, false)),
            Color::Cyan => Some((54u8, false)),
            Color::White => Some((55u8, false)),
            Color::DarkGray => Some((48u8, true)),
            Color::LightRed => Some((49u8, true)),
            Color::LightGreen => Some((50u8, true)),
            Color::LightYellow => Some((51u8, true)),
            Color::LightBlue => Some((52u8, true)),
            Color::LightPurple => Some((53u8, true)),
            Color::LightMagenta => Some((53u8, true)),
            Color::LightCyan => Some((54u8, true)),
            Color::LightGray => Some((55u8, true)),
            _ => None,
        }
    }

    /// Appends the SGR parameter of this colour, as a foreground colour or,
    /// when `background` holds, as a background colour.
    pub fn write_code(&self, out: &mut Vec<u8>, background: bool)
        ensures
            final(out)@ == old(out)@ + color_code(*self, background),
    {
        let layer: u8 = if background { 52 } else { 51 };
        match *self {
            Color::Fixed(n) => {
                out.push(layer);
                out.push(56);
                out.push(59);
                out.push(53);
                out.push(59);
                write_decimal(out, n);
            },
            Color::Rgb(r, g, b) => {
                out.push(layer);
                out.push(56);
                out.push(59);
                out.push(50);
                out.push(59);
                write_decimal(out, r);
                out.push(59);
                write_decimal(out, g);
                out.push(59);
                write_decimal(out, b);
            },
            Color::Default => {
                out.push(layer);
                out.push(57);
            },
            _ => {
                let (d, bright) = self.basic_digit().unwrap();
                if !bright {
                    out.push(layer);
                } else if background {
                    out.push(49);
                    out.push(48);
                } else {
                    out.push(57);
                }
                out.push(d);
            },
        }
        assert(out@ =~= old(out)@ + color_code(*self, background));
    }
}

/// Text attributes and colours that a terminal applies to what follows.
#[derive(Clone, Copy, Debug, PartialEq, Eq, Structural)]
pub struct Style {
    pub foreground: Option<Color>,
    pub background: Option<Color>,
    pub is_bold: bool,
    pub is_dimmed: bool,
    pub is_italic: bool,
    pub is_underline: bool,
    pub is_blink: bool,
    pub is_reverse: bool,
    pub is_hidden: bool,
    pub is_strikethrough: bool,
}

/// The style with no attribute and no colour.
pub open spec fn plain_style() -> Style {
    Style {
        foreground: None,
        background: None,
        is_bold: false,
        is_dimmed: false,
        is_italic: false,
        is_underline: false,
        is_blink: false,
        is_reverse: false,
        is_hidden: false,
        is_strikethrough: false,
    }
}

/// The sequence that turns every attribute and colour off: `ESC [ 0 m`.
pub open spec fn reset_code() -> Seq<u8> {
    seq![27u8, 91u8, 48u8, 109u8]
}

/// Appends the reset sequence.
pub fn write_reset(out: &mut Vec<u8>)
    ensures
        final(out)@ == old(out)@ + reset_code(),
{
    out.push(27);
    out.push(91);
    out.push(48);
    out.push(109);
    assert(out@ =~= old(out)@ + reset_code());
}

/// The one-parameter list `[d]` when `on` holds, else the empty list.
#[verifier::opaque]
pub open spec fn flag_param(on: bool, d: u8) -> Seq<Seq<u8>> {
    if on {
        seq![seq![d]]
    } else {
        seq![]
    }
}

/// The parameter of an optional colour.
#[verifier::opaque]
pub open spec fn color_param(c: Option<Color>, background: bool) -> Seq<Seq<u8>> {
    match c {
        Some(c) => seq![color_code(c, background)],
        None => seq![],
    }
}

/// The SGR parameters of a style's attributes, in the order they are written.
pub open spec fn attr_params(s: Style) -> Seq<Seq<u8>> {
    flag_param(s.is_bold, 49u8) + flag_param(s.is_dimmed, 50u8) + flag_param(s.is_italic, 51u8)
        + flag_param(s.is_underline, 52u8) + flag_param(s.is_blink, 53u8) + flag_param(
        s.is_reverse,
        55u8,
    ) + flag_param(s.is_hidden, 56u8) + flag_param(s.is_strikethrough, 57u8)
}

/// The SGR parameters of a style, in the order they are written: the
/// attributes, then the background, then the foreground.
pub open spec fn sgr_params(s: Style) -> Seq<Seq<u8>> {
    attr_params(s) + color_param(s.background, true) + color_param(s.foreground, false)
}

/// Parameters joined by `;`.
#[verifier::opaque]
pub open spec fn join_params(l: Seq<Seq<u8>>) -> Seq<u8>
    decreases l.len(),
{
    if l.len() == 0 {
        seq![]
    } else if l.len() == 1 {
        l[0]
    } else {
        join_params(l.drop_last()) + seq![59u8] + l.last()
    }
}

/// The bytes that switch a style on: nothing for the plain style, else
/// `ESC [`, the parameters joined by `;`, and `m`.
pub open spec fn style_prefix(s: Style) -> Seq<u8> {
    if s == plain_style() {
        seq![]
    } else {
        seq![27u8, 91u8] + join_params(sgr_params(s)) + seq![109u8]
    }
}

/// The bytes that switch a style off: nothing for the plain style, else the
/// reset sequence.
pub open spec fn style_suffix(s: Style) -> Seq<u8> {
    if s == plain_style() {
        seq![]
    } else {
        reset_code()
    }
}

proof fn lemma_join_push(l: Seq<Seq<u8>>, x: Seq<u8>)
    ensures
        join_params(l.push(x)) == if l.len() == 0 {
            x
        } else {
            join_params(l) + seq![59u8] + x
        },
        l.len() == 0 ==> join_params(l) == Seq::<u8>::empty(),
{
    reveal(join_params);
    assert(l.push(x).drop_last() =~= l);
}

/// Appends `;` when a parameter was already written, and records that one is.
fn separate(out: &mut Vec<u8>, written: &mut bool)
    ensures
        final(out)@ == old(out)@ + if *old(written) {
            seq![59u8]
        } else {
            seq![]
        },
        *final(written),
{
    if *written {
        out.push(59);
    }
    *written = true;
    assert(out@ =~= old(out)@ + if *old(written) {
        seq![59u8]
    } else {
        seq![]
    });
}

impl Style {
    /// The plain style.
    pub fn new() -> (r: Style)
        ensures
            r == plain_style(),
    {
        Style {
            foreground: None,
            background: None,
            is_bold: false,
            is_dimmed: false,
            is_italic: false,
            is_underline: false,
            is_blink: false,
            is_reverse: false,
            is_hidden: false,
            is_strikethrough: false,
        }
    }

    /// Whether this style has no attribute and no colour.
    pub fn is_plain(&self) -> (r: bool)
        ensures
            r == (*self == plain_style()),
    {
        self.foreground.is_none() && self.background.is_none() && !self.is_bold && !self.is_dimmed
            && !self.is_italic && !self.is_underline && !self.is_blink && !self.is_reverse
            && !self.is_hidden && !self.is_strikethrough
    }

    fn write_flag(
        out: &mut Vec<u8>,
        written: &mut bool,
        on: bool,
        d: u8,
        Ghost(params): Ghost<Seq<Seq<u8>>>,
        Ghost(start): Ghost<Seq<u8>>,
    )
        requires
            old(out)@ == start + join_params(params),
            *old(written) == (params.len() > 0),
        ensures
            final(out)@ == start + join_params(params + flag_param(on, d)),
            *final(written) == (params.len() + flag_param(on, d).len() > 0),
    {
        reveal(flag_param);
        if on {
            separate(out, written);
            out.push(d);
            proof {
                lemma_join_push(params, seq![d]);
                assert(params + flag_param(on, d) =~= params.push(seq![d]));
            }
            assert(out@ =~= start + join_params(params + flag_param(on, d)));
        } else {
            assert(params + flag_param(on, d) =~= params);
        }
    }

    fn write_color(
        out: &mut Vec<u8>,
        written: &mut bool,
        c: Option<Color>,
        background: bool,
        Ghost(params): Ghost<Seq<Seq<u8>>>,
        Ghost(start): Ghost<Seq<u8>>,
    )
        requires
            old(out)@ == start + join_params(params),
            *old(written) == (params.len() > 0),
        ensures
            final(out)@ == start + join_params(params + color_param(c, background)),
            *final(written) == (params.len() + color_param(c, background).len() > 0),
    {
        reveal(color_param);
        match c {
            Some(col) => {
                separate(out, written);
                col.write_code(out, background);
                proof {
                    lemma_join_push(params, color_code(col, background));
                    assert(params + color_param(c, background) =~= params.push(
                        color_code(col, background),
                    ));
                }
                assert(out@ =~= start + join_params(params + color_param(c, background)));
            },
            None => {
                assert(params + color_param(c, background) =~= params);
            },
        }
    }

    fn write_attrs(&self, out: &mut Vec<u8>, written: &mut bool)
        requires
            !*old(written),
        ensures
            final(out)@ == old(out)@ + join_params(attr_params(*self)),
            *final(written) == (attr_params(*self).len() > 0),
    {
        let ghost start = out@;
        let ghost ps0: Seq<Seq<u8>> = seq![];
        assert(out@ =~= start + join_params(ps0)) by {
            reveal(join_params);
        }
        Self::write_flag(out, written, self.is_bold, 49, Ghost(ps0), Ghost(start));
        let ghost ps1 = ps0 + flag_param(self.is_bold, 49u8);
        assert(ps1 =~= flag_param(self.is_bold, 49u8));
        Self::write_flag(out, written, self.is_dimmed, 50, Ghost(ps1), Ghost(start));
        let ghost ps2 = ps1 + flag_param(self.is_dimmed, 50u8);
        Self::write_flag(out, written, self.is_italic, 51, Ghost(ps2), Ghost(start));
        let ghost ps3 = ps2 + flag_param(self.is_italic, 51u8);
        Self::write_flag(out, written, self.is_underline, 52, Ghost(ps3), Ghost(start));
        let ghost ps4 = ps3 + flag_param(self.is_underline, 52u8);
        Self::write_flag(out, written, self.is_blink, 53, Ghost(ps4), Ghost(start));
        let ghost ps5 = ps4 + flag_param(self.is_blink, 53u8);
        Self::write_flag(out, written, self.is_reverse, 55, Ghost(ps5), Ghost(start));
        let ghost ps6 = ps5 + flag_param(self.is_reverse, 55u8);
        Self::write_flag(out, written, self.is_hidden, 56, Ghost(ps6), Ghost(start));
        let ghost ps7 = ps6 + flag_param(self.is_hidden, 56u8);
        Self::write_flag(out, written, self.is_strikethrough, 57, Ghost(ps7), Ghost(start));
        let ghost ps8 = ps7 + flag_param(self.is_strikethrough, 57u8);
        assert(ps8 == attr_params(*self));
    }

    /// Appends the bytes that switch this style on.
    pub fn write_prefix(&self, out: &mut Vec<u8>)
        ensures
            final(out)@ == old(out)@ + style_prefix(*self),
    {
        if self.is_plain() {
            assert(out@ =~= old(out)@ + style_prefix(*self));
            return ;
        }
        out.push(27);
        out.push(91);
        let ghost start = out@;
        let mut written = false;
        self.write_attrs(out, &mut written);
        let ghost ps8 = attr_params(*self);
        Self::write_color(out, &mut written, self.background, true, Ghost(ps8), Ghost(start));
        let ghost ps9 = ps8 + color_param(self.background, true);
        Self::write_color(out, &mut written, self.foreground, false, Ghost(ps9), Ghost(start));
        out.push(109);
        assert(out@ =~= old(out)@ + style_prefix(*self));
    }

    /// Appends the bytes that switch this style off.
    pub fn write_suffix(&self, out: &mut Vec<u8>)
        ensures
            final(out)@ == old(out)@ + style_suffix(*self),
    {
        if self.is_plain() {
            assert(out@ =~= old(out)@ + style_suffix(*self));
        } else {
            write_reset(out);
        }
    }

    /// The bytes that switch this style on.
    pub fn prefix(&self) -> (r: Vec<u8>)
        ensures
            r@ == style_prefix(*self),
    {
        let mut out: Vec<u8> = Vec::new();
        self.write_prefix(&mut out);
        assert(out@ =~= style_prefix(*self));
        out
    }

    /// The bytes that switch this style off.
    pub fn suffix(&self) -> (r: Vec<u8>)
        ensures
            r@ == style_suffix(*self),
    {
        let mut out: Vec<u8> = Vec::new();
        self.write_suffix(&mut out);
        assert(out@ =~= style_suffix(*self));
        out
    }

    /// This style, bold as well.
    pub fn bold(&self) -> (r: Style)
        ensures
            r == (Style { is_bold: true, ..*self }),
    {
        Style { is_bold: true, ..*self }
    }

    /// This style, dimmed as well.
    pub fn dimmed(&self) -> (r: Style)
        ensures
            r == (Style { is_dimmed: true, ..*self }),
    {
        Style { is_dimmed: true, ..*self }
    }

    /// This style, italic as well.
    pub fn italic(&self) -> (r: Style)
        ensures
            r == (Style { is_italic: true, ..*self }),
    {
        Style { is_italic: true, ..*self }
    }

    /// This style, underlined as well.
    pub fn underline(&self) -> (r: Style)
        ensures
            r == (Style { is_underline: true, ..*self }),
    {
        Style { is_underline: true, ..*self }
    }

    /// This style, blinking as well.
    pub fn blink(&self) -> (r: Style)
        ensures
            r == (Style { is_blink: true, ..*self }),
    {
        Style { is_blink: true, ..*self }
    }

    /// This style, reversed as well.
    pub fn reverse(&self) -> (r: Style)
        ensures
            r == (Style { is_reverse: true, ..*self }),
    {
        Style { is_reverse: true, ..*self }
    }

    /// This style, hidden as well.
    pub fn hidden(&self) -> (r: Style)
        ensures
            r == (Style { is_hidden: true, ..*self }),
    {
        Style { is_hidden: true, ..*self }
    }

    /// This style, struck through as well.
    pub fn strikethrough(&self) -> (r: Style)
        ensures
            r == (Style { is_strikethrough: true, ..*self }),
    {
        Style { is_strikethrough: true, ..*self }
    }

    /// This style with foreground colour `c`.
    pub fn fg(&self, c: Color) -> (r: Style)
        ensures
            r == (Style { foreground: Some(c), ..*self }),
    {
        Style { foreground: Some(c), ..*self }
    }

    /// This style with background colour `c`.
    pub fn on(&self, c: Color) -> (r: Style)
        ensures
            r == (Style { background: Some(c), ..*self }),
    {
        Style { background: Some(c), ..*self }
    }
}

proof fn lemma_color_code_ascii(c: Color, background: bool)
    ensures
        ascii_bytes(color_code(c, background)),
{
}

spec fn all_ascii(l: Seq<Seq<u8>>) -> bool {
    forall|i: int| 0 <= i < l.len() ==> ascii_bytes(#[trigger] l[i])
}

proof fn lemma_all_ascii_concat(a: Seq<Seq<u8>>, b: Seq<Seq<u8>>)
    requires
        all_ascii(a),
        all_ascii(b),
    ensures
        all_ascii(a + b),
{
    assert forall|i: int| 0 <= i < (a + b).len() implies ascii_bytes(#[trigger] (a + b)[i]) by {
        if i >= a.len() {
            assert((a + b)[i] == b[i - a.len()]);
        }
    }
}

proof fn lemma_flag_ascii(on: bool, d: u8)
    requires
        d < 128,
    ensures
        all_ascii(flag_param(on, d)),
{
    reveal(flag_param);
}

proof fn lemma_color_param_ascii(c: Option<Color>, background: bool)
    ensures
        all_ascii(color_param(c, background)),
{
    reveal(color_param);
    if let Some(c) = c {
        lemma_color_code_ascii(c, background);
    }
}

proof fn lemma_join_ascii(l: Seq<Seq<u8>>)
    requires
        all_ascii(l),
    ensures
        ascii_bytes(join_params(l)),
    decreases l.len(),
{
    reveal(join_params);
    if l.len() > 1 {
        assert(all_ascii(l.drop_last()));
        assert(ascii_bytes(l.last()));
        lemma_join_ascii(l.drop_last());
    }
}

/// A style's prefix and suffix are made of bytes below 128.
pub proof fn lemma_style_ascii(s: Style)
    ensures
        ascii_bytes(style_prefix(s)),
        ascii_bytes(style_suffix(s)),
{
    lemma_flag_ascii(s.is_bold, 49u8);
    lemma_flag_ascii(s.is_dimmed, 50u8);
    lemma_flag_ascii(s.is_italic, 51u8);
    lemma_flag_ascii(s.is_underline, 52u8);
    lemma_flag_ascii(s.is_blink, 53u8);
    lemma_flag_ascii(s.is_reverse, 55u8);
    lemma_flag_ascii(s.is_hidden, 56u8);
    lemma_flag_ascii(s.is_strikethrough, 57u8);
    let ps1 = flag_param(s.is_bold, 49u8) + flag_param(s.is_dimmed, 50u8);
    lemma_all_ascii_concat(flag_param(s.is_bold, 49u8), flag_param(s.is_dimmed, 50u8));
    let ps2 = ps1 + flag_param(s.is_italic, 51u8);
    lemma_all_ascii_concat(ps1, flag_param(s.is_italic, 51u8));
    let ps3 = ps2 + flag_param(s.is_underline, 52u8);
    lemma_all_ascii_concat(ps2, flag_param(s.is_underline, 52u8));
    let ps4 = ps3 + flag_param(s.is_blink, 53u8);
    lemma_all_ascii_concat(ps3, flag_param(s.is_blink, 53u8));
    let ps5 = ps4 + flag_param(s.is_reverse, 55u8);
    lemma_all_ascii_concat(ps4, flag_param(s.is_reverse, 55u8));
    let ps6 = ps5 + flag_param(s.is_hidden, 56u8);
    lemma_all_ascii_concat(ps5, flag_param(s.is_hidden, 56u8));
    lemma_all_ascii_concat(ps6, flag_param(s.is_strikethrough, 57u8));
    let ps8 = attr_params(s);
    lemma_color_param_ascii(s.background, true);
    lemma_color_param_ascii(s.foreground, false);
    lemma_all_ascii_concat(ps8, color_param(s.background, true));
    lemma_all_ascii_concat(ps8 + color_param(s.background, true), color_param(s.foreground, false));
    lemma_join_ascii(sgr_params(s));
    let pre = style_prefix(s);
    if s != plain_style() {
        let j = join_params(sgr_params(s));
        assert forall|i: int| 0 <= i < pre.len() implies pre[i] < 128 by {
            if 2 <= i < 2 + j.len() {
                assert(pre[i] == j[i - 2]);
            }
        }
    }
}

impl Color {
    /// The style with this foreground colour and nothing else.
    pub fn normal(self) -> (r: Style)
        ensures
            r == (Style { foreground: Some(self), ..plain_style() }),
    {
        Style { foreground: Some(self), ..Style::new() }
    }

    /// The style with this foreground colour, bold.
    pub fn bold(self) -> (r: Style)
        ensures
            r == (Style { foreground: Some(self), is_bold: true, ..plain_style() }),
    {
        Style { foreground: Some(self), is_bold: true, ..Style::new() }
    }

    /// The style with this foreground colour, dimmed.
    pub fn dimmed(self) -> (r: Style)
        ensures
            r == (Style { foreground: Some(self), is_dimmed: true, ..plain_style() }),
    {
        Style { foreground: Some(self), is_dimmed: true, ..Style::new() }
    }

    /// The style with this foreground colour, italic.
    pub fn italic(self) -> (r: Style)
        ensures
            r == (Style { foreground: Some(self), is_italic: true, ..plain_style() }),
    {
        Style { foreground: Some(self), is_italic: true, ..Style::new() }
    }

    /// The style with this foreground colour, underlined.
    pub fn underline(self) -> (r: Style)
        ensures
            r == (Style { foreground: Some(self), is_underline: true, ..plain_style() }),
    {
        Style { foreground: Some(self), is_underline: true, ..Style::new() }
    }

    /// The style with this foreground colour, blinking.
    pub fn blink(self) -> (r: Style)
        ensures
            r == (Style { foreground: Some(self), is_blink: true, ..plain_style() }),
    {
        Style { foreground: Some(self), is_blink: true, ..Style::new() }
    }

    /// The style with this foreground colour, reversed.
    pub fn reverse(self) -> (r: Style)
        ensures
            r == (Style { foreground: Some(self), is_reverse: true, ..plain_style() }),
    {
        Style { foreground: Some(self), is_reverse: true, ..Style::new() }
    }

    /// The style with this foreground colour, hidden.
    pub fn hidden(self) -> (r: Style)
        ensures
            r == (Style { foreground: Some(self), is_hidden: true, ..plain_style() }),
    {
        Style { foreground: Some(self), is_hidden: true, ..Style::new() }
    }

    /// The style with this foreground colour, struck through.
    pub fn strikethrough(self) -> (r: Style)
        ensures
            r == (Style { foreground: Some(self), is_strikethrough: true, ..plain_style() }),
    {
        Style { foreground: Some(self), is_strikethrough: true, ..Style::new() }
    }

    /// The style with this foreground colour on background colour `bg`.
    pub fn on(self, bg: Color) -> (r: Style)
        ensures
            r == (Style { foreground: Some(self), background: Some(bg), ..plain_style() }),
    {
        Style { foreground: Some(self), background: Some(bg), ..Style::new() }
    }
}

impl Default for Style {
    fn default() -> (r: Style)
        ensures
            r == plain_style(),
    {
        Style::new()
    }
}

} // verus!
