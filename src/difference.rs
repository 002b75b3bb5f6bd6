use vstd::prelude::*;

use crate::style::{plain_style, Style};

verus! {

/// How a terminal gets from one style to the next.
#[derive(Clone, Copy, Debug, PartialEq, Eq, Structural)]
pub enum Difference {
    /// Switching on the given style's attributes and colours is enough.
    ExtraStyles(Style),
    /// An attribute or a colour has to be turned off: only a full reset
    /// followed by the whole next style does that.
    Reset,
    /// The two styles are the same.
    Empty,
}

/// Whether going from `a` to `b` turns an attribute or a colour off.
pub open spec fn turns_off(a: Style, b: Style) -> bool {
    (a.is_bold && !b.is_bold) || (a.is_dimmed && !b.is_dimmed) || (a.is_italic && !b.is_italic) || (
    a.is_underline && !b.is_underline) || (a.is_blink && !b.is_blink) || (a.is_reverse
        && !b.is_reverse) || (a.is_hidden && !b.is_hidden) || (a.is_strikethrough
        && !b.is_strikethrough) || (a.foreground is Some && b.foreground is None) || (
    a.background is Some && b.background is None)
}

/// What `b` has that `a` lacks: the attributes it adds, and each colour that
/// differs.
pub open spec fn added_style(a: Style, b: Style) -> Style {
    Style {
        foreground: if a.foreground != b.foreground {
            b.foreground
        } else {
            None
        },
        background: if a.background != b.background {
            b.background
        } else {
            None
        },
        is_bold: b.is_bold && !a.is_bold,
        is_dimmed: b.is_dimmed && !a.is_dimmed,
        is_italic: b.is_italic && !a.is_italic,
        is_underline: b.is_underline && !a.is_underline,
        is_blink: b.is_blink && !a.is_blink,
        is_reverse: b.is_reverse && !a.is_reverse,
        is_hidden: b.is_hidden && !a.is_hidden,
        is_strikethrough: b.is_strikethrough && !a.is_strikethrough,
    }
}

/// The transition from style `a` to style `b`.
pub open spec fn difference(a: Style, b: Style) -> Difference {
    if a == b {
        Difference::Empty
    } else if turns_off(a, b) {
        Difference::Reset
    } else {
        Difference::ExtraStyles(added_style(a, b))
    }
}

impl Difference {
    /// Classifies the transition from `first` to `next`.
    pub fn between(first: &Style, next: &Style) -> (r: Difference)
        ensures
            r == difference(*first, *next),
    {
        if *first == *next {
            return Difference::Empty;
        }
        if (first.is_bold && !next.is_bold) || (first.is_dimmed && !next.is_dimmed) || (
        first.is_italic && !next.is_italic) || (first.is_underline && !next.is_underline) || (
        first.is_blink && !next.is_blink) || (first.is_reverse && !next.is_reverse) || (
        first.is_hidden && !next.is_hidden) || (first.is_strikethrough
            && !next.is_strikethrough) || (first.foreground.is_some()
            && next.foreground.is_none()) || (first.background.is_some()
            && next.background.is_none()) {
            return Difference::Reset;
        }
        Difference::ExtraStyles(
            Style {
                foreground: if first.foreground != next.foreground {
                    next.foreground
                } else {
                    None
                },
                background: if first.background != next.background {
                    next.background
                } else {
                    None
                },
                is_bold: next.is_bold && !first.is_bold,
                is_dimmed: next.is_dimmed && !first.is_dimmed,
                is_italic: next.is_italic && !first.is_italic,
                is_underline: next.is_underline && !first.is_underline,
                is_blink: next.is_blink && !first.is_blink,
                is_reverse: next.is_reverse && !first.is_reverse,
                is_hidden: next.is_hidden && !first.is_hidden,
                is_strikethrough: next.is_strikethrough && !first.is_strikethrough,
            },
        )
    }
}

/// Going from any style to the plain style either changes nothing (the first
/// style was plain too) or takes a full reset.
pub proof fn lemma_difference_to_plain(a: Style)
    ensures
        difference(a, plain_style()) == (if a == plain_style() {
            Difference::Empty
        } else {
            Difference::Reset
        }),
{
}

} // verus!
