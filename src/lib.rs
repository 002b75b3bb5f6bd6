//! Styled text for terminals: segments of text or bytes, each with a style
//! and optionally a window-title or hyperlink command, written out as the
//! escape sequences that a terminal understands. Segments written together
//! cost only the escape bytes that each change of style needs.

pub mod difference;
pub mod display;
pub mod laws;
pub mod style;
pub mod text;

pub use difference::Difference;
pub use display::{
    AnsiByteString, AnsiByteStrings, AnsiGenericString, AnsiGenericStrings, AnsiString,
    AnsiStrings, Wrapping,
};
pub use style::{Color, Style};
pub use text::AnsiText;
