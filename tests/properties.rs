use nu_ansi_term::Color::{Blue, Green, LightRed, Red};
use nu_ansi_term::{
    AnsiByteString, AnsiByteStrings, AnsiGenericString, AnsiString, AnsiStrings, Color,
    Difference, Style, Wrapping,
};

#[test]
fn plain_segments_are_written_verbatim() {
    let parts = [
        Style::default().paint("a"),
        Style::new().paint("bc"),
        AnsiString::from("d"),
    ];
    assert_eq!(AnsiStrings(&parts).to_string(), "abcd");
}

#[test]
fn empty_sequence_writes_nothing() {
    let parts: [AnsiString<'static>; 0] = [];
    assert_eq!(AnsiStrings(&parts).to_string(), "");
}

#[test]
fn single_styled_segment_is_prefix_text_suffix() {
    let s = Red.paint("x");
    assert_eq!(s.to_string(), "\x1B[31mx\x1B[0m");
    assert_eq!(AnsiStrings(&[s]).to_string(), "\x1B[31mx\x1B[0m");
}

#[test]
fn same_style_adds_no_codes_between() {
    let parts = [Red.paint("a"), Red.paint("b")];
    assert_eq!(AnsiStrings(&parts).to_string(), "\x1B[31mab\x1B[0m");
}

#[test]
fn added_attribute_writes_only_its_code() {
    let parts = [Red.paint("a"), Red.bold().paint("b")];
    assert_eq!(AnsiStrings(&parts).to_string(), "\x1B[31ma\x1B[1mb\x1B[0m");
}

#[test]
fn dropped_attribute_writes_reset_and_full_prefix() {
    let parts = [Red.bold().paint("a"), Red.paint("b")];
    assert_eq!(
        AnsiStrings(&parts).to_string(),
        "\x1B[1;31ma\x1B[0m\x1B[31mb\x1B[0m"
    );
}

#[test]
fn plain_last_segment_gets_no_trailing_reset() {
    let parts = [Red.paint("a"), Style::default().paint("b")];
    assert_eq!(AnsiStrings(&parts).to_string(), "\x1B[31ma\x1B[0mb");
}

#[test]
fn wrapped_title_between_plain_texts() {
    let mut t = AnsiGenericString::title("T");
    t.wrap_zw = Some(Wrapping::CtrlACtrlB);
    let alone = t.to_string();
    let parts = [Style::default().paint("a"), t.clone(), Style::default().paint("b")];
    assert_eq!(AnsiStrings(&parts).to_string(), format!("a{}b", alone));
    assert_eq!(alone, "\x01\x1B]2;T\x1B\\\x02");
}

#[test]
fn consecutive_wrapped_titles_share_one_region() {
    let mut a = AnsiGenericString::title("A");
    a.wrap_zw = Some(Wrapping::CtrlACtrlB);
    let mut b = AnsiGenericString::title("B");
    b.wrap_zw = Some(Wrapping::CtrlACtrlB);
    assert_eq!(
        AnsiStrings(&[a, b]).to_string(),
        "\x01\x1B]2;A\x1B\\\x1B]2;B\x1B\\\x02"
    );
}

#[test]
fn custom_wrap_markers() {
    let mut t = AnsiGenericString::title("T");
    t.wrap_zw = Some(Wrapping::Str("<", ">"));
    assert_eq!(t.to_string(), "<\x1B]2;T\x1B\\>");
}

#[test]
fn unwrapped_hyperlink() {
    let mut link = Style::default().paint("label");
    link.hyperlink("http://x");
    assert_eq!(link.to_string(), "\x1B]8;;http://x\x1B\\label\x1B]8;;\x1B\\");
}

#[test]
fn indexed_and_rgb_colours() {
    let s = Style::new().fg(Color::Fixed(208)).on(Color::Rgb(1, 22, 255));
    assert_eq!(s.paint("x").to_string(), "\x1B[48;2;1;22;255;38;5;208mx\x1B[0m");
    assert_eq!(Color::Fixed(7).paint("y").to_string(), "\x1B[38;5;7my\x1B[0m");
}

#[test]
fn bright_and_default_colours() {
    assert_eq!(LightRed.on(Color::LightBlue).paint("x").to_string(), "\x1B[104;91mx\x1B[0m");
    assert_eq!(
        Color::Default.on(Color::Default).paint("x").to_string(),
        "\x1B[49;39mx\x1B[0m"
    );
}

#[test]
fn all_attributes_in_order() {
    let s = Style::new()
        .strikethrough()
        .hidden()
        .reverse()
        .blink()
        .underline()
        .italic()
        .dimmed()
        .bold();
    assert_eq!(s.prefix(), b"\x1B[1;2;3;4;5;7;8;9m".to_vec());
    assert_eq!(s.suffix(), b"\x1B[0m".to_vec());
    assert!(Style::new().prefix().is_empty());
    assert!(Style::default().is_plain());
    assert!(!s.is_plain());
}

#[test]
fn difference_between_styles() {
    let red = Red.normal();
    assert_eq!(Difference::between(&red, &red), Difference::Empty);
    assert_eq!(Difference::between(&red.bold(), &red), Difference::Reset);
    assert_eq!(Difference::between(&red, &Style::default()), Difference::Reset);
    assert_eq!(
        Difference::between(&Green.normal(), &Blue.underline()),
        Difference::ExtraStyles(Style::new().fg(Blue).underline())
    );
}

#[test]
fn accessors() {
    let mut s = Green.paint("text");
    assert_eq!(*s.as_str(), "text");
    assert_eq!(*s.style_ref(), Green.normal());
    assert_eq!(s.url_string(), None);
    *s.style_ref_mut() = Red.bold();
    assert_eq!(s.to_string(), "\x1B[1;31mtext\x1B[0m");
    s.hyperlink("https://example.com");
    assert_eq!(s.url_string(), Some(&"https://example.com"));
}

#[test]
fn non_ascii_text() {
    assert_eq!(Green.paint("héllo ✓").to_string(), "\x1B[32mhéllo ✓\x1B[0m");
}

#[test]
fn byte_segments() {
    let a: AnsiByteString = Red.paint(&b"a\xff"[..]);
    let mut out = Vec::new();
    a.write_to_any(&mut out);
    assert_eq!(out, b"\x1B[31ma\xff\x1B[0m".to_vec());

    let parts = [a.clone(), Style::default().paint(&b"b"[..])];
    let mut out = Vec::new();
    AnsiByteStrings(&parts).write_to_any(&mut out);
    assert_eq!(out, b"\x1B[31ma\xff\x1B[0mb".to_vec());
}

#[test]
fn owned_payloads() {
    let s = Blue.paint(String::from("own"));
    let mut out = Vec::new();
    s.write_to_any(&mut out);
    assert_eq!(out, b"\x1B[34mown\x1B[0m".to_vec());
    let t = AnsiGenericString::title(vec![b'T']);
    let mut out = Vec::new();
    t.write_to_any(&mut out);
    assert_eq!(out, b"\x1B]2;T\x1B\\".to_vec());
}
