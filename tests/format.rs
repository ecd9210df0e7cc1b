use palette_print::color::Color;
use palette_print::format::{escape_char, push_color_directive, Format, FormatError};

fn rosewater() -> Color {
    Color {
        name: "Rosewater".to_string(),
        red: 245,
        green: 224,
        blue: 220,
        hex: "#f5e0dc".to_string(),
        hue: 10,
        saturation: 56,
        lightness: 91,
    }
}

fn dark() -> Color {
    Color {
        name: "Crust".to_string(),
        red: 0,
        green: 5,
        blue: 17,
        hex: "#000511".to_string(),
        hue: 223,
        saturation: 100,
        lightness: 50,
    }
}

fn paint(template: &str, color: &Color) -> (String, Result<(), FormatError>) {
    let mut out = String::new();
    let r = Format::new(template).paint(color, &mut out);
    (out, r)
}

#[test]
fn plain_text_is_copied_verbatim() {
    for t in ["", "hello world", "a │ b ██ é", "line one\nline two"] {
        assert_eq!(paint(t, &rosewater()), (t.to_string(), Ok(())));
        assert_eq!(paint(t, &dark()), (t.to_string(), Ok(())));
    }
}

#[test]
fn double_percent_is_one_percent() {
    assert_eq!(paint("%%", &rosewater()), ("%".to_string(), Ok(())));
    assert_eq!(paint("%%", &dark()), ("%".to_string(), Ok(())));
    assert_eq!(paint("50%% off", &dark()), ("50% off".to_string(), Ok(())));
}

#[test]
fn trailing_marker_is_unterminated() {
    for t in ["%", "\\", "abc%", "abc\\", "%%%", "%n%"] {
        let (_, r) = paint(t, &rosewater());
        assert_eq!(r, Err(FormatError::UnterminatedDirective));
        let (_, r) = paint(t, &dark());
        assert_eq!(r, Err(FormatError::UnterminatedDirective));
    }
}

#[test]
fn unterminated_keeps_earlier_output() {
    assert_eq!(
        paint("ab%", &rosewater()),
        ("ab".to_string(), Err(FormatError::UnterminatedDirective))
    );
}

#[test]
fn painting_twice_gives_the_same_output() {
    let t = "%n %b │ %x │ %r │ %h\\n";
    assert_eq!(paint(t, &rosewater()), paint(t, &rosewater()));
    let mut out = "prefix".to_string();
    let r = Format::new(t).paint(&rosewater(), &mut out);
    assert_eq!(r, Ok(()));
    assert_eq!(out, format!("prefix{}", paint(t, &rosewater()).0));
}

#[test]
fn name_and_hex_example() {
    assert_eq!(
        paint("%n|%x", &rosewater()),
        ("Rosewater     |\x1b[1m#f5e0dc\x1b[0m".to_string(), Ok(()))
    );
}

#[test]
fn unknown_color_directive() {
    assert_eq!(
        paint("%z", &rosewater()),
        (String::new(), Err(FormatError::UnknownColorDirective('z')))
    );
    assert_eq!(
        paint("ab%qcd", &dark()),
        ("ab".to_string(), Err(FormatError::UnknownColorDirective('q')))
    );
    assert_eq!(
        FormatError::UnknownColorDirective('z').message(),
        "unknown format specifier z. Must be one of '%nbrhx'"
    );
}

#[test]
fn unknown_escape_directive() {
    assert_eq!(
        paint("x\\q", &rosewater()),
        ("x".to_string(), Err(FormatError::UnknownEscapeDirective('q')))
    );
    assert_eq!(
        FormatError::UnknownEscapeDirective('q').message(),
        "unknown modifier q. Must be one of 'ntr\\'"
    );
    assert_eq!(
        FormatError::UnterminatedDirective.message(),
        "format string expected a directive character after % or \\"
    );
}

#[test]
fn escape_directives() {
    assert_eq!(paint("a\\nb\\tc\\rd\\\\e", &dark()), ("a\nb\tc\rd\\e".to_string(), Ok(())));
    assert_eq!(escape_char('n'), Ok('\n'));
    assert_eq!(escape_char('x'), Err(FormatError::UnknownEscapeDirective('x')));
}

#[test]
fn name_is_padded_not_truncated() {
    assert_eq!(paint("%n|", &dark()), ("Crust         |".to_string(), Ok(())));
    let mut long = dark();
    long.name = "A very long color name".to_string();
    assert_eq!(paint("%n|", &long), ("A very long color name|".to_string(), Ok(())));
    let mut wide = dark();
    wide.name = "Frappé".to_string();
    assert_eq!(paint("%n|", &wide), ("Frappé        |".to_string(), Ok(())));
}

#[test]
fn swatch_uses_the_rgb_foreground() {
    assert_eq!(
        paint("%b", &rosewater()),
        ("\x1b[38;2;245;224;220m██████████████\x1b[0m".to_string(), Ok(()))
    );
    assert_eq!(
        paint("%b", &dark()),
        ("\x1b[38;2;0;5;17m██████████████\x1b[0m".to_string(), Ok(()))
    );
}

#[test]
fn rgb_components_are_right_aligned() {
    assert_eq!(
        paint("%r", &rosewater()),
        ("\x1b[1mrgb(245, 224, 220)\x1b[0m".to_string(), Ok(()))
    );
    assert_eq!(paint("%r", &dark()), ("\x1b[1mrgb(  0,   5,  17)\x1b[0m".to_string(), Ok(())));
}

#[test]
fn hsl_values_are_rounded_and_padded() {
    assert_eq!(
        paint("%h", &rosewater()),
        ("\x1b[1mhsl( 10, 0.56%, 0.91%)\x1b[0m".to_string(), Ok(()))
    );
    assert_eq!(paint("%h", &dark()), ("\x1b[1mhsl(223,   1%, 0.5%)\x1b[0m".to_string(), Ok(())));
    let mut grey = dark();
    grey.hue = 0;
    grey.saturation = 0;
    grey.lightness = 7;
    assert_eq!(paint("%h", &grey), ("\x1b[1mhsl(  0,   0%, 0.07%)\x1b[0m".to_string(), Ok(())));
}

#[test]
fn color_directive_leaves_output_alone_on_error() {
    let mut out = "kept".to_string();
    let r = push_color_directive(&mut out, '?', &dark());
    assert_eq!(r, Err(FormatError::UnknownColorDirective('?')));
    assert_eq!(out, "kept");
    let r = push_color_directive(&mut out, 'x', &dark());
    assert_eq!(r, Ok(()));
    assert_eq!(out, "kept\x1b[1m#000511\x1b[0m");
}
