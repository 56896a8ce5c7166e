//! Tests for the style attribute bag, its composition and its parser.

use luxor::{Color, LuxorError, StandardColor, Style};
use luxor::style::parse_color_token;

#[test]
fn test_style_new() {
    let style = Style::new();
    assert!(style.is_empty());
}

#[test]
fn test_style_builder() {
    let style = Style::new()
        .color(Color::rgb(255, 0, 0))
        .background(Color::rgb(0, 255, 0))
        .bold()
        .italic();

    assert_eq!(style.color, Some(Color::rgb(255, 0, 0)));
    assert_eq!(style.background, Some(Color::rgb(0, 255, 0)));
    assert_eq!(style.bold, Some(true));
    assert_eq!(style.italic, Some(true));
    assert!(!style.is_empty());
}

#[test]
fn test_style_combine() {
    let base = Style::new().color(Color::rgb(255, 0, 0)).bold();

    let overlay = Style::new().color(Color::rgb(0, 255, 0)).italic();

    let combined = base.combine(overlay);

    assert_eq!(combined.color, Some(Color::rgb(0, 255, 0))); // From overlay
    assert_eq!(combined.bold, Some(true)); // From base
    assert_eq!(combined.italic, Some(true)); // From overlay
}

#[test]
fn test_style_parse_simple() {
    let style = Style::parse("bold").unwrap();
    assert_eq!(style.bold, Some(true));

    let style = Style::parse("red").unwrap();
    assert_eq!(style.color, Some(Color::Standard(StandardColor::Red)));
}

#[test]
fn test_style_parse_complex() {
    let style = Style::parse("bold italic red on blue").unwrap();
    assert_eq!(style.bold, Some(true));
    assert_eq!(style.italic, Some(true));
    assert_eq!(style.color, Some(Color::Standard(StandardColor::Red)));
    assert_eq!(style.background, Some(Color::Standard(StandardColor::Blue)));
}

#[test]
fn test_style_parse_hex() {
    let style = Style::parse("bold #FF0000 on #0000FF").unwrap();
    assert_eq!(style.bold, Some(true));
    assert_eq!(style.color, Some(Color::rgb(255, 0, 0)));
    assert_eq!(style.background, Some(Color::rgb(0, 0, 255)));
}

#[test]
fn test_style_parse_invalid() {
    assert!(Style::parse("invalid_color").is_err());
    assert!(Style::parse("bold on").is_err()); // Missing color after 'on'
}

#[test]
fn test_style_display() {
    let style = Style::new().bold().color(Color::rgb(255, 0, 0));
    let string_repr = style.display_string();
    assert!(string_repr.contains("bold"));
    assert!(string_repr.contains("color"));
}

#[test]
fn test_parse_color_token() {
    assert_eq!(
        parse_color_token("red").unwrap(),
        Color::Standard(StandardColor::Red)
    );
    assert_eq!(
        parse_color_token("bright_blue").unwrap(),
        Color::Standard(StandardColor::BrightBlue)
    );
    assert_eq!(parse_color_token("#FF0000").unwrap(), Color::rgb(255, 0, 0));
    assert!(parse_color_token("invalid").is_err());
}

#[test]
fn test_combine_associative() {
    let a = Style::new().color(Color::rgb(1, 2, 3)).bold().dim_off();
    let b = Style::new().color(Color::rgb(9, 9, 9)).italic().blink();
    let c = Style::new().background(Color::Default).bold_off().hidden();
    assert_eq!(a.combine(b).combine(c), a.combine(b.combine(c)));
}

#[test]
fn test_combine_identity() {
    let s = Style::new().color(Color::rgb(4, 5, 6)).underline().reverse_off();
    assert_eq!(s.combine(Style::new()), s);
    assert_eq!(Style::new().combine(s), s);
    let empty = Style::new();
    assert_eq!(empty.combine(Style::new()), empty);
}

#[test]
fn test_parse_case_and_aliases() {
    let style = Style::parse("BOLD Red").unwrap();
    assert_eq!(style.bold, Some(true));
    assert_eq!(style.color, Some(Color::Standard(StandardColor::Red)));

    let style = Style::parse("gray").unwrap();
    assert_eq!(style.color, Some(Color::Standard(StandardColor::BrightBlack)));
    let style = Style::parse("grey").unwrap();
    assert_eq!(style.color, Some(Color::Standard(StandardColor::BrightBlack)));
}

#[test]
fn test_parse_second_color_ignored() {
    // A second recognizable color does not overwrite the foreground.
    let style = Style::parse("red blue").unwrap();
    assert_eq!(style.color, Some(Color::Standard(StandardColor::Red)));
}

#[test]
fn test_parse_error_variants() {
    match Style::parse("what_is_this") {
        Err(LuxorError::Style { message }) => {
            assert!(message.contains("Unknown style token"));
        }
        _ => panic!("Expected a style error"),
    }
    match Style::parse("red on") {
        Err(LuxorError::Style { message }) => {
            assert!(message.contains("Expected color after 'on'"));
        }
        _ => panic!("Expected a style error"),
    }
    match Style::parse("on purplish") {
        Err(LuxorError::Color { .. }) => (),
        _ => panic!("Expected a color error"),
    }
}

#[test]
fn test_all_toggles() {
    let style = Style::new()
        .bold()
        .italic()
        .underline()
        .strikethrough()
        .dim()
        .reverse()
        .blink()
        .hidden();
    assert_eq!(style.bold, Some(true));
    assert_eq!(style.italic, Some(true));
    assert_eq!(style.underline, Some(true));
    assert_eq!(style.strikethrough, Some(true));
    assert_eq!(style.dim, Some(true));
    assert_eq!(style.reverse, Some(true));
    assert_eq!(style.blink, Some(true));
    assert_eq!(style.hidden, Some(true));

    let off = Style::new()
        .bold_off()
        .italic_off()
        .underline_off()
        .strikethrough_off()
        .dim_off()
        .reverse_off()
        .blink_off()
        .hidden_off();
    assert_eq!(off.bold, Some(false));
    assert_eq!(off.italic, Some(false));
    assert_eq!(off.underline, Some(false));
    assert_eq!(off.strikethrough, Some(false));
    assert_eq!(off.dim, Some(false));
    assert_eq!(off.reverse, Some(false));
    assert_eq!(off.blink, Some(false));
    assert_eq!(off.hidden, Some(false));
}
