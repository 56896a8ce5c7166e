//! Tests for the markup tokenizer, tags, spans and rendering.

use luxor::markup::{escape, parse_tag, parse_tokens, render, Span, Tag, Token};
use luxor::{Color, LuxorError, StandardColor, Style, Text};

#[test]
fn test_tag_creation() {
    let tag = Tag::new("bold");
    assert_eq!(tag.name, "bold");
    assert_eq!(tag.parameters, None);
    assert_eq!(tag.markup(), "[bold]");
    assert!(!tag.is_closing());
}

#[test]
fn test_tag_with_parameters() {
    let tag = Tag::with_parameters("color", "red");
    assert_eq!(tag.name, "color");
    assert_eq!(tag.parameters, Some("red".to_string()));
    assert_eq!(tag.markup(), "[color=red]");
}

#[test]
fn test_closing_tag() {
    let tag = Tag::new("/bold");
    assert!(tag.is_closing());
    assert_eq!(tag.closing_name(), "bold");
}

#[test]
fn test_parse_simple_tag() {
    let tag = parse_tag("bold").unwrap();
    assert_eq!(tag.name, "bold");
    assert_eq!(tag.parameters, None);
}

#[test]
fn test_parse_tag_with_parameters() {
    let tag = parse_tag("color=red").unwrap();
    assert_eq!(tag.name, "color");
    assert_eq!(tag.parameters, Some("red".to_string()));
}

#[test]
fn test_parse_tokens_plain_text() {
    let tokens = parse_tokens("Hello world").unwrap();
    assert_eq!(tokens.len(), 1);
    match &tokens[0] {
        Token::Text(text) => assert_eq!(text, "Hello world"),
        _ => panic!("Expected text token"),
    }
}

#[test]
fn test_parse_tokens_with_tag() {
    let tokens = parse_tokens("Hello [bold]world[/bold]").unwrap();
    assert_eq!(tokens.len(), 4);

    match &tokens[0] {
        Token::Text(text) => assert_eq!(text, "Hello "),
        _ => panic!("Expected text token"),
    }

    match &tokens[1] {
        Token::Tag(tag) => {
            assert_eq!(tag.name, "bold");
            assert!(!tag.is_closing());
        }
        _ => panic!("Expected tag token"),
    }

    match &tokens[2] {
        Token::Text(text) => assert_eq!(text, "world"),
        _ => panic!("Expected text token"),
    }

    match &tokens[3] {
        Token::Tag(tag) => {
            assert_eq!(tag.name, "/bold");
            assert!(tag.is_closing());
        }
        _ => panic!("Expected tag token"),
    }
}

#[test]
fn test_render_plain_text() {
    let text = render("Hello world", None).unwrap();
    assert_eq!(text.plain(), "Hello world");
    assert_eq!(text.spans().len(), 0);
}

#[test]
fn test_render_bold_text() {
    let text = render("[bold]Hello world[/bold]", None).unwrap();
    assert_eq!(text.plain(), "Hello world");
    assert_eq!(text.spans().len(), 1);

    let span = &text.spans()[0];
    assert_eq!(span.start, 0);
    assert_eq!(span.end, 11);
    assert_eq!(span.style.bold, Some(true));
}

#[test]
fn test_render_colored_text() {
    let text = render("[red]Hello world[/red]", None).unwrap();
    assert_eq!(text.plain(), "Hello world");
    assert_eq!(text.spans().len(), 1);

    let span = &text.spans()[0];
    assert_eq!(span.start, 0);
    assert_eq!(span.end, 11);
    assert_eq!(
        span.style.color,
        Some(Color::Standard(StandardColor::Red))
    );
}

#[test]
fn test_render_nested_tags() {
    let text = render("[bold]Hello [red]world[/red][/bold]", None).unwrap();
    assert_eq!(text.plain(), "Hello world");
    assert_eq!(text.spans().len(), 2);

    // The bold span should cover the entire text
    let bold_span = text
        .spans()
        .iter()
        .find(|s| s.style.bold == Some(true))
        .unwrap();
    assert_eq!(bold_span.start, 0);
    assert_eq!(bold_span.end, 11);

    // The red span should only cover "world"
    let red_span = text
        .spans()
        .iter()
        .find(|s| s.style.color == Some(Color::Standard(StandardColor::Red)))
        .unwrap();
    assert_eq!(red_span.start, 6);
    assert_eq!(red_span.end, 11);
}

#[test]
fn test_render_implicit_close() {
    let text = render("[bold]Hello world[/]", None).unwrap();
    assert_eq!(text.plain(), "Hello world");
    assert_eq!(text.spans().len(), 1);

    let span = &text.spans()[0];
    assert_eq!(span.start, 0);
    assert_eq!(span.end, 11);
    assert_eq!(span.style.bold, Some(true));
}

#[test]
fn test_escape_markup() {
    assert_eq!(escape("Hello [world]"), "Hello \\[world\\]");
    assert_eq!(escape("No markup here"), "No markup here");
}

#[test]
fn test_span_operations() {
    let style = Style::new().bold();
    let span = Span::new(0, 10, style.clone());

    assert!(!span.is_empty());
    assert_eq!(span.len(), 10);

    let (left, right) = span.split(5);
    assert_eq!(left.start, 0);
    assert_eq!(left.end, 5);
    assert!(right.is_some());

    let right = right.unwrap();
    assert_eq!(right.start, 5);
    assert_eq!(right.end, 10);

    let moved = span.move_by(3);
    assert_eq!(moved.start, 3);
    assert_eq!(moved.end, 13);
}

#[test]
fn test_markup_nesting_exact() {
    let text = Text::from_markup("[bold]Hello [red]world[/red][/bold]").unwrap();
    assert_eq!(text.plain(), "Hello world");
    assert_eq!(text.spans().len(), 2);
    let bold = text.spans().iter().find(|s| s.style.bold == Some(true)).unwrap();
    assert_eq!((bold.start, bold.end), (0, 11));
    let red = text
        .spans()
        .iter()
        .find(|s| s.style.color == Some(Color::Standard(StandardColor::Red)))
        .unwrap();
    assert_eq!((red.start, red.end), (6, 11));
}

#[test]
fn test_implicit_close_exact() {
    let text = Text::from_markup("[bold]Hello world[/]").unwrap();
    assert_eq!(text.plain(), "Hello world");
    assert_eq!(text.spans().len(), 1);
    let span = &text.spans()[0];
    assert_eq!((span.start, span.end), (0, 11));
    assert_eq!(span.style.bold, Some(true));
}

#[test]
fn test_unmatched_closing_tag() {
    match render("Hello [/bold]world", None) {
        Err(LuxorError::MarkupError(message)) => {
            assert!(message.contains("/bold"));
            assert!(message.contains("no matching opening tag"));
        }
        _ => panic!("Expected a markup error"),
    }
}

#[test]
fn test_collateral_close() {
    // Closing an outer tag by name also closes every tag opened after it.
    let text = render("[bold][red]both[/bold] after", None).unwrap();
    assert_eq!(text.plain(), "both after");
    assert_eq!(text.spans().len(), 2);
    for span in text.spans() {
        assert_eq!((span.start, span.end), (0, 4));
    }
}

#[test]
fn test_escaped_bracket() {
    let text = render("a[[b", None).unwrap();
    assert_eq!(text.plain(), "a[b");
    assert!(text.spans().is_empty());
}

#[test]
fn test_unterminated_bracket_is_literal() {
    let text = render("ab[cd", None).unwrap();
    assert_eq!(text.plain(), "ab[cd");
    assert!(text.spans().is_empty());
}

#[test]
fn test_auto_close_at_end() {
    let text = render("[bold]open ended", None).unwrap();
    assert_eq!(text.plain(), "open ended");
    assert_eq!(text.spans().len(), 1);
    let span = &text.spans()[0];
    assert_eq!((span.start, span.end), (0, 10));
    assert_eq!(span.style.bold, Some(true));
}

#[test]
fn test_bad_style_in_tag() {
    match render("[bogus_attribute]x[/]", None) {
        Err(LuxorError::Style { .. }) => (),
        _ => panic!("Expected a style error"),
    }
}

#[test]
fn test_render_with_base_style() {
    let base = Style::new().color(Color::rgb(0, 0, 255));
    let text = render("[bold]Hi[/bold]", Some(base.clone())).unwrap();
    assert_eq!(text.base_style(), &base);
    assert_eq!(text.plain(), "Hi");
}

#[test]
fn test_empty_tag_pair_vanishes() {
    let text = render("a[]b", None).unwrap();
    assert_eq!(text.plain(), "ab");
    assert!(text.spans().is_empty());
}

#[test]
fn test_span_move_saturates() {
    let span = Span::new(2, 5, Style::new());
    let moved = span.move_by(-3);
    assert_eq!((moved.start, moved.end), (0, 2));
}

#[test]
fn test_span_split_outside() {
    let span = Span::new(2, 5, Style::new());
    let (left, right) = span.split(1);
    assert_eq!((left.start, left.end), (2, 5));
    assert!(right.is_none());
    let (left, right) = span.split(7);
    assert_eq!((left.start, left.end), (2, 5));
    assert!(right.is_none());
}
