//! Tests for rich text, span styling and the flattening into segments.

use luxor::{Color, LuxorError, Style, Text};

#[test]
fn test_text_creation() {
    let text = Text::new("Hello world");
    assert_eq!(text.plain(), "Hello world");
    assert_eq!(text.len(), 11);
    assert_eq!(text.width(), 11);
    assert!(text.spans().is_empty());
}

#[test]
fn test_text_with_style() {
    let style = Style::new().bold();
    let text = Text::new("Hello").with_style(style.clone());
    assert_eq!(text.base_style(), &style);
}

#[test]
fn test_stylize_range() {
    let mut text = Text::new("Hello world");
    let style = Style::new().color(Color::rgb(255, 0, 0));

    text.stylize_range(0..5, style.clone()).unwrap();
    assert_eq!(text.spans().len(), 1);

    let span = &text.spans()[0];
    assert_eq!(span.start, 0);
    assert_eq!(span.end, 5);
    assert_eq!(span.style.color, Some(Color::rgb(255, 0, 0)));
}

#[test]
fn test_stylize_range_invalid() {
    let mut text = Text::new("Hello");
    let style = Style::new().bold();

    // End > length
    assert!(text.stylize_range(0..10, style.clone()).is_err());

    // Start > end
    assert!(text.stylize_range(5..2, style.clone()).is_err());
}

#[test]
fn test_stylize_all() {
    let mut text = Text::new("Hello world");
    let style = Style::new().italic();

    text.stylize_all(style.clone()).unwrap();
    assert_eq!(text.spans().len(), 1);

    let span = &text.spans()[0];
    assert_eq!(span.start, 0);
    assert_eq!(span.end, 11);
    assert_eq!(span.style.italic, Some(true));
}

#[test]
fn test_append() {
    let mut text = Text::new("Hello");
    text.append(" world");
    assert_eq!(text.plain(), "Hello world");
    assert_eq!(text.len(), 11);
}

#[test]
fn test_append_text() {
    let mut text1 = Text::new("Hello ");
    let mut text2 = Text::new("world");
    text2
        .stylize_all(Style::new().color(Color::rgb(255, 0, 0)))
        .unwrap();

    text1.append_text(text2);
    assert_eq!(text1.plain(), "Hello world");
    assert_eq!(text1.spans().len(), 1);

    let span = &text1.spans()[0];
    assert_eq!(span.start, 6); // "world" starts at position 6
    assert_eq!(span.end, 11);
    assert_eq!(span.style.color, Some(Color::rgb(255, 0, 0)));
}

#[test]
fn test_style_at() {
    let mut text = Text::new("Hello world");
    let base_style = Style::new().color(Color::rgb(0, 0, 255));
    text.set_style(base_style.clone());

    // Add a bold span for "Hello"
    text.stylize_range(0..5, Style::new().bold()).unwrap();

    // Check style at different positions
    let style_at_0 = text.style_at(0);
    assert_eq!(style_at_0.color, Some(Color::rgb(0, 0, 255)));
    assert_eq!(style_at_0.bold, Some(true));

    let style_at_7 = text.style_at(7); // In "world"
    assert_eq!(style_at_7.color, Some(Color::rgb(0, 0, 255)));
    assert_eq!(style_at_7.bold, None); // No bold in this part
}

#[test]
fn test_to_segments_no_spans() {
    let text = Text::new("Hello world");
    let segments = text.to_segments();

    assert_eq!(segments.len(), 1);
    assert_eq!(segments[0].text(), "Hello world");
}

#[test]
fn test_to_segments_with_spans() {
    let mut text = Text::new("Hello world");
    text.stylize_range(0..5, Style::new().bold()).unwrap();
    text.stylize_range(6..11, Style::new().color(Color::rgb(255, 0, 0)))
        .unwrap();

    let segments = text.to_segments();
    assert_eq!(segments.len(), 3); // "Hello", " ", "world"

    assert_eq!(segments[0].text(), "Hello");
    assert_eq!(segments[0].style().bold, Some(true));

    assert_eq!(segments[1].text(), " ");

    assert_eq!(segments[2].text(), "world");
    assert_eq!(segments[2].style().color, Some(Color::rgb(255, 0, 0)));
}

#[test]
fn test_overlapping_spans() {
    let mut text = Text::new("Hello world");
    text.stylize_range(0..8, Style::new().bold()).unwrap(); // "Hello wo"
    text.stylize_range(6..11, Style::new().color(Color::rgb(255, 0, 0)))
        .unwrap(); // "world"

    let segments = text.to_segments();

    // Should have segments for different style combinations
    assert!(segments.len() >= 3);

    // Find the overlapping segment (should be both bold and red)
    let overlapping_segment = segments.iter().find(|s| {
        s.style().bold == Some(true) && s.style().color == Some(Color::rgb(255, 0, 0))
    });
    assert!(overlapping_segment.is_some());
}

#[test]
fn test_from_markup() {
    let text = Text::from_markup("[bold]Hello[/bold] world").unwrap();
    assert_eq!(text.plain(), "Hello world");
    assert_eq!(text.spans().len(), 1);

    let span = &text.spans()[0];
    assert_eq!(span.start, 0);
    assert_eq!(span.end, 5);
    assert_eq!(span.style.bold, Some(true));
}

#[test]
fn test_display_trait() {
    let text = Text::new("Hello world");
    assert_eq!(text.plain(), "Hello world");
}

#[test]
fn test_from_str() {
    let text: Text = "Hello world".into();
    assert_eq!(text.plain(), "Hello world");
}

#[test]
fn test_from_string() {
    let text: Text = String::from("Hello world").into();
    assert_eq!(text.plain(), "Hello world");
}

#[test]
fn test_round_trip_flattening() {
    // Concatenating the segment texts reproduces the plain content exactly,
    // spans overlapping or not.
    let mut text = Text::new("The quick brown fox");
    text.stylize_range(0..9, Style::new().bold()).unwrap();
    text.stylize_range(4..15, Style::new().italic()).unwrap();
    text.stylize_range(4..9, Style::new().underline()).unwrap();
    let joined: String = text.to_segments().iter().map(|s| s.text().to_string()).collect();
    assert_eq!(joined, "The quick brown fox");

    let empty = Text::new("");
    let joined: String = empty.to_segments().iter().map(|s| s.text().to_string()).collect();
    assert_eq!(joined, "");

    let plain = Text::new("no spans here");
    let joined: String = plain.to_segments().iter().map(|s| s.text().to_string()).collect();
    assert_eq!(joined, "no spans here");
}

#[test]
fn test_range_validation() {
    // A five-character text rejects the range 0..10 and the reversed
    // range 5..2, both as invalid ranges, leaving the text unchanged.
    let mut text = Text::new("abcde");
    match text.stylize_range(0..10, Style::new().bold()) {
        Err(LuxorError::InvalidRange(_)) => (),
        _ => panic!("Expected an invalid range error"),
    }
    match text.stylize_range(5..2, Style::new().bold()) {
        Err(LuxorError::InvalidRange(_)) => (),
        _ => panic!("Expected an invalid range error"),
    }
    assert!(text.spans().is_empty());
}

#[test]
fn test_spans_sorted_stably() {
    let mut text = Text::new("abcdef");
    text.stylize_range(3..4, Style::new().bold()).unwrap();
    text.stylize_range(1..2, Style::new().italic()).unwrap();
    text.stylize_range(3..6, Style::new().dim()).unwrap();
    let spans = text.spans();
    assert_eq!(spans[0].start, 1);
    assert_eq!(spans[1].start, 3);
    assert_eq!(spans[1].style.bold, Some(true)); // Inserted first, stays first
    assert_eq!(spans[2].start, 3);
    assert_eq!(spans[2].style.dim, Some(true));
}

#[test]
fn test_unicode_lengths() {
    let text = Text::new("héllo");
    assert_eq!(text.len(), 5); // Characters, not bytes
    let mut text = Text::new("你好");
    assert_eq!(text.len(), 2);
    assert_eq!(text.width(), 4); // Wide characters take two columns each
    text.stylize_range(0..2, Style::new().bold()).unwrap();
    let segments = text.to_segments();
    assert_eq!(segments.len(), 1);
    assert_eq!(segments[0].text(), "你好");
}

#[test]
fn test_spans_mut_access() {
    let mut text = Text::new("Hello");
    text.stylize_range(0..5, Style::new().bold()).unwrap();
    text.spans_mut().clear();
    assert!(text.spans().is_empty());
}

#[test]
fn test_to_segments_empty_text() {
    let text = Text::new("").with_style(Style::new().bold());
    let segments = text.to_segments();
    assert_eq!(segments.len(), 1);
    assert_eq!(segments[0].text(), "");
    assert_eq!(segments[0].style().bold, Some(true));
}
