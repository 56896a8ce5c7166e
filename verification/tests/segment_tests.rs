//! Tests for segments, segment splitting and segment rendering.

use luxor::{Color, ColorSystem, ControlCode, Segment, Segments, Style};

#[test]
fn test_segment_new() {
    let style = Style::new().bold();
    let segment = Segment::new("Hello".to_string(), style.clone());

    assert_eq!(segment.text(), "Hello");
    assert_eq!(segment.style(), &style);
    assert_eq!(segment.get_control(), None);
    assert!(segment.is_text());
    assert!(!segment.is_control());
    assert!(!segment.is_empty());
}

#[test]
fn test_segment_control() {
    let segment = Segment::control(ControlCode::Clear);

    assert_eq!(segment.text(), "");
    assert_eq!(segment.get_control(), Some(ControlCode::Clear));
    assert!(!segment.is_text());
    assert!(segment.is_control());
}

#[test]
fn test_segment_cell_length() {
    let segment = Segment::new("Hello".to_string(), Style::new());
    assert_eq!(segment.cell_length(), 5);

    let control_segment = Segment::control(ControlCode::Clear);
    assert_eq!(control_segment.cell_length(), 0);
}

#[test]
fn test_segment_split_at_char() {
    let segment = Segment::new("Hello World".to_string(), Style::new().bold());
    let (left, right) = segment.split_at_char(5);

    assert_eq!(left.text(), "Hello");
    assert_eq!(right.text(), " World");
    assert_eq!(left.style().bold, Some(true));
    assert_eq!(right.style().bold, Some(true));
}

#[test]
fn test_segment_split_at_width() {
    let segment = Segment::new("Hello World".to_string(), Style::new());
    let (left, right) = segment.split_at_width(5);

    assert_eq!(left.text(), "Hello");
    assert_eq!(right.text(), " World");
    assert_eq!(left.cell_length(), 5);
}

#[test]
fn test_segment_apply_style() {
    let mut segment = Segment::new("Hello".to_string(), Style::new().bold());
    segment.apply_style(Style::new().color(Color::rgb(255, 0, 0)));

    assert_eq!(segment.style().bold, Some(true));
    assert_eq!(segment.style().color, Some(Color::rgb(255, 0, 0)));
}

#[test]
fn test_segment_render() {
    let segment = Segment::new(
        "Hello".to_string(),
        Style::new().bold().color(Color::rgb(255, 0, 0)),
    );
    let output = segment.render(ColorSystem::TrueColor);

    assert!(output.contains("Hello"));
    assert!(output.contains("\x1b["));
    assert!(output.contains("\x1b[0m"));
}

#[test]
fn test_control_code_to_ansi() {
    assert_eq!(ControlCode::Bell.to_ansi(), "\x07");
    assert_eq!(ControlCode::Clear.to_ansi(), "\x1b[2J");
    assert_eq!(ControlCode::CursorUp(3).to_ansi(), "\x1b[3A");
}

#[test]
fn test_segments_collection() {
    let mut segments = Segments::new();
    segments.push(Segment::new("Hello".to_string(), Style::new()));
    segments.push(Segment::new(" World".to_string(), Style::new().bold()));

    assert_eq!(segments.len(), 2);
    assert_eq!(segments.cell_length(), 11);
    assert_eq!(segments.plain_text(), "Hello World");
}

#[test]
fn test_segments_from_iter() {
    let vec = vec![
        Segment::new("Hello".to_string(), Style::new()),
        Segment::new(" World".to_string(), Style::new()),
    ];
    let segments: Segments = Segments::from_vec(vec);

    assert_eq!(segments.len(), 2);
    assert_eq!(segments.plain_text(), "Hello World");
}

#[test]
fn test_split_at_width_wide_chars() {
    // Each of these characters is two columns wide, so only two fit in five.
    let segment = Segment::new("你好吗".to_string(), Style::new());
    let (left, right) = segment.split_at_width(5);
    assert_eq!(left.text(), "你好");
    assert_eq!(right.text(), "吗");
    assert_eq!(left.cell_length(), 4);
    assert_eq!(segment_width("你好吗"), 6);
}

fn segment_width(text: &str) -> usize {
    Segment::new(text.to_string(), Style::new()).cell_length()
}

#[test]
fn test_split_at_width_nothing_fits() {
    let segment = Segment::new("你好".to_string(), Style::new().bold());
    let (left, right) = segment.split_at_width(1);
    assert_eq!(left.text(), "");
    assert_eq!(left.style().bold, Some(true));
    assert_eq!(right.text(), "你好");
}

#[test]
fn test_segment_render_plain_style() {
    // An empty style produces no escape codes at all.
    let segment = Segment::new("plain".to_string(), Style::new());
    assert_eq!(segment.render(ColorSystem::TrueColor), "plain");
}

#[test]
fn test_segments_checked_length() {
    let mut segments = Segments::new();
    segments.push(Segment::new("abcd".to_string(), Style::new()));
    segments.push(Segment::new("ef".to_string(), Style::new()));
    assert_eq!(segments.cell_length_checked(), Some(6));
}

#[test]
fn test_segment_with_control_render() {
    let segment = Segment::with_control("Hi".to_string(), Style::new(), ControlCode::CarriageReturn);
    let output = segment.render(ColorSystem::Standard);
    assert_eq!(output, "\rHi");
    assert_eq!(segment.cell_length(), 2);
}
