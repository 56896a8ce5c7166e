//! Tests that drive several components together, as a consumer of the
//! library would.

use luxor::ansi::{strip_ansi, text_width};
use luxor::{Color, ColorSystem, LuxorError, Segment, Style, Text};

/// Test basic text rendering through the full pipeline.
#[test]
fn test_end_to_end_text_rendering() {
    let text =
        Text::new("Hello, World!").with_style(Style::new().bold().color(Color::rgb(255, 0, 0)));

    let segments = text.to_segments();

    assert_eq!(segments.len(), 1);
    assert_eq!(segments[0].text(), "Hello, World!");
    assert_eq!(segments[0].style().bold, Some(true));
    assert_eq!(segments[0].style().color, Some(Color::rgb(255, 0, 0)));
}

/// Test color downgrading through different color systems.
#[test]
fn test_color_system_compatibility() {
    let true_color = Color::rgb(128, 64, 192);

    for color_system in [
        ColorSystem::Standard,
        ColorSystem::EightBit,
        ColorSystem::TrueColor,
    ] {
        let text = Text::new("Test").with_style(Style::new().color(true_color));

        let segments = text.to_segments();
        assert_eq!(segments.len(), 1);
        assert!(segments[0].style().color.is_some());

        // The color should still be the original color in the segment
        // (downgrading happens during ANSI generation, not in the segment itself)
        assert_eq!(segments[0].style().color.unwrap(), true_color);

        // Test that the downgrading logic itself works correctly
        let downgraded = true_color.downgrade(color_system);
        match color_system {
            ColorSystem::Standard => {
                assert!(matches!(downgraded, Color::Standard(_)));
            }
            ColorSystem::EightBit => {
                assert!(matches!(
                    downgraded,
                    Color::Standard(_) | Color::EightBit(_) | Color::TrueColor { .. }
                ));
            }
            ColorSystem::TrueColor => {
                assert_eq!(downgraded, true_color);
            }
        }
    }
}

/// Test complex style composition and inheritance.
#[test]
fn test_complex_style_composition() {
    let base_style = Style::new()
        .bold()
        .color(Color::rgb(255, 0, 0))
        .background(Color::rgb(0, 0, 255));

    let overlay_style = Style::new()
        .italic()
        .color(Color::rgb(0, 255, 0)) // Should override base color
        .underline();

    let combined_style = base_style.combine(overlay_style);

    let text = Text::new("Styled Text").with_style(combined_style);
    let segments = text.to_segments();

    assert_eq!(segments.len(), 1);
    let style = segments[0].style();

    assert_eq!(style.bold, Some(true)); // From base
    assert_eq!(style.italic, Some(true)); // From overlay
    assert_eq!(style.underline, Some(true)); // From overlay
    assert_eq!(style.color, Some(Color::rgb(0, 255, 0))); // Overlay overrides base
    assert_eq!(style.background, Some(Color::rgb(0, 0, 255))); // From base
}

/// Test segment splitting with complex Unicode and styles.
#[test]
fn test_segment_splitting_edge_cases() {
    // Test splitting at grapheme boundaries
    let style = Style::new().bold();
    let segment = Segment::new("👨‍👩‍👧‍👦 Family".to_string(), style.clone());

    // Split at width that should respect grapheme boundaries
    let (left, right) = segment.split_at_width(8);

    // The family emoji should not be split
    assert!(left.text().len() < "👨‍👩‍👧‍👦".len() || left.text() == "👨‍👩‍👧‍👦");
    assert_eq!(left.style(), &style);
    assert_eq!(right.style(), &style);
}

/// Test error handling throughout the system.
#[test]
fn integration_tests_test_error_handling() {
    // Test invalid color parsing
    assert!(Color::from_hex("invalid").is_err());
    assert!(Color::from_hex("#GG0000").is_err());
    assert!(Color::from_hex("#FF").is_err()); // Wrong length

    // Test invalid style parsing
    assert!(Style::parse("bold on").is_err()); // Missing color after 'on'
    assert!(Style::parse("unknown_attribute").is_err());
}

/// Test performance characteristics are reasonable.
#[test]
fn integration_tests_test_performance_characteristics() {
    // Test that large text can be processed efficiently
    let large_text = "Lorem ipsum ".repeat(1000);
    let text = Text::new(&large_text);

    let start = std::time::Instant::now();
    let _segments = text.to_segments();
    let duration = start.elapsed();

    // Should complete in well under a second for 12,000 characters
    assert!(
        duration.as_millis() < 100,
        "Flattening took too long: {:?}",
        duration
    );

    let start = std::time::Instant::now();
    let _width = text.width();
    let duration = start.elapsed();

    assert!(
        duration.as_millis() < 50,
        "Measurement took too long: {:?}",
        duration
    );
}

/// Test that the library handles edge cases gracefully.
#[test]
fn integration_tests_test_edge_cases() {
    // Test empty text
    let empty_text = Text::new("");
    let segments = empty_text.to_segments();
    assert_eq!(segments.len(), 1);
    assert_eq!(segments[0].text(), "");

    // Test very long lines
    let long_line = "a".repeat(10000);
    let long_text = Text::new(&long_line);
    let segments = long_text.to_segments();
    assert_eq!(segments.len(), 1);
    assert_eq!(segments[0].text().len(), 10000);

    // Test all possible style combinations
    let all_styles = Style::new()
        .bold()
        .italic()
        .underline()
        .strikethrough()
        .dim()
        .reverse()
        .blink()
        .hidden()
        .color(Color::rgb(255, 128, 64))
        .background(Color::rgb(64, 128, 255));

    let styled_text = Text::new("All styles").with_style(all_styles);
    let segments = styled_text.to_segments();
    assert_eq!(segments.len(), 1);

    // Verify all style attributes are preserved
    let style = segments[0].style();
    assert_eq!(style.bold, Some(true));
    assert_eq!(style.italic, Some(true));
    assert_eq!(style.underline, Some(true));
    assert_eq!(style.strikethrough, Some(true));
    assert_eq!(style.dim, Some(true));
    assert_eq!(style.reverse, Some(true));
    assert_eq!(style.blink, Some(true));
    assert_eq!(style.hidden, Some(true));
}

/// The whole pipeline from markup to rendered bytes.
#[test]
fn test_markup_to_rendered_string() {
    let text = Text::from_markup("[bold]Hi[/bold] there").unwrap();
    let segments = text.to_segments();
    let rendered: String = segments
        .iter()
        .map(|s| s.render(ColorSystem::Standard))
        .collect();
    assert_eq!(rendered, "\x1b[1mHi\x1b[0m there");
    // Stripping the rendered string recovers the plain text.
    assert_eq!(strip_ansi(&rendered), "Hi there");
}

/// Stylizing never bends the round trip, even with overlapping markup.
#[test]
fn test_markup_round_trip() {
    let text = Text::from_markup("[bold]a[red]b[/red]c[/bold]d").unwrap();
    let joined: String = text
        .to_segments()
        .iter()
        .map(|s| s.text().to_string())
        .collect();
    assert_eq!(joined, text.plain());
}

/// Errors carry their variants end to end.
#[test]
fn test_error_variants() {
    assert!(matches!(
        Text::from_markup("x[/gone]"),
        Err(LuxorError::MarkupError(_))
    ));
    let mut text = Text::new("ab");
    assert!(matches!(
        text.stylize_range(1..9, Style::new()),
        Err(LuxorError::InvalidRange(_))
    ));
}

/// Test ANSI escape sequence generation and stripping.
#[test]
fn test_ansi_processing() {
    // Test complex ANSI sequences
    let complex_ansi = "\x1b[1;31;42mBold Red on Green\x1b[0m Normal \x1b[3mItalic\x1b[23m";
    let stripped = strip_ansi(complex_ansi);
    assert_eq!(stripped, "Bold Red on Green Normal Italic");

    // Test width calculation ignoring ANSI
    let width = text_width(complex_ansi);
    assert_eq!(width, "Bold Red on Green Normal Italic".len());

    // Test with nested escapes (shouldn't occur in practice but should be handled)
    let nested = "\x1b[1m\x1b[31mNested\x1b[0m\x1b[0m";
    assert_eq!(strip_ansi(nested), "Nested");
}

/// Test text measurement with various Unicode characters.
#[test]
fn test_unicode_text_measurement() {
    let test_cases = [
        ("ASCII", "Hello", 5),
        ("Emoji", "👋🌍", 4),            // Each emoji is 2 width units
        ("Chinese", "你好", 4),          // Each Chinese character is 2 width units
        ("Mixed", "Hi 👋", 5),           // 2 + 1 + 2 = 5
        ("Zero Width", "a\u{200B}b", 2), // Zero-width space should not count
    ];

    for (name, text, expected_width) in test_cases {
        let text_obj = Text::new(text);
        assert_eq!(
            text_obj.width(),
            expected_width,
            "Failed for {}: expected {}, got {}",
            name,
            expected_width,
            text_obj.width()
        );
    }
}
