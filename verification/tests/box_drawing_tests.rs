//! Tests for box drawing: border styles, configurations and rendering.

use luxor::box_drawing::{
    draw_box, horizontal_line, vertical_line, BorderSides, BorderStyle, BoxChars, BoxConfig,
    BoxSegment, BoxSegmentType,
};
use luxor::{Color, Style};
use std::mem;
use std::time::{Duration, Instant};

#[test]
fn box_drawing_test_box_chars() {
    let single = BoxChars::single();
    assert_eq!(single.top_left, '┌');
    assert_eq!(single.horizontal, '─');
    assert_eq!(single.vertical, '│');

    let double = BoxChars::double();
    assert_eq!(double.top_left, '╔');
    assert_eq!(double.horizontal, '═');
    assert_eq!(double.vertical, '║');
}

#[test]
fn box_drawing_test_border_style() {
    assert!(BorderStyle::Single.is_visible());
    assert!(!BorderStyle::Hidden.is_visible());
    assert_eq!(BorderStyle::Single.thickness(), 1);
    assert_eq!(BorderStyle::Hidden.thickness(), 0);
}

#[test]
fn box_drawing_test_border_sides() {
    let all = BorderSides::all();
    assert!(all.has_border());
    assert_eq!(all.horizontal_width(BorderStyle::Single), 2);
    assert_eq!(all.vertical_height(BorderStyle::Single), 2);

    let none = BorderSides::none();
    assert!(!none.has_border());
    assert_eq!(none.horizontal_width(BorderStyle::Single), 0);
    assert_eq!(none.vertical_height(BorderStyle::Single), 0);

    let horizontal = BorderSides::horizontal();
    assert!(horizontal.has_border());
    assert_eq!(horizontal.horizontal_width(BorderStyle::Single), 0);
    assert_eq!(horizontal.vertical_height(BorderStyle::Single), 2);
}

#[test]
fn box_drawing_test_box_config() {
    let config = BoxConfig::new(BorderStyle::Single)
        .with_sides(BorderSides::all())
        .with_border_style(Style::new().color(Color::rgb(255, 0, 0)));

    assert!(config.is_visible());
    assert_eq!(config.total_width(), 2);
    assert_eq!(config.total_height(), 2);
}

#[test]
fn test_draw_simple_box() {
    let config = BoxConfig::new(BorderStyle::Single);
    let segments = draw_box(5, 3, &config).unwrap();

    // Should have: top border, 3 left borders, 3 right borders, bottom border = 8 segments
    assert_eq!(segments.len(), 8);

    // Check top border
    let top = segments.iter().find(|s| s.y == 0).unwrap();
    assert_eq!(top.content, "┌─────┐");
    assert_eq!(top.x, 0);

    // Check bottom border
    let bottom = segments.iter().find(|s| s.y == 4).unwrap();
    assert_eq!(bottom.content, "└─────┘");
    assert_eq!(bottom.x, 0);

    // Check side borders
    let left_borders: Vec<_> = segments
        .iter()
        .filter(|s| s.segment_type == BoxSegmentType::LeftBorder)
        .collect();
    assert_eq!(left_borders.len(), 3);

    let right_borders: Vec<_> = segments
        .iter()
        .filter(|s| s.segment_type == BoxSegmentType::RightBorder)
        .collect();
    assert_eq!(right_borders.len(), 3);
}

#[test]
fn box_drawing_test_draw_box_partial_sides() {
    let config = BoxConfig::new(BorderStyle::Single).with_sides(BorderSides::horizontal());
    let segments = draw_box(5, 3, &config).unwrap();

    // Should have only top and bottom borders
    assert_eq!(segments.len(), 2);

    let top = segments.iter().find(|s| s.y == 0).unwrap();
    assert_eq!(top.content, "─────");

    let bottom = segments.iter().find(|s| s.y == 4).unwrap();
    assert_eq!(bottom.content, "─────");
}

#[test]
fn box_drawing_test_horizontal_line() {
    let line = horizontal_line(
        10,
        BorderStyle::Double,
        Style::new().color(Color::rgb(0, 0, 255)),
    )
    .unwrap();

    assert_eq!(line.content, "══════════");
    assert_eq!(line.content.chars().count(), 10);
    assert_eq!(line.x, 0);
    assert_eq!(line.y, 0);
}

#[test]
fn box_drawing_test_vertical_line() {
    let lines = vertical_line(5, BorderStyle::Thick, Style::new()).unwrap();

    assert_eq!(lines.len(), 5);
    for (i, line) in lines.iter().enumerate() {
        assert_eq!(line.content, "┃");
        assert_eq!(line.x, 0);
        assert_eq!(line.y, i);
    }
}

#[test]
fn test_no_border() {
    let config = BoxConfig::new(BorderStyle::Hidden);
    let segments = draw_box(5, 3, &config).unwrap();
    assert!(segments.is_empty());
}

#[test]
fn test_too_small_box() {
    let config = BoxConfig::new(BorderStyle::Single);
    let segments = draw_box(0, 0, &config).unwrap();
    assert!(!segments.is_empty()); // Should still draw minimal borders
}

#[test]
fn test_ascii_fallback() {
    let config = BoxConfig::new(BorderStyle::Ascii);
    let segments = draw_box(3, 2, &config).unwrap();

    let top = segments.iter().find(|s| s.y == 0).unwrap();
    assert_eq!(top.content, "+---+");

    let bottom = segments.iter().find(|s| s.y == 3).unwrap();
    assert_eq!(bottom.content, "+---+");
}

#[test]
fn box_drawing_tests_test_box_chars() {
    let single = BoxChars::single();
    assert_eq!(single.top_left, '┌');
    assert_eq!(single.top_right, '┐');
    assert_eq!(single.bottom_left, '└');
    assert_eq!(single.bottom_right, '┘');
    assert_eq!(single.horizontal, '─');
    assert_eq!(single.vertical, '│');
    assert_eq!(single.top_tee, '┬');
    assert_eq!(single.bottom_tee, '┴');
    assert_eq!(single.left_tee, '├');
    assert_eq!(single.right_tee, '┤');
    assert_eq!(single.cross, '┼');

    let double = BoxChars::double();
    assert_eq!(double.top_left, '╔');
    assert_eq!(double.top_right, '╗');
    assert_eq!(double.bottom_left, '╚');
    assert_eq!(double.bottom_right, '╝');
    assert_eq!(double.horizontal, '═');
    assert_eq!(double.vertical, '║');

    let rounded = BoxChars::rounded();
    assert_eq!(rounded.top_left, '╭');
    assert_eq!(rounded.top_right, '╮');
    assert_eq!(rounded.bottom_left, '╰');
    assert_eq!(rounded.bottom_right, '╯');
    assert_eq!(rounded.horizontal, '─'); // Uses single line
    assert_eq!(rounded.vertical, '│');

    let thick = BoxChars::thick();
    assert_eq!(thick.top_left, '┏');
    assert_eq!(thick.top_right, '┓');
    assert_eq!(thick.bottom_left, '┗');
    assert_eq!(thick.bottom_right, '┛');
    assert_eq!(thick.horizontal, '━');
    assert_eq!(thick.vertical, '┃');

    let ascii = BoxChars::ascii();
    assert_eq!(ascii.top_left, '+');
    assert_eq!(ascii.top_right, '+');
    assert_eq!(ascii.bottom_left, '+');
    assert_eq!(ascii.bottom_right, '+');
    assert_eq!(ascii.horizontal, '-');
    assert_eq!(ascii.vertical, '|');
}

#[test]
fn box_drawing_tests_test_border_style() {
    assert!(BorderStyle::Single.is_visible());
    assert!(BorderStyle::Double.is_visible());
    assert!(BorderStyle::Rounded.is_visible());
    assert!(BorderStyle::Thick.is_visible());
    assert!(BorderStyle::Ascii.is_visible());
    assert!(!BorderStyle::Hidden.is_visible());

    assert_eq!(BorderStyle::Single.thickness(), 1);
    assert_eq!(BorderStyle::Double.thickness(), 1);
    assert_eq!(BorderStyle::Rounded.thickness(), 1);
    assert_eq!(BorderStyle::Thick.thickness(), 1);
    assert_eq!(BorderStyle::Ascii.thickness(), 1);
    assert_eq!(BorderStyle::Hidden.thickness(), 0);

    assert!(BorderStyle::Single.chars().is_some());
    assert!(BorderStyle::Double.chars().is_some());
    assert!(BorderStyle::Rounded.chars().is_some());
    assert!(BorderStyle::Thick.chars().is_some());
    assert!(BorderStyle::Ascii.chars().is_some());
    assert!(BorderStyle::Hidden.chars().is_none());
}

#[test]
fn box_drawing_tests_test_border_sides() {
    let all = BorderSides::all();
    assert!(all.top);
    assert!(all.right);
    assert!(all.bottom);
    assert!(all.left);
    assert!(all.has_border());
    assert_eq!(all.horizontal_width(BorderStyle::Single), 2);
    assert_eq!(all.vertical_height(BorderStyle::Single), 2);

    let none = BorderSides::none();
    assert!(!none.top);
    assert!(!none.right);
    assert!(!none.bottom);
    assert!(!none.left);
    assert!(!none.has_border());
    assert_eq!(none.horizontal_width(BorderStyle::Single), 0);
    assert_eq!(none.vertical_height(BorderStyle::Single), 0);

    let horizontal = BorderSides::horizontal();
    assert!(horizontal.top);
    assert!(!horizontal.right);
    assert!(horizontal.bottom);
    assert!(!horizontal.left);
    assert!(horizontal.has_border());
    assert_eq!(horizontal.horizontal_width(BorderStyle::Single), 0);
    assert_eq!(horizontal.vertical_height(BorderStyle::Single), 2);

    let vertical = BorderSides::vertical();
    assert!(!vertical.top);
    assert!(vertical.right);
    assert!(!vertical.bottom);
    assert!(vertical.left);
    assert!(vertical.has_border());
    assert_eq!(vertical.horizontal_width(BorderStyle::Single), 2);
    assert_eq!(vertical.vertical_height(BorderStyle::Single), 0);

    let custom = BorderSides::new(true, false, true, false);
    assert!(custom.top);
    assert!(!custom.right);
    assert!(custom.bottom);
    assert!(!custom.left);
    assert!(custom.has_border());
}

#[test]
fn box_drawing_tests_test_box_config() {
    let config = BoxConfig::new(BorderStyle::Single);
    assert_eq!(config.style, BorderStyle::Single);
    assert_eq!(config.sides, BorderSides::all());
    assert!(config.is_visible());
    assert_eq!(config.total_width(), 2);
    assert_eq!(config.total_height(), 2);

    let config = BoxConfig::new(BorderStyle::Double)
        .with_sides(BorderSides::horizontal())
        .with_border_style(Style::new().bold());

    assert_eq!(config.style, BorderStyle::Double);
    assert_eq!(config.sides, BorderSides::horizontal());
    assert_eq!(config.border_style.bold, Some(true));
    assert!(config.is_visible());
    assert_eq!(config.total_width(), 0); // No left/right borders
    assert_eq!(config.total_height(), 2); // Top/bottom borders

    let config = BoxConfig::new(BorderStyle::Hidden);
    assert!(!config.is_visible());
    assert_eq!(config.total_width(), 0);
    assert_eq!(config.total_height(), 0);

    let config = BoxConfig::new(BorderStyle::Single).with_sides(BorderSides::none());
    assert!(!config.is_visible());
}

#[test]
fn test_draw_box_basic() {
    let config = BoxConfig::new(BorderStyle::Single);
    let segments = draw_box(5, 3, &config).unwrap();

    assert_eq!(segments.len(), 8);

    let top = segments.iter().find(|s| s.y == 0).unwrap();
    assert_eq!(top.content, "┌─────┐"); // 1 corner + 5 chars + 1 corner
    assert_eq!(top.x, 0);
    assert_eq!(top.segment_type, BoxSegmentType::TopBorder);

    let bottom = segments.iter().find(|s| s.y == 4).unwrap();
    assert_eq!(bottom.content, "└─────┘");
    assert_eq!(bottom.x, 0);
    assert_eq!(bottom.segment_type, BoxSegmentType::BottomBorder);

    let left_borders: Vec<_> = segments
        .iter()
        .filter(|s| s.segment_type == BoxSegmentType::LeftBorder)
        .collect();
    assert_eq!(left_borders.len(), 3);

    for (i, border) in left_borders.iter().enumerate() {
        assert_eq!(border.content, "│");
        assert_eq!(border.x, 0);
        assert_eq!(border.y, i + 1);
    }

    let right_borders: Vec<_> = segments
        .iter()
        .filter(|s| s.segment_type == BoxSegmentType::RightBorder)
        .collect();
    assert_eq!(right_borders.len(), 3);

    for (i, border) in right_borders.iter().enumerate() {
        assert_eq!(border.content, "│");
        assert_eq!(border.x, 6); // 5 + 1
        assert_eq!(border.y, i + 1);
    }
}

#[test]
fn test_draw_box_different_styles() {
    let config = BoxConfig::new(BorderStyle::Double);
    let segments = draw_box(3, 2, &config).unwrap();

    let top = segments.iter().find(|s| s.y == 0).unwrap();
    assert_eq!(top.content, "╔═══╗");

    let bottom = segments.iter().find(|s| s.y == 3).unwrap();
    assert_eq!(bottom.content, "╚═══╝");

    let config = BoxConfig::new(BorderStyle::Rounded);
    let segments = draw_box(3, 2, &config).unwrap();

    let top = segments.iter().find(|s| s.y == 0).unwrap();
    assert_eq!(top.content, "╭───╮");

    let bottom = segments.iter().find(|s| s.y == 3).unwrap();
    assert_eq!(bottom.content, "╰───╯");

    let config = BoxConfig::new(BorderStyle::Thick);
    let segments = draw_box(3, 2, &config).unwrap();

    let top = segments.iter().find(|s| s.y == 0).unwrap();
    assert_eq!(top.content, "┏━━━┓");

    let config = BoxConfig::new(BorderStyle::Ascii);
    let segments = draw_box(3, 2, &config).unwrap();

    let top = segments.iter().find(|s| s.y == 0).unwrap();
    assert_eq!(top.content, "+---+");

    let bottom = segments.iter().find(|s| s.y == 3).unwrap();
    assert_eq!(bottom.content, "+---+");
}

#[test]
fn box_drawing_tests_test_draw_box_partial_sides() {
    let config = BoxConfig::new(BorderStyle::Single).with_sides(BorderSides::horizontal());
    let segments = draw_box(5, 3, &config).unwrap();

    assert_eq!(segments.len(), 2);

    let top = segments.iter().find(|s| s.y == 0).unwrap();
    assert_eq!(top.content, "─────");
    assert_eq!(top.segment_type, BoxSegmentType::TopBorder);

    let bottom = segments.iter().find(|s| s.y == 4).unwrap(); // height + 1
    assert_eq!(bottom.content, "─────");
    assert_eq!(bottom.segment_type, BoxSegmentType::BottomBorder);

    let config = BoxConfig::new(BorderStyle::Single).with_sides(BorderSides::vertical());
    let segments = draw_box(5, 3, &config).unwrap();

    assert_eq!(segments.len(), 6); // 3 left + 3 right

    let left_borders: Vec<_> = segments
        .iter()
        .filter(|s| s.segment_type == BoxSegmentType::LeftBorder)
        .collect();
    assert_eq!(left_borders.len(), 3);

    let right_borders: Vec<_> = segments
        .iter()
        .filter(|s| s.segment_type == BoxSegmentType::RightBorder)
        .collect();
    assert_eq!(right_borders.len(), 3);

    let config = BoxConfig::new(BorderStyle::Single).with_sides(BorderSides::none());
    let segments = draw_box(5, 3, &config).unwrap();
    assert!(segments.is_empty());
}

#[test]
fn box_drawing_tests_test_horizontal_line() {
    let line = horizontal_line(10, BorderStyle::Single, Style::new()).unwrap();
    assert_eq!(line.content, "──────────");
    assert_eq!(line.content.chars().count(), 10);
    assert_eq!(line.x, 0);
    assert_eq!(line.y, 0);
    assert_eq!(line.segment_type, BoxSegmentType::TopBorder);

    let line = horizontal_line(5, BorderStyle::Double, Style::new()).unwrap();
    assert_eq!(line.content, "═════");

    let line = horizontal_line(3, BorderStyle::Thick, Style::new()).unwrap();
    assert_eq!(line.content, "━━━");

    let line = horizontal_line(4, BorderStyle::Ascii, Style::new()).unwrap();
    assert_eq!(line.content, "----");

    let line = horizontal_line(3, BorderStyle::Single, Style::new().bold()).unwrap();
    assert_eq!(line.content, "───");
    assert_eq!(line.style.bold, Some(true));
}

#[test]
fn box_drawing_tests_test_vertical_line() {
    let lines = vertical_line(5, BorderStyle::Single, Style::new()).unwrap();
    assert_eq!(lines.len(), 5);

    for (i, line) in lines.iter().enumerate() {
        assert_eq!(line.content, "│");
        assert_eq!(line.x, 0);
        assert_eq!(line.y, i);
        assert_eq!(line.segment_type, BoxSegmentType::LeftBorder);
    }

    let lines = vertical_line(3, BorderStyle::Double, Style::new()).unwrap();
    for line in &lines {
        assert_eq!(line.content, "║");
    }

    let lines = vertical_line(3, BorderStyle::Thick, Style::new()).unwrap();
    for line in &lines {
        assert_eq!(line.content, "┃");
    }

    let lines = vertical_line(3, BorderStyle::Ascii, Style::new()).unwrap();
    for line in &lines {
        assert_eq!(line.content, "|");
    }
}

#[test]
fn test_box_segment() {
    let segment = BoxSegment {
        content: "test".to_string(),
        x: 5,
        y: 10,
        style: Style::new().bold(),
        segment_type: BoxSegmentType::TopBorder,
    };

    let regular_segment = segment.to_segment();
    assert_eq!(regular_segment.text(), "test");
    assert_eq!(regular_segment.style().bold, Some(true));
}

#[test]
fn test_error_cases() {
    let result = horizontal_line(0, BorderStyle::Single, Style::new());
    assert!(result.is_err());

    let result = horizontal_line(5, BorderStyle::Hidden, Style::new());
    assert!(result.is_err());

    let result = vertical_line(0, BorderStyle::Single, Style::new());
    assert!(result.is_err());

    let result = vertical_line(5, BorderStyle::Hidden, Style::new());
    assert!(result.is_err());

    let config = BoxConfig::new(BorderStyle::Hidden);
    let segments = draw_box(5, 3, &config).unwrap();
    assert!(segments.is_empty());

    let config = BoxConfig::new(BorderStyle::Single);
    let segments = draw_box(0, 0, &config).unwrap();
    // A 0x0 box should still draw minimal borders (total 2x2)
    assert!(!segments.is_empty());
}

#[test]
fn box_drawing_tests_test_edge_cases() {
    let config = BoxConfig::new(BorderStyle::Single);
    let segments = draw_box(1, 1, &config).unwrap();

    assert!(!segments.is_empty());
    let top = segments.iter().find(|s| s.y == 0).unwrap();
    assert_eq!(top.content, "┌─┐");

    let segments = draw_box(5, 0, &config).unwrap();
    assert!(!segments.is_empty()); // Should draw horizontal borders

    let segments = draw_box(0, 5, &config).unwrap();
    assert!(!segments.is_empty()); // Should draw vertical borders
}

#[test]
fn box_drawing_tests_test_performance() {
    let start = Instant::now();

    for i in 1..=100 {
        let config = BoxConfig::new(BorderStyle::Single);
        let _segments = draw_box(i % 20 + 1, i % 15 + 1, &config).unwrap();
    }

    let elapsed = start.elapsed();
    assert!(elapsed < Duration::from_millis(100));

    let start = Instant::now();

    for i in 1..=1000 {
        let _line = horizontal_line(i % 50 + 1, BorderStyle::Single, Style::new()).unwrap();
    }

    let elapsed = start.elapsed();
    assert!(elapsed < Duration::from_millis(50));
}

#[test]
fn box_drawing_tests_test_memory_usage() {
    assert!(mem::size_of::<BorderStyle>() <= 8);
    assert!(mem::size_of::<BorderSides>() <= 8);
    assert!(mem::size_of::<BoxChars>() <= 64);
    assert!(mem::size_of::<BoxConfig>() <= 128);
    assert!(mem::size_of::<BoxSegment>() <= 128);
    assert!(mem::size_of::<BoxSegmentType>() <= 4);
}

#[test]
fn test_unicode_compatibility() {
    let config = BoxConfig::new(BorderStyle::Single);
    let segments = draw_box(3, 2, &config).unwrap();

    let top_border = &segments[0];
    assert!(top_border.content.contains('┌'));
    assert!(top_border.content.contains('─'));
    assert!(top_border.content.contains('┐'));

    let left_borders: Vec<_> = segments
        .iter()
        .filter(|s| s.segment_type == BoxSegmentType::LeftBorder)
        .collect();

    for border in left_borders {
        assert!(border.content.contains('│'));
    }

    for style in [
        BorderStyle::Single,
        BorderStyle::Double,
        BorderStyle::Rounded,
        BorderStyle::Thick,
    ] {
        let config = BoxConfig::new(style);
        let segments = draw_box(3, 2, &config).unwrap();
        assert!(!segments.is_empty());

        for segment in segments {
            assert!(!segment.content.is_empty());
            assert!(segment.content.chars().all(|c| !c.is_control()));
        }
    }
}
