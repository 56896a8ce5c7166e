//! Tests for ANSI escape generation, stripping and width measurement.

use luxor::ansi::{cursor, strip_ansi, style_to_ansi, text_width, AnsiBuilder};
use luxor::{Color, ColorSystem, StandardColor, Style};
use unicode_width::UnicodeWidthStr;

#[test]
fn test_ansi_builder_empty() {
    let builder = AnsiBuilder::new();
    assert!(builder.is_empty());
    assert_eq!(builder.build(), "");
}

#[test]
fn test_ansi_builder_bold() {
    let mut builder = AnsiBuilder::new();
    let style = Style::new().bold();
    builder.add_style(&style, ColorSystem::Standard);
    assert_eq!(builder.build(), "\x1b[1m");
}

#[test]
fn test_ansi_builder_color() {
    let mut builder = AnsiBuilder::new();
    let style = Style::new().color(Color::Standard(StandardColor::Red));
    builder.add_style(&style, ColorSystem::Standard);
    assert_eq!(builder.build(), "\x1b[31m");
}

#[test]
fn test_ansi_builder_true_color() {
    let mut builder = AnsiBuilder::new();
    let style = Style::new().color(Color::rgb(255, 128, 64));
    builder.add_style(&style, ColorSystem::TrueColor);
    assert_eq!(builder.build(), "\x1b[38;2;255;128;64m");
}

#[test]
fn test_ansi_builder_complex() {
    let mut builder = AnsiBuilder::new();
    let style = Style::new()
        .bold()
        .italic()
        .color(Color::Standard(StandardColor::Red))
        .background(Color::Standard(StandardColor::Blue));
    builder.add_style(&style, ColorSystem::Standard);

    let result = builder.build();
    assert!(result.contains("31")); // Red foreground
    assert!(result.contains("44")); // Blue background
    assert!(result.contains("1")); // Bold
    assert!(result.contains("3")); // Italic
}

#[test]
fn test_style_to_ansi() {
    let style = Style::new().bold().color(Color::rgb(255, 0, 0));
    let ansi = style_to_ansi(&style, ColorSystem::TrueColor);
    assert!(ansi.contains("38;2;255;0;0")); // True color red
    assert!(ansi.contains("1")); // Bold
}

#[test]
fn test_cursor_functions() {
    assert_eq!(cursor::up(5), "\x1b[5A");
    assert_eq!(cursor::down(3), "\x1b[3B");
    assert_eq!(cursor::position(10, 20), "\x1b[10;20H");
}

#[test]
fn test_strip_ansi() {
    let styled = "\x1b[1;31mHello\x1b[0m World";
    let plain = strip_ansi(styled);
    assert_eq!(plain, "Hello World");
}

#[test]
fn test_strip_ansi_complex() {
    let styled = "\x1b[38;2;255;0;0mRed\x1b[39m \x1b[1mBold\x1b[22m";
    let plain = strip_ansi(styled);
    assert_eq!(plain, "Red Bold");
}

#[test]
fn test_text_width() {
    let styled = "\x1b[1;31mHello\x1b[0m";
    assert_eq!(text_width(styled), 5);

    let plain = "Hello";
    assert_eq!(text_width(plain), 5);
}

#[test]
fn test_strip_ansi_no_escape() {
    let plain = "Hello World";
    assert_eq!(strip_ansi(plain), plain);
}

#[test]
fn test_strip_ansi_idempotent() {
    let cases = [
        "plain text",
        "\x1b[1;31mHello\x1b[0m World",
        "truncated \x1b[38;2;1",
        "\x1b[1m\x1b[31mNested\x1b[0m\x1b[0m",
        "\x1b not a sequence",
        "ends with escape \x1b",
        "\x1b[\x1b[0m restart",
    ];
    for case in cases {
        let once = strip_ansi(case);
        let twice = strip_ansi(&once);
        assert_eq!(twice, once);
    }
}

#[test]
fn test_strip_ansi_malformed() {
    // A truncated sequence is discarded entirely.
    assert_eq!(strip_ansi("abc\x1b[12"), "abc");
    // An escape not followed by a bracket passes through.
    assert_eq!(strip_ansi("a\x1bb"), "a\x1bb");
    // A restart inside a sequence begins a new sequence.
    assert_eq!(strip_ansi("\x1b[12\x1b[0mX"), "X");
}

#[test]
fn test_width_consistency() {
    // For text without escape bytes, the ANSI-aware width equals the
    // plain Unicode display width.
    let cases = ["Hello", "你好", "héllo", "", "a b c", "👋🌍"];
    for case in cases {
        assert_eq!(text_width(case), UnicodeWidthStr::width(case));
    }
}

#[test]
fn test_style_to_ansi_empty() {
    assert_eq!(style_to_ansi(&Style::new(), ColorSystem::TrueColor), "");
}

#[test]
fn test_style_to_ansi_off_codes() {
    let style = Style::new().bold_off().italic_off().underline_off();
    let ansi = style_to_ansi(&style, ColorSystem::Standard);
    assert_eq!(ansi, "\x1b[22;23;24m");
}

#[test]
fn test_style_to_ansi_downgrades() {
    let style = Style::new().color(Color::rgb(255, 0, 0));
    let standard = style_to_ansi(&style, ColorSystem::Standard);
    assert_eq!(standard, "\x1b[91m"); // Nearest standard color: bright red
    let eight_bit = style_to_ansi(&style, ColorSystem::EightBit);
    assert_eq!(eight_bit, "\x1b[38;5;9m");
    let default_fg = style_to_ansi(&Style::new().color(Color::Default), ColorSystem::TrueColor);
    assert_eq!(default_fg, "\x1b[39m");
    let default_bg = style_to_ansi(
        &Style::new().background(Color::Default),
        ColorSystem::TrueColor,
    );
    assert_eq!(default_bg, "\x1b[49m");
}

#[test]
fn test_cursor_remaining_functions() {
    assert_eq!(cursor::right(7), "\x1b[7C");
    assert_eq!(cursor::left(2), "\x1b[2D");
    assert_eq!(cursor::column(12), "\x1b[12G");
}
