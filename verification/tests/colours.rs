use fmtstring::{Colour, FmtChar, Ground};

fn fg(c: Colour) -> String {
    c.to_string(Ground::Foreground)
}

fn bg(c: Colour) -> String {
    c.to_string(Ground::Background)
}

#[test]
fn default_is_not_black() {
    assert!(Colour::default() != Colour::from_rgb(0, 0, 0));
    assert!(Colour::default() != Colour::Black);
    assert!(Colour::default() == Colour::Default);
}

#[test]
fn rgb_equality_is_by_components() {
    assert!(Colour::from_rgb(1, 2, 3) == Colour::from_rgb(1, 2, 3));
    assert!(Colour::from_rgb(1, 2, 3) != Colour::from_rgb(1, 2, 4));
    assert!(Colour::from_rgb(1, 2, 3) != Colour::from_rgb(1, 3, 3));
    assert!(Colour::from_rgb(1, 2, 3) != Colour::from_rgb(0, 2, 3));
    assert_eq!(Colour::from_rgb(7, 8, 9), Colour::Rgb { r: 7, g: 8, b: 9 });
}

#[test]
fn named_colours_equal_only_themselves() {
    assert!(Colour::Red == Colour::Red);
    assert!(Colour::Red != Colour::LightRed);
    assert!(Colour::Transparent != Colour::Default);
    assert!(Colour::Black != Colour::from_rgb(0, 0, 0));
}

#[test]
fn rgb_escape_text() {
    assert_eq!(fg(Colour::from_rgb(255, 0, 0)), "\x1b[38;2;255;0;0m");
    assert_eq!(bg(Colour::from_rgb(255, 0, 0)), "\x1b[48;2;255;0;0m");
    assert_eq!(fg(Colour::from_rgb(1, 20, 100)), "\x1b[38;2;1;20;100m");
    assert_eq!(bg(Colour::from_rgb(9, 10, 99)), "\x1b[48;2;9;10;99m");
    assert_eq!(fg(Colour::from_rgb(0, 0, 0)), "\x1b[38;2;0;0;0m");
}

#[test]
fn rgb_escape_text_is_that_of_termion() {
    assert_eq!(fg(Colour::from_rgb(12, 34, 56)), termion::color::Rgb(12, 34, 56).fg_string());
    assert_eq!(bg(Colour::from_rgb(12, 34, 56)), termion::color::Rgb(12, 34, 56).bg_string());
}

#[test]
fn default_escape_text() {
    assert_eq!(fg(Colour::Default), "\x1b[39m");
    assert_eq!(bg(Colour::Default), "\x1b[49m");
    assert_eq!(fg(Colour::default()), termion::color::Reset.fg_str());
    assert_eq!(bg(Colour::default()), termion::color::Reset.bg_str());
}

#[test]
fn transparent_escape_text_is_empty() {
    assert_eq!(fg(Colour::Transparent), "");
    assert_eq!(bg(Colour::Transparent), "");
}

#[test]
fn black_escape_text() {
    assert_eq!(fg(Colour::Black), "\x1b[38;5;0m");
    assert_eq!(bg(Colour::Black), "\x1b[48;5;0m");
}

#[test]
fn red_escape_text() {
    assert_eq!(fg(Colour::Red), "\x1b[38;5;1m");
    assert_eq!(bg(Colour::Red), "\x1b[48;5;1m");
}

#[test]
fn green_escape_text() {
    assert_eq!(fg(Colour::Green), "\x1b[38;5;2m");
    assert_eq!(bg(Colour::Green), "\x1b[48;5;2m");
}

#[test]
fn yellow_escape_text() {
    assert_eq!(fg(Colour::Yellow), "\x1b[38;5;3m");
    assert_eq!(bg(Colour::Yellow), "\x1b[48;5;3m");
}

#[test]
fn blue_escape_text() {
    assert_eq!(fg(Colour::Blue), "\x1b[38;5;4m");
    assert_eq!(bg(Colour::Blue), "\x1b[48;5;4m");
}

#[test]
fn magenta_escape_text() {
    assert_eq!(fg(Colour::Magenta), "\x1b[38;5;5m");
    assert_eq!(bg(Colour::Magenta), "\x1b[48;5;5m");
}

#[test]
fn cyan_escape_text() {
    assert_eq!(fg(Colour::Cyan), "\x1b[38;5;6m");
    assert_eq!(bg(Colour::Cyan), "\x1b[48;5;6m");
}

#[test]
fn white_escape_text() {
    assert_eq!(fg(Colour::White), "\x1b[38;5;7m");
    assert_eq!(bg(Colour::White), "\x1b[48;5;7m");
}

#[test]
fn light_black_escape_text() {
    assert_eq!(fg(Colour::LightBlack), "\x1b[38;5;8m");
    assert_eq!(bg(Colour::LightBlack), "\x1b[48;5;8m");
}

#[test]
fn light_red_escape_text() {
    assert_eq!(fg(Colour::LightRed), "\x1b[38;5;9m");
    assert_eq!(bg(Colour::LightRed), "\x1b[48;5;9m");
}

#[test]
fn light_green_escape_text() {
    assert_eq!(fg(Colour::LightGreen), "\x1b[38;5;10m");
    assert_eq!(bg(Colour::LightGreen), "\x1b[48;5;10m");
}

#[test]
fn light_yellow_escape_text() {
    assert_eq!(fg(Colour::LightYellow), "\x1b[38;5;11m");
    assert_eq!(bg(Colour::LightYellow), "\x1b[48;5;11m");
}

#[test]
fn light_blue_escape_text() {
    assert_eq!(fg(Colour::LightBlue), "\x1b[38;5;12m");
    assert_eq!(bg(Colour::LightBlue), "\x1b[48;5;12m");
}

#[test]
fn light_magenta_escape_text() {
    assert_eq!(fg(Colour::LightMagenta), "\x1b[38;5;13m");
    assert_eq!(bg(Colour::LightMagenta), "\x1b[48;5;13m");
}

#[test]
fn light_white_escape_text() {
    assert_eq!(fg(Colour::LightWhite), "\x1b[38;5;15m");
    assert_eq!(bg(Colour::LightWhite), "\x1b[48;5;15m");
}

#[test]
fn named_escape_text_is_that_of_termion() {
    assert_eq!(fg(Colour::Black), termion::color::Black.fg_str());
    assert_eq!(bg(Colour::Blue), termion::color::Blue.bg_str());
    assert_eq!(fg(Colour::Cyan), termion::color::Cyan.fg_str());
    assert_eq!(bg(Colour::Green), termion::color::Green.bg_str());
    assert_eq!(fg(Colour::LightBlack), termion::color::LightBlack.fg_str());
    assert_eq!(bg(Colour::LightBlue), termion::color::LightBlue.bg_str());
    assert_eq!(fg(Colour::LightGreen), termion::color::LightGreen.fg_str());
    assert_eq!(bg(Colour::LightMagenta), termion::color::LightMagenta.bg_str());
    assert_eq!(fg(Colour::LightRed), termion::color::LightRed.fg_str());
    assert_eq!(bg(Colour::LightWhite), termion::color::LightWhite.bg_str());
    assert_eq!(fg(Colour::LightYellow), termion::color::LightYellow.fg_str());
    assert_eq!(bg(Colour::Magenta), termion::color::Magenta.bg_str());
    assert_eq!(fg(Colour::Red), termion::color::Red.fg_str());
    assert_eq!(bg(Colour::White), termion::color::White.bg_str());
    assert_eq!(fg(Colour::Yellow), termion::color::Yellow.fg_str());
}

#[test]
fn cell_width_is_one() {
    let cell = FmtChar::new('x', Colour::Red, Colour::Default);
    assert_eq!(cell.width(), 1);
    let wide = FmtChar { ch: '▒', fg: Colour::Default, bg: Colour::Default };
    assert_eq!(wide.width(), 1);
}

#[test]
fn cell_new_keeps_its_parts() {
    let cell = FmtChar::new('q', Colour::from_rgb(1, 2, 3), Colour::Blue);
    assert_eq!(cell.ch, 'q');
    assert_eq!(cell.fg, Colour::from_rgb(1, 2, 3));
    assert_eq!(cell.bg, Colour::Blue);
}

#[test]
fn cell_alone_writes_both_colours() {
    let cell = FmtChar::new('x', Colour::Default, Colour::Default);
    assert_eq!(cell.to_string(), "\x1b[39m\x1b[49mx");
    let cell = FmtChar::new('y', Colour::from_rgb(1, 2, 3), Colour::Red);
    assert_eq!(cell.to_string(), "\x1b[38;2;1;2;3m\x1b[48;5;1my");
    let cell = FmtChar::new('z', Colour::Transparent, Colour::Transparent);
    assert_eq!(cell.to_string(), "z");
}
