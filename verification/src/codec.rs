//! The calls into `termion::color`, which knows the escape text of each
//! colour. Nothing in this file is proved: every contract below restates
//! what termion's source returns, and the rest of the crate builds on them.

use crate::colour::{truecolour_text, Ground};
use vstd::prelude::*;

verus! {

/// `termion::color::Rgb::fg_string`: the escape introducer, `38;2;`, the
/// three components in decimal without leading zeros, separated by `;`,
/// and a closing `m`.
#[verifier::external_body]
pub(crate) fn rgb_fg(r: u8, g: u8, b: u8) -> (text: String)
    ensures
        text@ == truecolour_text(Ground::Foreground, r, g, b),
{
    termion::color::Rgb(r, g, b).fg_string()
}

/// `termion::color::Rgb::bg_string`: as `fg_string`, with `48` in place of `38`.
#[verifier::external_body]
pub(crate) fn rgb_bg(r: u8, g: u8, b: u8) -> (text: String)
    ensures
        text@ == truecolour_text(Ground::Background, r, g, b),
{
    termion::color::Rgb(r, g, b).bg_string()
}

/// `termion::color::Reset::fg_str`: the constant text that returns the
/// foreground to the terminal's default.
#[verifier::external_body]
pub(crate) fn reset_fg() -> (text: String)
    ensures
        text@ == "\x1b[39m"@,
{
    termion::color::Reset.fg_str().into()
}

/// `termion::color::Reset::bg_str`: the constant text that returns the
/// background to the terminal's default.
#[verifier::external_body]
pub(crate) fn reset_bg() -> (text: String)
    ensures
        text@ == "\x1b[49m"@,
{
    termion::color::Reset.bg_str().into()
}

/// `termion::color::Black::fg_str`: the constant text that selects palette
/// entry 0 as the foreground.
#[verifier::external_body]
pub(crate) fn black_fg() -> (text: String)
    ensures
        text@ == "\x1b[38;5;0m"@,
{
    termion::color::Black.fg_str().into()
}

/// `termion::color::Black::bg_str`: the constant text that selects palette
/// entry 0 as the background.
#[verifier::external_body]
pub(crate) fn black_bg() -> (text: String)
    ensures
        text@ == "\x1b[48;5;0m"@,
{
    termion::color::Black.bg_str().into()
}

/// `termion::color::Blue::fg_str`: the constant text that selects palette
/// entry 4 as the foreground.
#[verifier::external_body]
pub(crate) fn blue_fg() -> (text: String)
    ensures
        text@ == "\x1b[38;5;4m"@,
{
    termion::color::Blue.fg_str().into()
}

/// `termion::color::Blue::bg_str`: the constant text that selects palette
/// entry 4 as the background.
#[verifier::external_body]
pub(crate) fn blue_bg() -> (text: String)
    ensures
        text@ == "\x1b[48;5;4m"@,
{
    termion::color::Blue.bg_str().into()
}

/// `termion::color::Cyan::fg_str`: the constant text that selects palette
/// entry 6 as the foreground.
#[verifier::external_body]
pub(crate) fn cyan_fg() -> (text: String)
    ensures
        text@ == "\x1b[38;5;6m"@,
{
    termion::color::Cyan.fg_str().into()
}

/// `termion::color::Cyan::bg_str`: the constant text that selects palette
/// entry 6 as the background.
#[verifier::external_body]
pub(crate) fn cyan_bg() -> (text: String)
    ensures
        text@ == "\x1b[48;5;6m"@,
{
    termion::color::Cyan.bg_str().into()
}

/// `termion::color::Green::fg_str`: the constant text that selects palette
/// entry 2 as the foreground.
#[verifier::external_body]
pub(crate) fn green_fg() -> (text: String)
    ensures
        text@ == "\x1b[38;5;2m"@,
{
    termion::color::Green.fg_str().into()
}

/// `termion::color::Green::bg_str`: the constant text that selects palette
/// entry 2 as the background.
#[verifier::external_body]
pub(crate) fn green_bg() -> (text: String)
    ensures
        text@ == "\x1b[48;5;2m"@,
{
    termion::color::Green.bg_str().into()
}

/// `termion::color::LightBlack::fg_str`: the constant text that selects palette
/// entry 8 as the foreground.
#[verifier::external_body]
pub(crate) fn light_black_fg() -> (text: String)
    ensures
        text@ == "\x1b[38;5;8m"@,
{
    termion::color::LightBlack.fg_str().into()
}

/// `termion::color::LightBlack::bg_str`: the constant text that selects palette
/// entry 8 as the background.
#[verifier::external_body]
pub(crate) fn light_black_bg() -> (text: String)
    ensures
        text@ == "\x1b[48;5;8m"@,
{
    termion::color::LightBlack.bg_str().into()
}

/// `termion::color::LightBlue::fg_str`: the constant text that selects palette
/// entry 12 as the foreground.
#[verifier::external_body]
pub(crate) fn light_blue_fg() -> (text: String)
    ensures
        text@ == "\x1b[38;5;12m"@,
{
    termion::color::LightBlue.fg_str().into()
}

/// `termion::color::LightBlue::bg_str`: the constant text that selects palette
/// entry 12 as the background.
#[verifier::external_body]
pub(crate) fn light_blue_bg() -> (text: String)
    ensures
        text@ == "\x1b[48;5;12m"@,
{
    termion::color::LightBlue.bg_str().into()
}

/// `termion::color::LightGreen::fg_str`: the constant text that selects palette
/// entry 10 as the foreground.
#[verifier::external_body]
pub(crate) fn light_green_fg() -> (text: String)
    ensures
        text@ == "\x1b[38;5;10m"@,
{
    termion::color::LightGreen.fg_str().into()
}

/// `termion::color::LightGreen::bg_str`: the constant text that selects palette
/// entry 10 as the background.
#[verifier::external_body]
pub(crate) fn light_green_bg() -> (text: String)
    ensures
        text@ == "\x1b[48;5;10m"@,
{
    termion::color::LightGreen.bg_str().into()
}

/// `termion::color::LightMagenta::fg_str`: the constant text that selects palette
/// entry 13 as the foreground.
#[verifier::external_body]
pub(crate) fn light_magenta_fg() -> (text: String)
    ensures
        text@ == "\x1b[38;5;13m"@,
{
    termion::color::LightMagenta.fg_str().into()
}

/// `termion::color::LightMagenta::bg_str`: the constant text that selects palette
/// entry 13 as the background.
#[verifier::external_body]
pub(crate) fn light_magenta_bg() -> (text: String)
    ensures
        text@ == "\x1b[48;5;13m"@,
{
    termion::color::LightMagenta.bg_str().into()
}

/// `termion::color::LightRed::fg_str`: the constant text that selects palette
/// entry 9 as the foreground.
#[verifier::external_body]
pub(crate) fn light_red_fg() -> (text: String)
    ensures
        text@ == "\x1b[38;5;9m"@,
{
    termion::color::LightRed.fg_str().into()
}

/// `termion::color::LightRed::bg_str`: the constant text that selects palette
/// entry 9 as the background.
#[verifier::external_body]
pub(crate) fn light_red_bg() -> (text: String)
    ensures
        text@ == "\x1b[48;5;9m"@,
{
    termion::color::LightRed.bg_str().into()
}

/// `termion::color::LightWhite::fg_str`: the constant text that selects palette
/// entry 15 as the foreground.
#[verifier::external_body]
pub(crate) fn light_white_fg() -> (text: String)
    ensures
        text@ == "\x1b[38;5;15m"@,
{
    termion::color::LightWhite.fg_str().into()
}

/// `termion::color::LightWhite::bg_str`: the constant text that selects palette
/// entry 15 as the background.
#[verifier::external_body]
pub(crate) fn light_white_bg() -> (text: String)
    ensures
        text@ == "\x1b[48;5;15m"@,
{
    termion::color::LightWhite.bg_str().into()
}

/// `termion::color::LightYellow::fg_str`: the constant text that selects palette
/// entry 11 as the foreground.
#[verifier::external_body]
pub(crate) fn light_yellow_fg() -> (text: String)
    ensures
        text@ == "\x1b[38;5;11m"@,
{
    termion::color::LightYellow.fg_str().into()
}

/// `termion::color::LightYellow::bg_str`: the constant text that selects palette
/// entry 11 as the background.
#[verifier::external_body]
pub(crate) fn light_yellow_bg() -> (text: String)
    ensures
        text@ == "\x1b[48;5;11m"@,
{
    termion::color::LightYellow.bg_str().into()
}

/// `termion::color::Magenta::fg_str`: the constant text that selects palette
/// entry 5 as the foreground.
#[verifier::external_body]
pub(crate) fn magenta_fg() -> (text: String)
    ensures
        text@ == "\x1b[38;5;5m"@,
{
    termion::color::Magenta.fg_str().into()
}

/// `termion::color::Magenta::bg_str`: the constant text that selects palette
/// entry 5 as the background.
#[verifier::external_body]
pub(crate) fn magenta_bg() -> (text: String)
    ensures
        text@ == "\x1b[48;5;5m"@,
{
    termion::color::Magenta.bg_str().into()
}

/// `termion::color::Red::fg_str`: the constant text that selects palette
/// entry 1 as the foreground.
#[verifier::external_body]
pub(crate) fn red_fg() -> (text: String)
    ensures
        text@ == "\x1b[38;5;1m"@,
{
    termion::color::Red.fg_str().into()
}

/// `termion::color::Red::bg_str`: the constant text that selects palette
/// entry 1 as the background.
#[verifier::external_body]
pub(crate) fn red_bg() -> (text: String)
    ensures
        text@ == "\x1b[48;5;1m"@,
{
    termion::color::Red.bg_str().into()
}

/// `termion::color::White::fg_str`: the constant text that selects palette
/// entry 7 as the foreground.
#[verifier::external_body]
pub(crate) fn white_fg() -> (text: String)
    ensures
        text@ == "\x1b[38;5;7m"@,
{
    termion::color::White.fg_str().into()
}

/// `termion::color::White::bg_str`: the constant text that selects palette
/// entry 7 as the background.
#[verifier::external_body]
pub(crate) fn white_bg() -> (text: String)
    ensures
        text@ == "\x1b[48;5;7m"@,
{
    termion::color::White.bg_str().into()
}

/// `termion::color::Yellow::fg_str`: the constant text that selects palette
/// entry 3 as the foreground.
#[verifier::external_body]
pub(crate) fn yellow_fg() -> (text: String)
    ensures
        text@ == "\x1b[38;5;3m"@,
{
    termion::color::Yellow.fg_str().into()
}

/// `termion::color::Yellow::bg_str`: the constant text that selects palette
/// entry 3 as the background.
#[verifier::external_body]
pub(crate) fn yellow_bg() -> (text: String)
    ensures
        text@ == "\x1b[48;5;3m"@,
{
    termion::color::Yellow.bg_str().into()
}

} // verus!
