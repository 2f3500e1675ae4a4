use fmtstring::ansi::{apply_escape, read_cells, read_until, split_fields};
use fmtstring::numeral::read_u8;
use fmtstring::strings::chars_of;
use fmtstring::{Colour, FmtChar, FmtError, FmtString};

fn chars(s: &str) -> Vec<char> {
    s.chars().collect()
}

fn cells_of(s: &FmtString) -> Vec<(char, Colour, Colour)> {
    let mut out = Vec::new();
    for i in 0..s.len() {
        let c: FmtChar = s[i];
        out.push((c.ch, c.fg, c.bg));
    }
    out
}

fn parse(s: &str) -> Result<Vec<(char, Colour, Colour)>, FmtError> {
    match FmtString::from_ansi_string(s.to_string()) {
        Ok(f) => Ok(cells_of(&f)),
        Err(e) => Err(e),
    }
}

const D: Colour = Colour::Default;

#[test]
fn red_then_reset_scenario() {
    let parsed = FmtString::from_ansi_string("\x1b[38;2;255;0;0mR\x1b[0mG".to_string()).unwrap();
    assert_eq!(parsed.len(), 2);
    assert_eq!(parsed[0].ch, 'R');
    assert_eq!(parsed[0].fg, Colour::from_rgb(255, 0, 0));
    assert_eq!(parsed[0].bg, Colour::default());
    assert_eq!(parsed[1].ch, 'G');
    assert_eq!(parsed[1].fg, Colour::default());
    assert_eq!(parsed[1].bg, Colour::default());
    assert_eq!(parsed.to_optimised_string(), "\x1b[38;2;255;0;0mR\x1b[39mG");
}

#[test]
fn plain_text_reads_as_default_cells() {
    assert_eq!(parse("ab"), Ok(vec![('a', D, D), ('b', D, D)]));
    assert_eq!(parse(""), Ok(vec![]));
    assert_eq!(parse("▒é"), Ok(vec![('▒', D, D), ('é', D, D)]));
}

#[test]
fn colour_carries_forward() {
    let r = Colour::from_rgb(1, 2, 3);
    assert_eq!(parse("a\x1b[38;2;1;2;3mbc"), Ok(vec![('a', D, D), ('b', r, D), ('c', r, D)]));
}

#[test]
fn background_is_set_by_48() {
    let r = Colour::from_rgb(10, 20, 30);
    assert_eq!(parse("\x1b[48;2;10;20;30mx"), Ok(vec![('x', D, r)]));
}

#[test]
fn reset_returns_both_grounds() {
    let f = Colour::from_rgb(1, 1, 1);
    let b = Colour::from_rgb(2, 2, 2);
    assert_eq!(
        parse("\x1b[38;2;1;1;1m\x1b[48;2;2;2;2ma\x1b[0mb"),
        Ok(vec![('a', f, b), ('b', D, D)])
    );
}

#[test]
fn foreground_reset_leaves_background() {
    let f = Colour::from_rgb(1, 1, 1);
    let b = Colour::from_rgb(2, 2, 2);
    assert_eq!(
        parse("\x1b[38;2;1;1;1m\x1b[48;2;2;2;2ma\x1b[39mb"),
        Ok(vec![('a', f, b), ('b', D, b)])
    );
}

#[test]
fn background_reset_leaves_foreground() {
    let f = Colour::from_rgb(1, 1, 1);
    let b = Colour::from_rgb(2, 2, 2);
    assert_eq!(
        parse("\x1b[38;2;1;1;1m\x1b[48;2;2;2;2ma\x1b[49mb"),
        Ok(vec![('a', f, b), ('b', f, D)])
    );
}

#[test]
fn marker_field_is_not_looked_at() {
    let r = Colour::from_rgb(1, 2, 3);
    assert_eq!(parse("\x1b[38;9;1;2;3mx"), Ok(vec![('x', r, D)]));
    assert_eq!(parse("\x1b[38;;1;2;3mx"), Ok(vec![('x', r, D)]));
    assert_eq!(parse("\x1b[38;zz;1;2;3mx"), Ok(vec![('x', r, D)]));
}

#[test]
fn numerals_may_have_plus_and_leading_zeros() {
    let r = Colour::from_rgb(7, 0, 255);
    assert_eq!(parse("\x1b[38;2;+7;000;0255mx"), Ok(vec![('x', r, D)]));
}

#[test]
fn unrecognised_sequence_is_skipped() {
    assert_eq!(parse("a\x1b[1mb"), Ok(vec![('a', D, D), ('b', D, D)]));
    assert_eq!(parse("a\x1b[mb"), Ok(vec![('a', D, D), ('b', D, D)]));
    assert_eq!(parse("a\x1b[0;1mb"), Ok(vec![('a', D, D), ('b', D, D)]));
    assert_eq!(parse("a\x1b[1;2;3;4;xmb"), Ok(vec![('a', D, D), ('b', D, D)]));
    let r = Colour::from_rgb(1, 2, 3);
    assert_eq!(parse("\x1b[38;2;1;2;3ma\x1b[4mb"), Ok(vec![('a', r, D), ('b', r, D)]));
}

#[test]
fn lone_escape_is_a_character() {
    assert_eq!(parse("\x1b"), Ok(vec![('\x1b', D, D)]));
    assert_eq!(parse("a\x1bb"), Ok(vec![('a', D, D), ('\x1b', D, D), ('b', D, D)]));
    assert_eq!(parse("\x1b\x1b[0mx"), Ok(vec![('\x1b', D, D), ('x', D, D)]));
}

#[test]
fn truncated_sequence_is_rejected() {
    assert_eq!(parse("\x1b["), Err(FmtError::MalformedColorField));
    assert_eq!(parse("ab\x1b[0"), Err(FmtError::MalformedColorField));
    assert_eq!(parse("\x1b[38;2;1;2;3"), Err(FmtError::MalformedColorField));
    assert_eq!(parse("\x1b[38;2;1;2;34"), Err(FmtError::MalformedColorField));
    assert_eq!(parse("x\x1b[39"), Err(FmtError::MalformedColorField));
}

#[test]
fn malformed_colour_field_is_rejected() {
    assert_eq!(parse("\x1b[38;2;256;0;0mx"), Err(FmtError::MalformedColorField));
    assert_eq!(parse("\x1b[38;2;1;2;mx"), Err(FmtError::MalformedColorField));
    assert_eq!(parse("\x1b[38;2;a;2;3mx"), Err(FmtError::MalformedColorField));
    assert_eq!(parse("\x1b[38;2;-1;2;3mx"), Err(FmtError::MalformedColorField));
    assert_eq!(parse("\x1b[38;2;+;2;3mx"), Err(FmtError::MalformedColorField));
    assert_eq!(parse("\x1b[38;2;1;2;3;4mx"), Err(FmtError::MalformedColorField));
    assert_eq!(parse("\x1b[38;2;1;2mx"), Err(FmtError::MalformedColorField));
    assert_eq!(parse("\x1b[38mx"), Err(FmtError::MalformedColorField));
    assert_eq!(parse("\x1b[48;5;1mx"), Err(FmtError::MalformedColorField));
    assert_eq!(parse("\x1b[48;2; 1;2;3mx"), Err(FmtError::MalformedColorField));
}

#[test]
fn palette_text_is_not_read_back() {
    let s = FmtString::from_str_colour("x", Colour::Red, Colour::Default);
    let text = s.to_optimised_string();
    assert_eq!(text, "\x1b[38;5;1mx");
    assert_eq!(parse(&text), Err(FmtError::MalformedColorField));
}

#[test]
fn read_cells_agrees_with_from_ansi_string() {
    let data = chars("a\x1b[48;2;1;2;3mb");
    let cells = read_cells(&data).unwrap();
    assert_eq!(cells.len(), 2);
    assert_eq!(cells[1].bg, Colour::from_rgb(1, 2, 3));
    assert_eq!(cells[1].fg, D);
    assert!(matches!(read_cells(&chars("\x1b[38;2;mx")), Err(FmtError::MalformedColorField)));
}

#[test]
fn read_until_finds_the_first() {
    let data = chars("12;34;m");
    assert_eq!(read_until(';', &data, 0), 2);
    assert_eq!(read_until(';', &data, 3), 5);
    assert_eq!(read_until(';', &data, 2), 2);
    assert_eq!(read_until('m', &data, 0), 6);
    assert_eq!(read_until('m', &data, 5), 6);
    assert_eq!(read_until('x', &data, 0), 7);
    assert_eq!(read_until('x', &data, 4), 7);
}

#[test]
fn read_until_reads_nothing_with_fewer_than_two_characters_left() {
    let data = chars("12");
    assert_eq!(read_until(';', &data, 1), 1);
    assert_eq!(read_until('2', &data, 1), 1);
    assert_eq!(read_until(';', &data, 2), 2);
    assert_eq!(read_until(';', &data, 3), 3);
    assert_eq!(read_until(';', &data, usize::MAX), usize::MAX);
    assert_eq!(read_until(';', &data, 0), 2);
    let data = chars("12;34;m");
    assert_eq!(read_until('m', &data, 6), 6);
    assert_eq!(read_until(';', &data, 6), 6);
    assert_eq!(read_until(';', &data, 7), 7);
    assert_eq!(read_until(';', &data, 100), 100);
    let one = chars(";");
    assert_eq!(read_until(';', &one, 0), 0);
    assert_eq!(read_until('x', &one, 0), 0);
    let none = chars("");
    assert_eq!(read_until(';', &none, 0), 0);
    assert_eq!(read_until(';', &none, 5), 5);
}

#[test]
fn sequence_at_the_very_end_of_the_text() {
    assert_eq!(parse("a\x1b[m"), Ok(vec![('a', D, D)]));
    assert_eq!(parse("a\x1b[0m"), Ok(vec![('a', D, D)]));
    assert_eq!(parse("\x1b[38;2;1;2;3m"), Ok(vec![]));
    assert_eq!(parse("a\x1b[x"), Err(FmtError::MalformedColorField));
    assert_eq!(parse("a\x1b[;"), Err(FmtError::MalformedColorField));
    assert_eq!(parse("a\x1b[0;"), Err(FmtError::MalformedColorField));
    assert_eq!(parse("a\x1b[38;2;1;2;m"), Err(FmtError::MalformedColorField));
    assert_eq!(parse("a\x1b[38;2;1;2;3"), Err(FmtError::MalformedColorField));
}

#[test]
fn split_fields_cuts_at_semicolons() {
    let data = chars("38;2;10;;3");
    assert_eq!(split_fields(&data, 0, 10), vec![(0, 2), (3, 4), (5, 7), (8, 8), (9, 10)]);
    assert_eq!(split_fields(&data, 0, 2), vec![(0, 2)]);
    assert_eq!(split_fields(&data, 0, 3), vec![(0, 2), (3, 3)]);
    assert_eq!(split_fields(&data, 4, 4), vec![(4, 4)]);
    assert_eq!(split_fields(&data, 2, 5), vec![(2, 2), (3, 4), (5, 5)]);
    assert_eq!(split_fields(&data, 9, 10), vec![(9, 10)]);
    assert_eq!(split_fields(&data, 10, 10), vec![(10, 10)]);
    assert_eq!(split_fields(&data, 8, 9), vec![(8, 8), (9, 9)]);
}

#[test]
fn split_fields_up_to_the_end_of_the_text() {
    let data = chars("1;");
    assert_eq!(split_fields(&data, 0, 2), vec![(0, 1), (2, 2)]);
    assert_eq!(split_fields(&data, 1, 2), vec![(1, 1), (2, 2)]);
    assert_eq!(split_fields(&data, 0, 1), vec![(0, 1)]);
    let data = chars(";");
    assert_eq!(split_fields(&data, 0, 1), vec![(0, 0), (1, 1)]);
    assert_eq!(split_fields(&data, 0, 0), vec![(0, 0)]);
    let data = chars("x");
    assert_eq!(split_fields(&data, 0, 1), vec![(0, 1)]);
    let data = chars(";;x");
    assert_eq!(split_fields(&data, 0, 3), vec![(0, 0), (1, 1), (2, 3)]);
    let data = chars("ab;cd");
    assert_eq!(split_fields(&data, 0, 4), vec![(0, 2), (3, 4)]);
    assert_eq!(split_fields(&data, 0, 2), vec![(0, 2)]);
    let data = chars("");
    assert_eq!(split_fields(&data, 0, 0), vec![(0, 0)]);
}

#[test]
fn apply_escape_follows_the_body() {
    let f = Colour::Red;
    let b = Colour::Blue;
    let go = |s: &str| {
        let d = chars(s);
        apply_escape(&d, 0, d.len(), f, b)
    };
    assert_eq!(go("0"), Some((D, D)));
    assert_eq!(go("39"), Some((D, b)));
    assert_eq!(go("49"), Some((f, D)));
    assert_eq!(go("38;2;1;2;3"), Some((Colour::from_rgb(1, 2, 3), b)));
    assert_eq!(go("48;2;1;2;3"), Some((f, Colour::from_rgb(1, 2, 3))));
    assert_eq!(go("1"), Some((f, b)));
    assert_eq!(go(""), Some((f, b)));
    assert_eq!(go("00"), Some((f, b)));
    assert_eq!(go("38"), None);
    assert_eq!(go("48;2;1;2;300"), None);
}

#[test]
fn read_u8_reads_numerals() {
    let go = |s: &str| {
        let d = chars(s);
        read_u8(&d, 0, d.len())
    };
    assert_eq!(go("0"), Some(0));
    assert_eq!(go("7"), Some(7));
    assert_eq!(go("42"), Some(42));
    assert_eq!(go("255"), Some(255));
    assert_eq!(go("256"), None);
    assert_eq!(go("1000"), None);
    assert_eq!(go("99999999999999999999999"), None);
    assert_eq!(go("000000000000000000000255"), Some(255));
    assert_eq!(go("+12"), Some(12));
    assert_eq!(go("+"), None);
    assert_eq!(go(""), None);
    assert_eq!(go("-1"), None);
    assert_eq!(go("++1"), None);
    assert_eq!(go("1+"), None);
    assert_eq!(go("1a"), None);
    assert_eq!(go(" 1"), None);
    assert_eq!(go("٣"), None);
}

#[test]
fn read_u8_reads_a_part() {
    let d = chars("ab123cd");
    assert_eq!(read_u8(&d, 2, 5), Some(123));
    assert_eq!(read_u8(&d, 2, 4), Some(12));
    assert_eq!(read_u8(&d, 3, 3), None);
    assert_eq!(read_u8(&d, 1, 5), None);
}

#[test]
fn read_u8_agrees_with_std() {
    for n in 0u16..=300 {
        let s = n.to_string();
        let d = chars(&s);
        assert_eq!(read_u8(&d, 0, d.len()), s.parse::<u8>().ok());
    }
    for s in ["+0", "+255", "+256", "007", "", "+", "-0", "0x1", "1_0"] {
        let d = chars(s);
        assert_eq!(read_u8(&d, 0, d.len()), s.parse::<u8>().ok());
    }
}

#[test]
fn chars_of_gives_the_characters() {
    assert_eq!(chars_of("a▒\x1b"), vec!['a', '▒', '\x1b']);
    assert_eq!(chars_of(""), Vec::<char>::new());
}
