use fmtstring::{Colour, FmtString};

#[test]
fn it_works() {
    let mut a = FmtString::from_str("▒I am a formatted string!");
    a[0].bg = Colour::from_rgb(255, 0, 0);
    let optimised = a.to_optimised_string();
    println!("{}", optimised);
    assert_eq!(optimised, "\x1b[48;2;255;0;0m▒\x1b[49mI am a formatted string!");
}
