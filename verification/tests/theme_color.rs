use rplayer::theme::parse_hex_color;

#[test]
fn hex_colour_with_or_without_hash() {
    assert_eq!(parse_hex_color("56B6C2"), Some((0x56, 0xB6, 0xC2)));
    assert_eq!(parse_hex_color("#56b6c2"), Some((0x56, 0xB6, 0xC2)));
    assert_eq!(parse_hex_color("  #000000 "), Some((0, 0, 0)));
    assert_eq!(parse_hex_color("##ffffff"), Some((255, 255, 255)));
}

#[test]
fn invalid_hex_colours() {
    assert_eq!(parse_hex_color(""), None);
    assert_eq!(parse_hex_color("12345"), None);
    assert_eq!(parse_hex_color("1234567"), None);
    assert_eq!(parse_hex_color("GG0000"), None);
    assert_eq!(parse_hex_color("12 456"), None);
}

#[test]
fn signs_are_not_hex_digits() {
    assert_eq!(parse_hex_color("+1+2+3"), None);
    assert_eq!(parse_hex_color("+f+f+f"), None);
    assert_eq!(parse_hex_color("-f0000"), None);
}
