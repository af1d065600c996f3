use lcd_graphics::color::{color, hex_char_to_number, hex_pair_to_number, Color, ColorLiteralError};

#[test]
fn new_keeps_channels() {
    let c = Color::new(1, 2, 3);
    assert_eq!((c.r, c.g, c.b), (1, 2, 3));
}

#[test]
fn white_and_black_pack_to_extremes() {
    assert_eq!(Color::new(255, 255, 255).rgb565(), 0xFFFF);
    assert_eq!(Color::new(0, 0, 0).rgb565(), 0x0000);
}

#[test]
fn primaries_fill_their_bit_fields() {
    assert_eq!(Color::new(255, 0, 0).rgb565(), 0xF800);
    assert_eq!(Color::new(0, 255, 0).rgb565(), 0x07E0);
    assert_eq!(Color::new(0, 0, 255).rgb565(), 0x001F);
}

#[test]
fn channels_round_to_nearest_level() {
    // 0x80 = 128: 128 * 31 / 255 = 15.56 -> 16, 128 * 63 / 255 = 31.6 -> 32
    assert_eq!(Color::new(0x80, 0x80, 0x80).rgb565(), 0x8410);
    // 0x6B = 107: green 26.4 -> 26, blue 13.0 -> 13
    assert_eq!(Color::new(0xFF, 0x6B, 0x6B).rgb565(), 0xFB4D);
}

#[test]
fn hex_digits_of_both_cases() {
    assert_eq!(hex_char_to_number('0'), 0);
    assert_eq!(hex_char_to_number('9'), 9);
    assert_eq!(hex_char_to_number('a'), 10);
    assert_eq!(hex_char_to_number('A'), 10);
    assert_eq!(hex_char_to_number('f'), 15);
    assert_eq!(hex_char_to_number('F'), 15);
}

#[test]
fn hex_pairs_read_high_digit_first() {
    assert_eq!(hex_pair_to_number('F', 'F'), 255);
    assert_eq!(hex_pair_to_number('0', '6'), 6);
    assert_eq!(hex_pair_to_number('6', 'c'), 0x6C);
}

#[test]
fn color_literals_of_the_demo_palette() {
    let cases = [
        ("#000000", 0x0000u16),
        ("#FF0000", 0xF800),
        ("#0000FF", 0x001F),
        ("#00FF00", 0x07E0),
        ("#FF6B6B", 0xFB4D),
        ("#FFEAA7", 0xFF54),
        ("#0652DD", 0x0A9B),
        ("#6C5CE7", 0x6AFC),
        ("#00CEC9", 0x0678),
        ("#E17055", 0xDB8A),
        ("#2D3436", 0x29A7),
        ("#FFFFFF", 0xFFFF),
    ];
    for (text, word) in cases {
        assert_eq!(color(text).unwrap().rgb565(), word, "{}", text);
    }
}

#[test]
fn color_literal_channels() {
    let c = color("#12abEF").unwrap();
    assert_eq!((c.r, c.g, c.b), (0x12, 0xAB, 0xEF));
}

#[test]
fn color_literal_errors() {
    assert_eq!(color(""), Err(ColorLiteralError::MissingLiteral));
    assert_eq!(color("FFFFFF"), Err(ColorLiteralError::MissingHash));
    assert_eq!(color("#"), Err(ColorLiteralError::MissingLiteral));
    assert_eq!(color("#FFF"), Err(ColorLiteralError::WrongLength));
    assert_eq!(color("#FFFFFFF"), Err(ColorLiteralError::WrongLength));
    assert_eq!(color("#FFGFFF"), Err(ColorLiteralError::UnknownHexChar));
    assert_eq!(color("#FFFFF\u{e9}"), Err(ColorLiteralError::WrongLength));
}

#[test]
fn packed_fields_decode_to_scaled_channels() {
    let word = Color::new(200, 100, 50).rgb565();
    // 200 * 31 / 255 = 24.3 -> 24, 100 * 63 / 255 = 24.7 -> 25, 50 * 31 / 255 = 6.08 -> 6
    assert_eq!(word >> 11, 24);
    assert_eq!((word >> 5) & 0x3F, 25);
    assert_eq!(word & 0x1F, 6);
}
