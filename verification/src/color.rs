use vstd::prelude::*;
use vstd::string::StringSliceAdditionalSpecFns;

verus! {

/// An RGB color with 8-bit channels.
///
/// The panel receives colors as RGB565 packed into a `u16`:
/// bits 15–11 hold red (5 bits), bits 10–5 green (6 bits) and bits 4–0 blue (5 bits);
/// [`Color::rgb565`] computes that packed value.
#[derive(Debug, Clone, Copy, PartialEq, Eq, Structural)]
pub struct Color {
    pub r: u8,
    pub g: u8,
    pub b: u8,
}

/// Why a color literal was refused by [`color`].
#[derive(Debug, Clone, Copy, PartialEq, Eq, Structural)]
pub enum ColorLiteralError {
    /// The literal does not start with `#`.
    MissingHash,
    /// There is nothing at all, or nothing after the `#`.
    MissingLiteral,
    /// The hex code after `#` is not exactly six characters long.
    WrongLength,
    /// One of the six characters is not a hexadecimal digit.
    UnknownHexChar,
}

/// `value` (0..=255) scaled to the range 0..=`max`, rounded to the nearest integer.
/// (`value * max / 255` is never exactly halfway between two integers.)
pub open spec fn scale_channel(value: int, max: int) -> int {
    (2 * value * max + 255) / 510
}

/// The RGB565 word with the given 5-bit red, 6-bit green and 5-bit blue fields.
pub open spec fn pack_rgb565(r5: int, g6: int, b5: int) -> int {
    r5 * 2048 + g6 * 32 + b5
}

/// The RGB565 word of an 8-bit-per-channel color.
pub open spec fn rgb565_of(r: u8, g: u8, b: u8) -> int {
    pack_rgb565(scale_channel(r as int, 31), scale_channel(g as int, 63), scale_channel(b as int, 31))
}

/// Whether `c` is an ASCII hexadecimal digit (either case).
pub open spec fn is_hex_char(c: char) -> bool {
    ||| 48 <= c as int <= 57
    ||| 65 <= c as int <= 70
    ||| 97 <= c as int <= 102
}

/// The value of a hexadecimal digit.
pub open spec fn hex_value(c: char) -> int {
    if 48 <= c as int <= 57 {
        c as int - 48
    } else if 65 <= c as int <= 70 {
        c as int - 55
    } else {
        c as int - 87
    }
}

/// A channel scaled to `max` levels is the level nearest to `value * max / 255`:
/// it lies in `0..=max` and is off by at most one half.
pub proof fn lemma_scale_channel_nearest(value: u8, max: int)
    requires
        1 <= max,
    ensures
        0 <= scale_channel(value as int, max) <= max,
        -255 < 2 * (255 * scale_channel(value as int, max) - value * max) <= 255,
{
    let v = value as int;
    let q = scale_channel(v, max);
    assert(510 * q <= 2 * v * max + 255 < 510 * q + 510) by (nonlinear_arith)
        requires
            q == (2 * v * max + 255) / 510,
    ;
    assert(2 * (255 * q - v * max) == 510 * q - 2 * v * max) by (nonlinear_arith);
    assert(0 <= q <= max) by (nonlinear_arith)
        requires
            q == (2 * v * max + 255) / 510,
            0 <= v <= 255,
            1 <= max,
    ;
}

/// The RGB565 word of a color holds the scaled red channel in bits 15–11,
/// the scaled green channel in bits 10–5 and the scaled blue channel in bits 4–0.
pub proof fn lemma_rgb565_fields(c: Color)
    ensures
        0 <= rgb565_of(c.r, c.g, c.b) <= 0xffff,
        rgb565_of(c.r, c.g, c.b) / 2048 == scale_channel(c.r as int, 31),
        (rgb565_of(c.r, c.g, c.b) / 32) % 64 == scale_channel(c.g as int, 63),
        rgb565_of(c.r, c.g, c.b) % 32 == scale_channel(c.b as int, 31),
{
    lemma_scale_channel_nearest(c.r, 31);
    lemma_scale_channel_nearest(c.g, 63);
    lemma_scale_channel_nearest(c.b, 31);
    let r5 = scale_channel(c.r as int, 31);
    let g6 = scale_channel(c.g as int, 63);
    let b5 = scale_channel(c.b as int, 31);
    assert(pack_rgb565(r5, g6, b5) / 2048 == r5 && (pack_rgb565(r5, g6, b5) / 32) % 64 == g6
        && pack_rgb565(r5, g6, b5) % 32 == b5) by (nonlinear_arith)
        requires
            0 <= r5 <= 31,
            0 <= g6 <= 63,
            0 <= b5 <= 31,
    ;
}

impl Color {
    pub fn new(red: u8, green: u8, blue: u8) -> (c: Color)
        ensures
            c.r == red,
            c.g == green,
            c.b == blue,
    {
        Color { r: red, g: green, b: blue }
    }

    /// The color packed as RGB565, each channel rounded to the nearest level.
    pub fn rgb565(&self) -> (word: u16)
        ensures
            word == rgb565_of(self.r, self.g, self.b),
    {
        let r5 = scale_to(self.r, 31);
        let g6 = scale_to(self.g, 63);
        let b5 = scale_to(self.b, 31);
        assert((r5 << 11u16) | (g6 << 5u16) | b5 == r5 * 2048 + g6 * 32 + b5) by (bit_vector)
            requires
                r5 <= 31,
                g6 <= 63,
                b5 <= 31,
        ;
        (r5 << 11u16) | (g6 << 5u16) | b5
    }
}

/// `value` scaled from 0..=255 to 0..=`max`, rounded to the nearest integer.
fn scale_to(value: u8, max: u16) -> (scaled: u16)
    requires
        1 <= max <= 63,
    ensures
        scaled == scale_channel(value as int, max as int),
        scaled <= max,
{
    let v = value as u32;
    let m = max as u32;
    assert(2 * v * m + 255 <= 2 * 255 * 63 + 255) by (nonlinear_arith)
        requires
            v <= 255,
            m <= 63,
    ;
    let scaled = (2 * v * m + 255) / 510;
    assert(scaled <= m) by (nonlinear_arith)
        requires
            v <= 255,
            scaled == (2 * v * m + 255) / 510,
    ;
    scaled as u16
}

/// The value (0..=15) of a hexadecimal digit, either case.
pub fn hex_char_to_number(c: char) -> (n: u8)
    requires
        is_hex_char(c),
    ensures
        n == hex_value(c),
{
    match c {
        '0' => 0,
        '1' => 1,
        '2' => 2,
        '3' => 3,
        '4' => 4,
        '5' => 5,
        '6' => 6,
        '7' => 7,
        '8' => 8,
        '9' => 9,
        'A' | 'a' => 10,
        'B' | 'b' => 11,
        'C' | 'c' => 12,
        'D' | 'd' => 13,
        'E' | 'e' => 14,
        _ => 15,
    }
}

/// The byte written by two hexadecimal digits, high digit first.
pub fn hex_pair_to_number(high: char, low: char) -> (n: u8)
    requires
        is_hex_char(high),
        is_hex_char(low),
    ensures
        n == 16 * hex_value(high) + hex_value(low),
{
    let high_num = hex_char_to_number(high);
    let low_num = hex_char_to_number(low);
    assert(high_num << 4u8 == high_num * 16) by (bit_vector)
        requires
            high_num < 16,
    ;
    (high_num << 4u8) + low_num
}


/// The byte written by the two hex digits at `i` and `i + 1`.
pub open spec fn hex_byte_at(bytes: Seq<u8>, i: int) -> u8 {
    (16 * hex_value(bytes[i] as char) + hex_value(bytes[i + 1] as char)) as u8
}

/// What the color literal with these bytes denotes: `#RRGGBB`, hex digits of either case.
pub open spec fn parse_color_literal(bytes: Seq<u8>) -> Result<Color, ColorLiteralError> {
    if bytes.len() == 0 {
        Err(ColorLiteralError::MissingLiteral)
    } else if bytes[0] != 35 {
        Err(ColorLiteralError::MissingHash)
    } else if bytes.len() == 1 {
        Err(ColorLiteralError::MissingLiteral)
    } else if bytes.len() != 7 {
        Err(ColorLiteralError::WrongLength)
    } else if exists|i: int| 1 <= i < 7 && !is_hex_char(#[trigger] bytes[i] as char) {
        Err(ColorLiteralError::UnknownHexChar)
    } else {
        Ok(Color { r: hex_byte_at(bytes, 1), g: hex_byte_at(bytes, 3), b: hex_byte_at(bytes, 5) })
    }
}

/// The hexadecimal digits are `0`–`9`, `A`–`F` and `a`–`f`, worth 0–9, 10–15 and 10–15.
pub proof fn lemma_hex_digits(c: char)
    ensures
        is_hex_char(c) <==> (('0' as int) <= (c as int) <= ('9' as int) || ('A' as int) <= (c as int)
            <= ('F' as int) || ('a' as int) <= (c as int) <= ('f' as int)),
        ('0' as int) <= (c as int) <= ('9' as int) ==> hex_value(c) == (c as int) - ('0' as int),
        ('A' as int) <= (c as int) <= ('F' as int) ==> hex_value(c) == (c as int) - ('A' as int) + 10,
        ('a' as int) <= (c as int) <= ('f' as int) ==> hex_value(c) == (c as int) - ('a' as int) + 10,
{
}

/// A `#` followed by six hexadecimal digits of either case reads as the color whose red,
/// green and blue bytes are written by the first, second and third pair of digits, high
/// digit first.
pub proof fn lemma_color_literal_reads_hex_pairs(bytes: Seq<u8>)
    requires
        bytes.len() == 7,
        bytes[0] == ('#' as u8),
        forall|i: int|
            1 <= i < 7 ==> (('0' as int) <= #[trigger] bytes[i] <= ('9' as int) || ('A' as int)
                <= bytes[i] <= ('F' as int) || ('a' as int) <= bytes[i] <= ('f' as int)),
    ensures
        ({
            let digit = |b: u8|
                if b <= ('9' as u8) {
                    b - ('0' as int)
                } else if b <= ('F' as u8) {
                    b - ('A' as int) + 10
                } else {
                    b - ('a' as int) + 10
                };
            parse_color_literal(bytes) == Ok::<Color, ColorLiteralError>(
                Color {
                    r: (16 * digit(bytes[1]) + digit(bytes[2])) as u8,
                    g: (16 * digit(bytes[3]) + digit(bytes[4])) as u8,
                    b: (16 * digit(bytes[5]) + digit(bytes[6])) as u8,
                },
            )
        }),
{
    assert(forall|i: int| 1 <= i < 7 ==> is_hex_char(#[trigger] bytes[i] as char));
}

/// A color literal is refused for the first thing wrong with it: nothing at all, no `#` in
/// front, nothing after the `#`, not six characters after the `#`, or a character among
/// them that is not a hexadecimal digit of either case.
pub proof fn lemma_color_literal_errors(bytes: Seq<u8>)
    ensures
        bytes.len() == 0 ==> parse_color_literal(bytes) == Err::<Color, ColorLiteralError>(
            ColorLiteralError::MissingLiteral,
        ),
        bytes.len() > 0 && bytes[0] != ('#' as u8) ==> parse_color_literal(bytes) == Err::<
            Color,
            ColorLiteralError,
        >(ColorLiteralError::MissingHash),
        bytes.len() == 1 && bytes[0] == ('#' as u8) ==> parse_color_literal(bytes) == Err::<
            Color,
            ColorLiteralError,
        >(ColorLiteralError::MissingLiteral),
        bytes.len() > 1 && bytes.len() != 7 && bytes[0] == ('#' as u8) ==> parse_color_literal(bytes)
            == Err::<Color, ColorLiteralError>(ColorLiteralError::WrongLength),
        (bytes.len() == 7 && bytes[0] == ('#' as u8) && exists|i: int|
            1 <= i < 7 && !(('0' as int) <= #[trigger] bytes[i] <= ('9' as int) || ('A' as int)
                <= bytes[i] <= ('F' as int) || ('a' as int) <= bytes[i] <= ('f' as int)))
            ==> parse_color_literal(bytes) == Err::<Color, ColorLiteralError>(
            ColorLiteralError::UnknownHexChar,
        ),
{
    if bytes.len() == 7 && bytes[0] == ('#' as u8) && exists|i: int|
        1 <= i < 7 && !(('0' as int) <= #[trigger] bytes[i] <= ('9' as int) || ('A' as int)
            <= bytes[i] <= ('F' as int) || ('a' as int) <= bytes[i] <= ('f' as int)) {
        let i = choose|i: int|
            1 <= i < 7 && !(('0' as int) <= #[trigger] bytes[i] <= ('9' as int) || ('A' as int)
                <= bytes[i] <= ('F' as int) || ('a' as int) <= bytes[i] <= ('f' as int));
        assert(!is_hex_char(bytes[i] as char));
    }
}

/// Reads a color literal such as `#FF6B6B`: a `#` followed by exactly six hex digits,
/// two for each of red, green and blue.
/// `color(text).rgb565()` is the panel's RGB565 word for it.
pub fn color(text: &str) -> (res: Result<Color, ColorLiteralError>)
    ensures
        res == parse_color_literal(text.spec_bytes()),
{
    let bytes = text.as_bytes();
    if bytes.len() == 0 {
        return Err(ColorLiteralError::MissingLiteral);
    }
    if bytes[0] != 35u8 {
        return Err(ColorLiteralError::MissingHash);
    }
    if bytes.len() == 1 {
        return Err(ColorLiteralError::MissingLiteral);
    }
    if bytes.len() != 7 {
        return Err(ColorLiteralError::WrongLength);
    }
    let mut i: usize = 1;
    while i < 7
        invariant
            1 <= i <= 7,
            bytes@ == text.spec_bytes(),
            bytes@.len() == 7,
            bytes@[0] == 35,
            forall|j: int| 1 <= j < i ==> is_hex_char(#[trigger] bytes@[j] as char),
        decreases 7 - i,
    {
        if !is_hex_byte(bytes[i]) {
            assert(!is_hex_char(bytes@[i as int] as char));
            return Err(ColorLiteralError::UnknownHexChar);
        }
        i = i + 1;
    }
    let r = hex_pair_to_number(bytes[1] as char, bytes[2] as char);
    let g = hex_pair_to_number(bytes[3] as char, bytes[4] as char);
    let b = hex_pair_to_number(bytes[5] as char, bytes[6] as char);
    Ok(Color::new(r, g, b))
}

/// `count` copies of `color`.
pub fn repeat_color(color: Color, count: usize) -> (colors: Vec<Color>)
    ensures
        colors@ == Seq::new(count as nat, |i: int| color),
{
    let mut colors: Vec<Color> = Vec::new();
    let mut i: usize = 0;
    while i < count
        invariant
            i <= count,
            colors@ == Seq::new(i as nat, |j: int| color),
        decreases count - i,
    {
        colors.push(color);
        i = i + 1;
    }
    colors
}

/// Whether the byte is an ASCII hexadecimal digit.
fn is_hex_byte(b: u8) -> (res: bool)
    ensures
        res == is_hex_char(b as char),
        res == (('0' as u8) <= b <= ('9' as u8) || ('A' as u8) <= b <= ('F' as u8) || ('a' as u8) <= b
            <= ('f' as u8)),
{
    (48 <= b && b <= 57) || (65 <= b && b <= 70) || (97 <= b && b <= 102)
}

} // verus!
