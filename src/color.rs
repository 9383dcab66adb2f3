//! Hex color strings and their 24-bit RGB values.

use vstd::prelude::*;
use vstd::string::*;

verus! {

/// The value of one hexadecimal digit, in either case.
pub open spec fn hex_digit_value(c: char) -> Option<nat> {
    if '0' <= c && c <= '9' {
        Some((c as nat - '0' as nat) as nat)
    } else if 'a' <= c && c <= 'f' {
        Some((c as nat - 'a' as nat + 10) as nat)
    } else if 'A' <= c && c <= 'F' {
        Some((c as nat - 'A' as nat + 10) as nat)
    } else {
        None
    }
}

/// A channel written as one shorthand digit `d`, which stands for `dd`.
pub open spec fn short_channel(c: char) -> Option<nat> {
    match hex_digit_value(c) {
        Some(d) => Some(d * 17),
        None => None,
    }
}

/// A channel written as two characters, read in base 16 the way
/// `u8::from_str_radix` reads them: two digits, or a plus sign and one digit.
pub open spec fn full_channel(c1: char, c2: char) -> Option<nat> {
    if c1 == '+' {
        hex_digit_value(c2)
    } else {
        match (hex_digit_value(c1), hex_digit_value(c2)) {
            (Some(hi), Some(lo)) => Some(hi * 16 + lo),
            _ => None,
        }
    }
}

/// Packs three channels into one value: red in bits 16 to 23, green in 8 to 15,
/// blue in 0 to 7.
pub open spec fn pack_rgb(r: Option<nat>, g: Option<nat>, b: Option<nat>) -> Option<u32> {
    match (r, g, b) {
        (Some(r), Some(g), Some(b)) => Some((r * 65536 + g * 256 + b) as u32),
        _ => None,
    }
}

/// What a hex triplet that starts with `#` denotes: `#RGB` or `#RRGGBB`, in any
/// case; anything else denotes no color.
pub open spec fn hex_rgb_value(s: Seq<char>) -> Option<u32> {
    if s.len() == 4 && s[0] == '#' {
        pack_rgb(short_channel(s[1]), short_channel(s[2]), short_channel(s[3]))
    } else if s.len() == 7 && s[0] == '#' {
        pack_rgb(full_channel(s[1], s[2]), full_channel(s[3], s[4]), full_channel(s[5], s[6]))
    } else {
        None
    }
}

/// User input without its leading `#`, if it has one.
pub open spec fn color_body(s: Seq<char>) -> Seq<char> {
    if s.len() > 0 && s[0] == '#' {
        s.drop_first()
    } else {
        s
    }
}

/// Every character is a hexadecimal digit.
pub open spec fn all_hex_digits(s: Seq<char>) -> bool {
    forall|i: int| 0 <= i < s.len() ==> (#[trigger] hex_digit_value(s[i])) is Some
}

/// The color that user input denotes: a hex triplet whose leading `#` may be
/// left out. Input with anything but hex digits after the `#` denotes no color.
pub open spec fn color_value(s: Seq<char>) -> Option<u32> {
    if all_hex_digits(color_body(s)) {
        hex_rgb_value(seq!['#'] + color_body(s))
    } else {
        None
    }
}

/// The upper-case hexadecimal digit for `d`.
pub open spec fn upper_hex_digit(d: nat) -> char {
    if d < 10 {
        (('0' as nat) + d) as char
    } else {
        (('A' as nat) + d - 10) as char
    }
}

/// `#RRGGBB` in upper case for a 24-bit value.
pub open spec fn rgb_text(v: u32) -> Seq<char> {
    seq![
        '#',
        upper_hex_digit(((v as nat) / 1048576) % 16),
        upper_hex_digit(((v as nat) / 65536) % 16),
        upper_hex_digit(((v as nat) / 4096) % 16),
        upper_hex_digit(((v as nat) / 256) % 16),
        upper_hex_digit(((v as nat) / 16) % 16),
        upper_hex_digit((v as nat) % 16),
    ]
}

proof fn lemma_upper_digit_value(d: nat)
    requires
        d < 16,
    ensures
        hex_digit_value(upper_hex_digit(d)) == Some(d),
        upper_hex_digit(d) != '+',
{
}

proof fn lemma_channel_of_digits(c: nat)
    requires
        c < 256,
    ensures
        full_channel(upper_hex_digit(c / 16), upper_hex_digit(c % 16)) == Some(c),
{
    lemma_upper_digit_value(c / 16);
    lemma_upper_digit_value(c % 16);
}

/// Writing a 24-bit color as `#RRGGBB` and reading it back gives the same value.
pub proof fn lemma_hex_round_trip(v: u32)
    requires
        v <= 0xFF_FFFF,
    ensures
        color_value(rgb_text(v)) == Some(v),
{
    let n = v as nat;
    let r = n / 65536;
    let g = (n / 256) % 256;
    let b = n % 256;
    assert(r / 16 == (n / 1048576) % 16 && r % 16 == (n / 65536) % 16) by (nonlinear_arith)
        requires
            r == n / 65536,
            n < 16777216,
    ;
    assert(g / 16 == (n / 4096) % 16 && g % 16 == (n / 256) % 16) by (nonlinear_arith)
        requires
            g == (n / 256) % 256,
    ;
    assert(b / 16 == (n / 16) % 16) by (nonlinear_arith)
        requires
            b == n % 256,
    ;
    assert(b % 16 == n % 16) by (nonlinear_arith)
        requires
            b == n % 256,
    ;
    assert(r * 65536 + g * 256 + b == n) by (nonlinear_arith)
        requires
            r == n / 65536,
            g == (n / 256) % 256,
            b == n % 256,
            n < 16777216,
    ;
    assert(r < 256 && g < 256 && b < 256) by (nonlinear_arith)
        requires
            r == n / 65536,
            g == (n / 256) % 256,
            b == n % 256,
            n < 16777216,
    ;
    lemma_channel_of_digits(r);
    lemma_channel_of_digits(g);
    lemma_channel_of_digits(b);
    let t = rgb_text(v);
    assert(t[0] == '#');
    assert(color_body(t) =~= t.drop_first());
    assert(seq!['#'] + color_body(t) =~= t);
    lemma_upper_digit_value(r / 16);
    lemma_upper_digit_value(r % 16);
    lemma_upper_digit_value(g / 16);
    lemma_upper_digit_value(g % 16);
    lemma_upper_digit_value(b / 16);
    lemma_upper_digit_value(b % 16);
    assert(all_hex_digits(color_body(t)));
}

/// Only ASCII text denotes a color.
proof fn lemma_color_is_ascii(s: Seq<char>)
    ensures
        color_value(s) is Some ==> vstd::utf8::is_ascii_chars(s),
{
    let b = color_body(s);
    if color_value(s) is Some {
        assert forall|i: int| 0 <= i < s.len() implies '\0' <= #[trigger] s[i] <= '\u{7f}' by {
            if s[0] == '#' && i > 0 {
                assert(s[i] == b[i - 1]);
                assert(hex_digit_value(b[i - 1]) is Some);
            } else if s[0] != '#' {
                assert(hex_digit_value(b[i]) is Some);
            }
        }
    }
}

/// Whether `c` is a hexadecimal digit.
fn is_hex_digit(c: char) -> (r: bool)
    ensures
        r == hex_digit_value(c) is Some,
{
    ('0' <= c && c <= '9') || ('a' <= c && c <= 'f') || ('A' <= c && c <= 'F')
}

/// Relies on `hex_color::HexColor::parse_rgb`, which reads `#RGB` and `#RRGGBB`
/// in either case and fails on everything else (each pair of `#RRGGBB` goes
/// through `u8::from_str_radix`, which also takes a plus sign before one digit),
/// and on `HexColor::to_u24`, which packs the channels as red, green, blue from
/// the high byte down.
#[verifier::external_body]
fn parse_hex_rgb(s: &str) -> (r: Option<u32>)
    requires
        is_ascii(s),
    ensures
        r == hex_rgb_value(s@),
{
    match hex_color::HexColor::parse_rgb(s) {
        Ok(c) => Some(c.to_u24()),
        Err(_) => None,
    }
}

/// Relies on `hex_color::HexColor::from_u24` and `display_rgb`, which writes
/// `#RRGGBB` with two upper-case digits per channel.
#[verifier::external_body]
fn display_hex_rgb(v: u32) -> (r: String)
    requires
        v <= 0xFF_FFFF,
    ensures
        r@ == rgb_text(v),
{
    hex_color::HexColor::from_u24(v).display_rgb().to_string()
}

/// Reads a user-supplied color: `#RRGGBB` or `#RGB`, in either case, where the
/// `#` may be left out. Malformed input gives `None`.
pub fn parse_color(input: &str) -> (r: Option<u32>)
    ensures
        r == color_value(input@),
{
    if !input.is_ascii() {
        proof {
            lemma_color_is_ascii(input@);
        }
        return None;
    }
    let len = input.unicode_len();
    let start: usize = if len > 0 && input.get_char(0) == '#' {
        1
    } else {
        0
    };
    let ghost body = color_body(input@);
    let mut i: usize = start;
    while i < len
        invariant
            len == input@.len(),
            start <= i <= len,
            body == color_body(input@),
            body == input@.subrange(start as int, len as int),
            forall|j: int| 0 <= j < i - start ==> (#[trigger] hex_digit_value(body[j])) is Some,
        decreases len - i,
    {
        if !is_hex_digit(input.get_char(i)) {
            assert(body[i - start] == input@[i as int]);
            assert(hex_digit_value(body[i - start]) is None);
            return None;
        }
        i = i + 1;
    }
    assert(all_hex_digits(body));
    if start == 1 {
        assert(input@ =~= seq!['#'] + body);
        parse_hex_rgb(input)
    } else {
        let prefixed = String::from_str("#").concat(input);
        proof {
            reveal_strlit("#");
            assert(prefixed@ =~= seq!['#'] + input@);
            assert(vstd::utf8::is_ascii_chars(prefixed@)) by {
                assert forall|i: int| 0 <= i < prefixed@.len() implies '\0' <= #[trigger] prefixed@[i]
                    <= '\u{7f}' by {
                    if i > 0 {
                        assert(prefixed@[i] == input@[i - 1]);
                    }
                }
            }
        }
        parse_hex_rgb(prefixed.as_str())
    }
}

/// Writes a 24-bit color as `#RRGGBB` in upper case.
pub fn to_hex_string(v: u32) -> (r: String)
    requires
        v <= 0xFF_FFFF,
    ensures
        r@ == rgb_text(v),
{
    display_hex_rgb(v)
}

} // verus!
