//! Colors written as `#rrggbb` hexadecimal text: 8-bit channels.
use vstd::prelude::*;
use vstd::string::StringSliceAdditionalSpecFns;

verus! {

/// Value of an ASCII hexadecimal digit, either case; -1 for other bytes.
pub open spec fn hex_digit(b: u8) -> int {
    if 48 <= b <= 57 {
        b - 48
    } else if 97 <= b <= 102 {
        b - 87
    } else if 65 <= b <= 70 {
        b - 55
    } else {
        -1
    }
}

/// A channel written with two bytes: two hexadecimal digits, or a plus sign
/// and one digit.
pub open spec fn channel_of(b0: u8, b1: u8) -> Option<u8> {
    if b0 == 43 && hex_digit(b1) >= 0 {
        Some(hex_digit(b1) as u8)
    } else if hex_digit(b0) >= 0 && hex_digit(b1) >= 0 {
        Some((16 * hex_digit(b0) + hex_digit(b1)) as u8)
    } else {
        None
    }
}

/// Number of `#` bytes in a row from index `i` on.
pub open spec fn hashes_from(s: Seq<u8>, i: int) -> int
    decreases s.len() - i,
{
    if 0 <= i < s.len() && s[i] == 35 {
        1 + hashes_from(s, i + 1)
    } else {
        0
    }
}

/// The color that a text spells: leading `#` bytes skipped, then three
/// channels of two bytes each; what follows them is not read.
pub open spec fn rgb_of_hex(s: Seq<u8>) -> Option<(u8, u8, u8)> {
    let k = hashes_from(s, 0);
    if s.len() < k + 6 {
        None
    } else {
        match (channel_of(s[k], s[k + 1]), channel_of(s[k + 2], s[k + 3]), channel_of(s[k + 4], s[k + 5])) {
            (Some(r), Some(g), Some(b)) => Some((r, g, b)),
            _ => None,
        }
    }
}

/// The lowercase hexadecimal digit of a value below 16.
pub open spec fn digit_byte(d: int) -> u8 {
    if d < 10 {
        (48 + d) as u8
    } else {
        (87 + d) as u8
    }
}

/// `#rrggbb` in lowercase digits.
pub open spec fn hex_of_rgb(r: u8, g: u8, b: u8) -> Seq<u8> {
    seq![
        35u8,
        digit_byte((r / 16) as int),
        digit_byte((r % 16) as int),
        digit_byte((g / 16) as int),
        digit_byte((g % 16) as int),
        digit_byte((b / 16) as int),
        digit_byte((b % 16) as int),
    ]
}

fn digit_value(b: u8) -> (r: Option<u8>)
    ensures
        r matches Some(v) ==> v == hex_digit(b) && v < 16,
        r is None <==> hex_digit(b) < 0,
{
    if 48 <= b && b <= 57 {
        Some(b - 48)
    } else if 97 <= b && b <= 102 {
        Some(b - 87)
    } else if 65 <= b && b <= 70 {
        Some(b - 55)
    } else {
        None
    }
}

fn channel(b0: u8, b1: u8) -> (r: Option<u8>)
    ensures
        r == channel_of(b0, b1),
{
    match (digit_value(b0), digit_value(b1)) {
        (_, None) => None,
        (None, Some(d1)) => if b0 == 43 {
            Some(d1)
        } else {
            None
        },
        (Some(d0), Some(d1)) => Some(16 * d0 + d1),
    }
}

/// The 8-bit channels spelled by a `#rrggbb` text, or `None` when the text
/// does not spell a color.
pub fn rgb_from_hex(hex: &str) -> (r: Option<(u8, u8, u8)>)
    ensures
        r == rgb_of_hex(hex.spec_bytes()),
{
    let s = hex.as_bytes();
    let ghost bytes = s@;
    let mut k: usize = 0;
    while k < s.len() && s[k] == 35
        invariant
            s@ == bytes,
            k <= s@.len(),
            hashes_from(bytes, 0) == k + hashes_from(bytes, k as int),
        decreases s.len() - k,
    {
        k = k + 1;
    }
    if s.len() - k < 6 {
        return None;
    }
    match (channel(s[k], s[k + 1]), channel(s[k + 2], s[k + 3]), channel(s[k + 4], s[k + 5])) {
        (Some(r), Some(g), Some(b)) => Some((r, g, b)),
        _ => None,
    }
}

fn digit_of(d: u8) -> (r: u8)
    requires
        d < 16,
    ensures
        r == digit_byte(d as int),
{
    if d < 10 {
        48 + d
    } else {
        87 + d
    }
}

/// `#rrggbb` text of three 8-bit channels, lowercase digits.
pub fn hex_from_rgb(r: u8, g: u8, b: u8) -> (s: Vec<u8>)
    ensures
        s@ == hex_of_rgb(r, g, b),
{
    let s = vec![
        35u8,
        digit_of(r / 16),
        digit_of(r % 16),
        digit_of(g / 16),
        digit_of(g % 16),
        digit_of(b / 16),
        digit_of(b % 16),
    ];
    assert(s@ =~= hex_of_rgb(r, g, b));
    s
}

proof fn lemma_digit_round_trip(d: int)
    requires
        0 <= d < 16,
    ensures
        hex_digit(digit_byte(d)) == d,
        digit_byte(d) != 35 && digit_byte(d) != 43,
{
}

/// Reading back the text written for a color gives that color.
pub proof fn lemma_hex_round_trip(r: u8, g: u8, b: u8)
    ensures
        rgb_of_hex(hex_of_rgb(r, g, b)) == Some((r, g, b)),
{
    let s = hex_of_rgb(r, g, b);
    lemma_digit_round_trip((r / 16) as int);
    lemma_digit_round_trip((r % 16) as int);
    lemma_digit_round_trip((g / 16) as int);
    lemma_digit_round_trip((g % 16) as int);
    lemma_digit_round_trip((b / 16) as int);
    lemma_digit_round_trip((b % 16) as int);
    assert(hashes_from(s, 1) == 0);
    assert(hashes_from(s, 0) == 1);
}

} // verus!
