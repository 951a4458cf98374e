use vstd::prelude::*;
use vstd::string::*;

use crate::text::{byte_len, lemma_ascii_char_byte_len, lemma_byte_len_ge_len, lemma_encode_concat};

verus! {

/// A color given by its 8-bit sRGB channels.
#[derive(Debug, Clone, Copy, PartialEq, Eq, Structural)]
pub struct Rgba8 {
    pub red: u8,
    pub green: u8,
    pub blue: u8,
    pub alpha: u8,
}

impl Rgba8 {
    pub open spec fn spec_white() -> Rgba8 {
        Rgba8 { red: 255, green: 255, blue: 255, alpha: 255 }
    }

    /// Opaque white.
    pub fn white() -> (c: Rgba8)
        ensures
            c == Self::spec_white(),
    {
        Rgba8 { red: 255, green: 255, blue: 255, alpha: 255 }
    }
}

/// Why a hexadecimal color string was refused.
#[derive(Debug, Clone, Copy, PartialEq, Eq, Structural)]
pub enum HexColorError {
    /// The digits are not a hexadecimal number.
    Parse,
    /// The string does not have 3, 4, 6 or 8 digits.
    Length,
}

pub open spec fn is_hex_char(c: char) -> bool {
    ('0' <= c && c <= '9') || ('a' <= c && c <= 'f') || ('A' <= c && c <= 'F')
}

pub open spec fn hex_char_value(c: char) -> nat {
    if '0' <= c && c <= '9' {
        (c as nat - '0' as nat) as nat
    } else if 'a' <= c && c <= 'f' {
        (c as nat - 'a' as nat + 10) as nat
    } else {
        (c as nat - 'A' as nat + 10) as nat
    }
}

/// The number that a sequence of hexadecimal digits denotes.
pub open spec fn hex_value(d: Seq<char>) -> nat
    decreases d.len(),
{
    if d.len() == 0 {
        0
    } else {
        hex_value(d.drop_last()) * 16 + hex_char_value(d.last())
    }
}

pub open spec fn all_hex(d: Seq<char>) -> bool {
    forall|i: int| 0 <= i < d.len() ==> is_hex_char(#[trigger] d[i])
}

pub open spec fn pow16(n: nat) -> nat
    decreases n,
{
    if n == 0 {
        1
    } else {
        16 * pow16((n - 1) as nat)
    }
}

/// The channels that a color number written with `n` characters stands for: one hexadecimal
/// digit per channel (repeated) for 3 and 4 characters, two per channel for 6 and 8; without
/// an alpha digit the color is opaque.
pub open spec fn rgba_from_value(n: nat, v: nat) -> Rgba8 {
    if n == 3 {
        Rgba8 {
            red: (((v / 256) % 16) * 17) as u8,
            green: (((v / 16) % 16) * 17) as u8,
            blue: ((v % 16) * 17) as u8,
            alpha: 255,
        }
    } else if n == 4 {
        Rgba8 {
            red: (((v / 4096) % 16) * 17) as u8,
            green: (((v / 256) % 16) * 17) as u8,
            blue: (((v / 16) % 16) * 17) as u8,
            alpha: ((v % 16) * 17) as u8,
        }
    } else if n == 6 {
        Rgba8 {
            red: ((v / 65536) % 256) as u8,
            green: ((v / 256) % 256) as u8,
            blue: (v % 256) as u8,
            alpha: 255,
        }
    } else {
        Rgba8 {
            red: ((v / 16777216) % 256) as u8,
            green: ((v / 65536) % 256) as u8,
            blue: ((v / 256) % 256) as u8,
            alpha: (v % 256) as u8,
        }
    }
}

/// The color that a hexadecimal color string denotes: an optional leading `#`, then
/// `RGB`, `RGBA`, `RRGGBB` or `RRGGBBAA` (counted in bytes); the number may carry a leading `+`.
pub open spec fn spec_srgba_hex(s: Seq<char>) -> Result<Rgba8, HexColorError> {
    let h = if s.len() > 0 && s[0] == '#' {
        s.drop_first()
    } else {
        s
    };
    let n = byte_len(h);
    if !(n == 3 || n == 4 || n == 6 || n == 8) {
        Err(HexColorError::Length)
    } else {
        let d = if h.len() > 0 && h[0] == '+' {
            h.drop_first()
        } else {
            h
        };
        if d.len() > 0 && all_hex(d) {
            Ok(rgba_from_value(n, hex_value(d)))
        } else {
            Err(HexColorError::Parse)
        }
    }
}

proof fn lemma_hex_value_bound(d: Seq<char>)
    requires
        all_hex(d),
    ensures
        hex_value(d) < pow16(d.len()),
    decreases d.len(),
{
    if d.len() > 0 {
        let p = d.drop_last();
        assert(all_hex(p)) by {
            assert forall|i: int| 0 <= i < p.len() implies is_hex_char(#[trigger] p[i]) by {
                assert(p[i] == d[i]);
            }
        }
        lemma_hex_value_bound(p);
        assert(is_hex_char(d[d.len() - 1]));
        assert(hex_char_value(d.last()) < 16);
    }
}

fn hex_digit_value(c: char) -> (v: u32)
    requires
        is_hex_char(c),
    ensures
        v == hex_char_value(c),
        v < 16,
{
    if '0' <= c && c <= '9' {
        (c as u32) - ('0' as u32)
    } else if 'a' <= c && c <= 'f' {
        (c as u32) - ('a' as u32) + 10
    } else {
        (c as u32) - ('A' as u32) + 10
    }
}

fn is_hex_digit(c: char) -> (b: bool)
    ensures
        b == is_hex_char(c),
{
    ('0' <= c && c <= '9') || ('a' <= c && c <= 'f') || ('A' <= c && c <= 'F')
}

/// Parses a hexadecimal color string (`#RGB`, `#RGBA`, `#RRGGBB`, `#RRGGBBAA`, the `#` optional).
pub fn srgba_hex(hex: &str) -> (r: Result<Rgba8, HexColorError>)
    ensures
        r == spec_srgba_hex(hex@),
{
    let chars = crate::text::str_chars(hex);
    let ghost s = hex@;
    let total = hex.as_bytes().len();
    proof {
        assert(hex.spec_bytes() == vstd::utf8::encode_utf8(s));
        assert(total == byte_len(s));
    }
    let mut start: usize = 0;
    let mut n: usize = total;
    if chars.len() > 0 && chars[0] == '#' {
        proof {
            lemma_encode_concat(seq![s[0]], s.drop_first());
            assert(seq![s[0]] + s.drop_first() =~= s);
            lemma_ascii_char_byte_len(s[0]);
        }
        start = 1;
        n = total - 1;
    }
    let ghost h = s.skip(start as int);
    proof {
        if start == 1 {
            assert(h =~= s.drop_first());
        } else {
            assert(h =~= s);
        }
        assert(n == byte_len(h));
    }
    if !(n == 3 || n == 4 || n == 6 || n == 8) {
        return Err(HexColorError::Length);
    }
    let mut dstart = start;
    if start < chars.len() && chars[start] == '+' {
        dstart = start + 1;
    }
    let ghost d = s.skip(dstart as int);
    proof {
        if start < chars.len() {
            assert(h[0] == s[start as int]);
        }
        assert((h.len() > 0 && h[0] == '+') <==> dstart > start);
        if dstart > start {
            assert(d =~= h.drop_first());
        } else {
            assert(d =~= h);
        }
        lemma_byte_len_ge_len(h);
    }
    if dstart >= chars.len() {
        proof {
            assert(d.len() == 0);
        }
        return Err(HexColorError::Parse);
    }
    proof {
        assert(d.len() > 0);
    }
    let mut v: u32 = 0;
    let mut k: usize = dstart;
    while k < chars.len()
        invariant
            s == hex@,
            chars@ == s,
            start <= dstart < chars.len(),
            dstart <= k <= chars.len(),
            d == s.skip(dstart as int),
            h == s.skip(start as int),
            h.len() <= 8,
            d.len() <= h.len(),
            spec_srgba_hex(s) == (if d.len() > 0 && all_hex(d) {
                Ok(rgba_from_value(n as nat, hex_value(d)))
            } else {
                Err(HexColorError::Parse)
            }),
            all_hex(s.subrange(dstart as int, k as int)),
            v as nat == hex_value(s.subrange(dstart as int, k as int)),
            (v as nat) < pow16((k - dstart) as nat),
        decreases chars.len() - k,
    {
        let c = chars[k];
        if !is_hex_digit(c) {
            proof {
                assert(d[k - dstart] == c);
                assert(!is_hex_char(d[k - dstart]));
                assert(!all_hex(d));
            }
            return Err(HexColorError::Parse);
        }
        let dv = hex_digit_value(c);
        proof {
            let prev = s.subrange(dstart as int, k as int);
            let next = s.subrange(dstart as int, k + 1);
            assert(next.drop_last() =~= prev);
            assert(next.last() == c);
            assert(all_hex(next)) by {
                assert forall|i: int| 0 <= i < next.len() implies is_hex_char(#[trigger] next[i]) by {
                    if i < prev.len() {
                        assert(next[i] == prev[i]);
                    }
                }
            }
            assert(k - dstart < 8);
            assert(pow16((k + 1 - dstart) as nat) == 16 * pow16((k - dstart) as nat));
            assert(pow16(8) == 0x1_0000_0000) by {
                reveal_with_fuel(pow16, 9);
            }
            lemma_pow16_mono((k + 1 - dstart) as nat, 8);
        }
        v = v * 16 + dv;
        k = k + 1;
    }
    proof {
        assert(s.subrange(dstart as int, chars.len() as int) =~= d);
    }
    let r = if n == 3 {
        Rgba8 {
            red: (((v / 256) % 16) * 17) as u8,
            green: (((v / 16) % 16) * 17) as u8,
            blue: ((v % 16) * 17) as u8,
            alpha: 255,
        }
    } else if n == 4 {
        Rgba8 {
            red: (((v / 4096) % 16) * 17) as u8,
            green: (((v / 256) % 16) * 17) as u8,
            blue: (((v / 16) % 16) * 17) as u8,
            alpha: ((v % 16) * 17) as u8,
        }
    } else if n == 6 {
        Rgba8 {
            red: ((v / 65536) % 256) as u8,
            green: ((v / 256) % 256) as u8,
            blue: (v % 256) as u8,
            alpha: 255,
        }
    } else {
        Rgba8 {
            red: ((v / 16777216) % 256) as u8,
            green: ((v / 65536) % 256) as u8,
            blue: ((v / 256) % 256) as u8,
            alpha: (v % 256) as u8,
        }
    };
    Ok(r)
}

proof fn lemma_pow16_mono(a: nat, b: nat)
    requires
        a <= b,
    ensures
        pow16(a) <= pow16(b),
    decreases b,
{
    if a < b {
        lemma_pow16_mono(a, (b - 1) as nat);
    }
}

} // verus!
