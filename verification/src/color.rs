//! Deterministic color assignment: a stable hash of the label picks one of a
//! fixed palette of RGB triples, which is then quantized to a 256-color
//! terminal code; `colorize` wraps text in the matching escape sequence.

use crate::text::dec_rep;
use crate::text::u64_to_dec;
use vstd::prelude::*;

verus! {

/// The hexadecimal color of one palette entry, as `#RRGGBB`.
pub open spec fn spec_palette_hex(i: int) -> Seq<char> {
    if i == 0 {
        "#0000CC"@
    } else     if i == 1 {
        "#0000FF"@
    } else     if i == 2 {
        "#0033CC"@
    } else     if i == 3 {
        "#0033FF"@
    } else     if i == 4 {
        "#0066CC"@
    } else     if i == 5 {
        "#0066FF"@
    } else     if i == 6 {
        "#0099CC"@
    } else     if i == 7 {
        "#0099FF"@
    } else     if i == 8 {
        "#00CC00"@
    } else     if i == 9 {
        "#00CC33"@
    } else     if i == 10 {
        "#00CC66"@
    } else     if i == 11 {
        "#00CC99"@
    } else     if i == 12 {
        "#00CCCC"@
    } else     if i == 13 {
        "#00CCFF"@
    } else     if i == 14 {
        "#3300CC"@
    } else     if i == 15 {
        "#3300FF"@
    } else     if i == 16 {
        "#3333CC"@
    } else     if i == 17 {
        "#3333FF"@
    } else     if i == 18 {
        "#3366CC"@
    } else     if i == 19 {
        "#3366FF"@
    } else     if i == 20 {
        "#3399CC"@
    } else     if i == 21 {
        "#3399FF"@
    } else     if i == 22 {
        "#33CC00"@
    } else     if i == 23 {
        "#33CC33"@
    } else     if i == 24 {
        "#33CC66"@
    } else     if i == 25 {
        "#33CC99"@
    } else     if i == 26 {
        "#33CCCC"@
    } else     if i == 27 {
        "#33CCFF"@
    } else     if i == 28 {
        "#6600CC"@
    } else     if i == 29 {
        "#6600FF"@
    } else     if i == 30 {
        "#6633CC"@
    } else     if i == 31 {
        "#6633FF"@
    } else     if i == 32 {
        "#66CC00"@
    } else     if i == 33 {
        "#66CC33"@
    } else     if i == 34 {
        "#9900CC"@
    } else     if i == 35 {
        "#9900FF"@
    } else     if i == 36 {
        "#9933CC"@
    } else     if i == 37 {
        "#9933FF"@
    } else     if i == 38 {
        "#99CC00"@
    } else     if i == 39 {
        "#99CC33"@
    } else     if i == 40 {
        "#CC0000"@
    } else     if i == 41 {
        "#CC0033"@
    } else     if i == 42 {
        "#CC0066"@
    } else     if i == 43 {
        "#CC0099"@
    } else     if i == 44 {
        "#CC00CC"@
    } else     if i == 45 {
        "#CC00FF"@
    } else     if i == 46 {
        "#CC3300"@
    } else     if i == 47 {
        "#CC3333"@
    } else     if i == 48 {
        "#CC3366"@
    } else     if i == 49 {
        "#CC3399"@
    } else     if i == 50 {
        "#CC33CC"@
    } else     if i == 51 {
        "#CC33FF"@
    } else     if i == 52 {
        "#CC6600"@
    } else     if i == 53 {
        "#CC6633"@
    } else     if i == 54 {
        "#CC9900"@
    } else     if i == 55 {
        "#CC9933"@
    } else     if i == 56 {
        "#CCCC00"@
    } else     if i == 57 {
        "#CCCC33"@
    } else     if i == 58 {
        "#FF0000"@
    } else     if i == 59 {
        "#FF0033"@
    } else     if i == 60 {
        "#FF0066"@
    } else     if i == 61 {
        "#FF0099"@
    } else     if i == 62 {
        "#FF00CC"@
    } else     if i == 63 {
        "#FF00FF"@
    } else     if i == 64 {
        "#FF3300"@
    } else     if i == 65 {
        "#FF3333"@
    } else     if i == 66 {
        "#FF3366"@
    } else     if i == 67 {
        "#FF3399"@
    } else     if i == 68 {
        "#FF33CC"@
    } else     if i == 69 {
        "#FF33FF"@
    } else     if i == 70 {
        "#FF6600"@
    } else     if i == 71 {
        "#FF6633"@
    } else     if i == 72 {
        "#FF9900"@
    } else     if i == 73 {
        "#FF9933"@
    } else     if i == 74 {
        "#FFCC00"@
    } else {
        "#FFCC33"@
    }
}

/// One entry of the fixed palette of saturated reference colors.
pub fn palette_hex(i: usize) -> (r: &'static str)
    requires
        i < 76,
    ensures
        r@ == spec_palette_hex(i as int),
{
    if i == 0 {
        "#0000CC"
    } else     if i == 1 {
        "#0000FF"
    } else     if i == 2 {
        "#0033CC"
    } else     if i == 3 {
        "#0033FF"
    } else     if i == 4 {
        "#0066CC"
    } else     if i == 5 {
        "#0066FF"
    } else     if i == 6 {
        "#0099CC"
    } else     if i == 7 {
        "#0099FF"
    } else     if i == 8 {
        "#00CC00"
    } else     if i == 9 {
        "#00CC33"
    } else     if i == 10 {
        "#00CC66"
    } else     if i == 11 {
        "#00CC99"
    } else     if i == 12 {
        "#00CCCC"
    } else     if i == 13 {
        "#00CCFF"
    } else     if i == 14 {
        "#3300CC"
    } else     if i == 15 {
        "#3300FF"
    } else     if i == 16 {
        "#3333CC"
    } else     if i == 17 {
        "#3333FF"
    } else     if i == 18 {
        "#3366CC"
    } else     if i == 19 {
        "#3366FF"
    } else     if i == 20 {
        "#3399CC"
    } else     if i == 21 {
        "#3399FF"
    } else     if i == 22 {
        "#33CC00"
    } else     if i == 23 {
        "#33CC33"
    } else     if i == 24 {
        "#33CC66"
    } else     if i == 25 {
        "#33CC99"
    } else     if i == 26 {
        "#33CCCC"
    } else     if i == 27 {
        "#33CCFF"
    } else     if i == 28 {
        "#6600CC"
    } else     if i == 29 {
        "#6600FF"
    } else     if i == 30 {
        "#6633CC"
    } else     if i == 31 {
        "#6633FF"
    } else     if i == 32 {
        "#66CC00"
    } else     if i == 33 {
        "#66CC33"
    } else     if i == 34 {
        "#9900CC"
    } else     if i == 35 {
        "#9900FF"
    } else     if i == 36 {
        "#9933CC"
    } else     if i == 37 {
        "#9933FF"
    } else     if i == 38 {
        "#99CC00"
    } else     if i == 39 {
        "#99CC33"
    } else     if i == 40 {
        "#CC0000"
    } else     if i == 41 {
        "#CC0033"
    } else     if i == 42 {
        "#CC0066"
    } else     if i == 43 {
        "#CC0099"
    } else     if i == 44 {
        "#CC00CC"
    } else     if i == 45 {
        "#CC00FF"
    } else     if i == 46 {
        "#CC3300"
    } else     if i == 47 {
        "#CC3333"
    } else     if i == 48 {
        "#CC3366"
    } else     if i == 49 {
        "#CC3399"
    } else     if i == 50 {
        "#CC33CC"
    } else     if i == 51 {
        "#CC33FF"
    } else     if i == 52 {
        "#CC6600"
    } else     if i == 53 {
        "#CC6633"
    } else     if i == 54 {
        "#CC9900"
    } else     if i == 55 {
        "#CC9933"
    } else     if i == 56 {
        "#CCCC00"
    } else     if i == 57 {
        "#CCCC33"
    } else     if i == 58 {
        "#FF0000"
    } else     if i == 59 {
        "#FF0033"
    } else     if i == 60 {
        "#FF0066"
    } else     if i == 61 {
        "#FF0099"
    } else     if i == 62 {
        "#FF00CC"
    } else     if i == 63 {
        "#FF00FF"
    } else     if i == 64 {
        "#FF3300"
    } else     if i == 65 {
        "#FF3333"
    } else     if i == 66 {
        "#FF3366"
    } else     if i == 67 {
        "#FF3399"
    } else     if i == 68 {
        "#FF33CC"
    } else     if i == 69 {
        "#FF33FF"
    } else     if i == 70 {
        "#FF6600"
    } else     if i == 71 {
        "#FF6633"
    } else     if i == 72 {
        "#FF9900"
    } else     if i == 73 {
        "#FF9933"
    } else     if i == 74 {
        "#FFCC00"
    } else {
        "#FFCC33"
    }
}

/// The offset basis of the 64-bit FNV-1a hash.
pub open spec fn fnv_offset_basis() -> u64 {
    0xcbf2_9ce4_8422_2325u64
}

/// One step of the 64-bit FNV-1a hash: fold one character into the state.
pub open spec fn fnv1a_step(h: u64, c: char) -> u64 {
    vstd::wrapping::u64_specs::wrapping_mul(h ^ (c as u64), 0x0000_0100_0000_01b3u64)
}

/// The 64-bit FNV-1a hash of a character sequence: a stable,
/// non-cryptographic hash, the same in every process and run.
pub open spec fn fnv1a(s: Seq<char>) -> u64
    decreases s.len(),
{
    if s.len() == 0 {
        fnv_offset_basis()
    } else {
        fnv1a_step(fnv1a(s.drop_last()), s.last())
    }
}

/// Computes the 64-bit FNV-1a hash of the string's characters.
pub fn fnv1a_hash(s: &str) -> (h: u64)
    ensures
        h == fnv1a(s@),
{
    let n = s.unicode_len();
    let mut h: u64 = 0xcbf2_9ce4_8422_2325;
    let mut i: usize = 0;
    proof {
        assert(s@.take(0) =~= Seq::<char>::empty());
    }
    while i < n
        invariant
            0 <= i <= n,
            n == s@.len(),
            h == fnv1a(s@.take(i as int)),
        decreases n - i,
    {
        let c = s.get_char(i);
        h = (h ^ (c as u64)).wrapping_mul(0x0000_0100_0000_01b3);
        proof {
            assert(s@.take(i + 1).drop_last() =~= s@.take(i as int));
            assert(s@.take(i + 1).last() == s@[i as int]);
        }
        i = i + 1;
    }
    proof {
        assert(s@.take(n as int) =~= s@);
    }
    h
}

/// The value of a hexadecimal digit character, or -1 when it is none.
pub open spec fn hex_val(c: char) -> int {
    let u = c as int;
    if 48 <= u <= 57 {
        u - 48
    } else if 97 <= u <= 102 {
        u - 97 + 10
    } else if 65 <= u <= 70 {
        u - 65 + 10
    } else {
        -1
    }
}

/// The value of a hexadecimal digit character, if it is one.
fn hex_digit(c: char) -> (r: Option<u8>)
    ensures
        r is Some <==> hex_val(c) >= 0,
        r is Some ==> r->0 == hex_val(c),
{
    let u = c as u32;
    if 48 <= u && u <= 57 {
        Some((u - 48) as u8)
    } else if 97 <= u && u <= 102 {
        Some((u - 97 + 10) as u8)
    } else if 65 <= u && u <= 70 {
        Some((u - 65 + 10) as u8)
    } else {
        None
    }
}

/// The sequence without its leading `#` markers.
pub open spec fn strip_hashes(s: Seq<char>) -> Seq<char>
    decreases s.len(),
{
    if s.len() > 0 && s[0] == '#' {
        strip_hashes(s.skip(1))
    } else {
        s
    }
}

fn strip_hash_prefix<'a>(s: &'a str) -> (t: &'a str)
    ensures
        t@ == strip_hashes(s@),
    decreases s@.len(),
{
    let n = s.unicode_len();
    if n > 0 && s.get_char(0) == '#' {
        let rest = s.substring_char(1, n);
        proof {
            assert(rest@ =~= s@.skip(1));
        }
        strip_hash_prefix(rest)
    } else {
        s
    }
}

/// Which band of the 6x6x6 terminal color cube a channel value falls in.
pub open spec fn spec_scale_to_ansi(v: u8) -> u8 {
    if v <= 47 {
        0
    } else if v <= 114 {
        1
    } else if v <= 154 {
        2
    } else if v <= 194 {
        3
    } else if v <= 234 {
        4
    } else {
        5
    }
}

/// Buckets one color channel into the six bands of the terminal color cube.
pub fn scale_to_ansi(value: u8) -> (r: u8)
    ensures
        r == spec_scale_to_ansi(value),
{
    if value <= 47 {
        0
    } else if value <= 114 {
        1
    } else if value <= 154 {
        2
    } else if value <= 194 {
        3
    } else if value <= 234 {
        4
    } else {
        5
    }
}

/// The nearest 256-color terminal code for an RGB triple: the grayscale ramp
/// when the channels are equal, else a cell of the 6x6x6 color cube.
pub open spec fn spec_rgb_to_ansi256(r: u8, g: u8, b: u8) -> u8 {
    if r == g && g == b {
        if r < 8 {
            16
        } else if r > 248 {
            231
        } else {
            (232 + (r - 8) * 24 / 247) as u8
        }
    } else {
        (16 + 36 * spec_scale_to_ansi(r) + 6 * spec_scale_to_ansi(g) + spec_scale_to_ansi(b)) as u8
    }
}

/// Quantizes an RGB triple to a 256-color terminal code.
pub fn rgb_to_ansi256(r: u8, g: u8, b: u8) -> (code: u8)
    ensures
        code == spec_rgb_to_ansi256(r, g, b),
{
    if r == g && g == b {
        if r < 8 {
            return 16;
        }
        if r > 248 {
            return 231;
        }
        return 232 + (((r as u16 - 8) * 24 / 247) as u8);
    }
    let rs = scale_to_ansi(r);
    let gs = scale_to_ansi(g);
    let bs = scale_to_ansi(b);
    16 + 36 * rs + 6 * gs + bs
}

/// The terminal color code encoded by a `#RRGGBB` string, if it parses.
pub open spec fn spec_ansi_from_hex(s: Seq<char>) -> Option<u8> {
    let h = strip_hashes(s);
    if h.len() >= 6 && hex_val(h[0]) >= 0 && hex_val(h[1]) >= 0 && hex_val(h[2]) >= 0 && hex_val(
        h[3],
    ) >= 0 && hex_val(h[4]) >= 0 && hex_val(h[5]) >= 0 {
        Some(
            spec_rgb_to_ansi256(
                (hex_val(h[0]) * 16 + hex_val(h[1])) as u8,
                (hex_val(h[2]) * 16 + hex_val(h[3])) as u8,
                (hex_val(h[4]) * 16 + hex_val(h[5])) as u8,
            ),
        )
    } else {
        None
    }
}

/// Parses a `#RRGGBB` color and quantizes it to a terminal color code.
pub fn ansi_256_from_hex(hex: &str) -> (r: Option<u8>)
    ensures
        r == spec_ansi_from_hex(hex@),
{
    let h = strip_hash_prefix(hex);
    let n = h.unicode_len();
    if n < 6 {
        return None;
    }
    let d0 = hex_digit(h.get_char(0));
    let d1 = hex_digit(h.get_char(1));
    let d2 = hex_digit(h.get_char(2));
    let d3 = hex_digit(h.get_char(3));
    let d4 = hex_digit(h.get_char(4));
    let d5 = hex_digit(h.get_char(5));
    match (d0, d1, d2, d3, d4, d5) {
        (Some(v0), Some(v1), Some(v2), Some(v3), Some(v4), Some(v5)) => {
            let red = v0 * 16 + v1;
            let green = v2 * 16 + v3;
            let blue = v4 * 16 + v5;
            Some(rgb_to_ansi256(red, green, blue))
        },
        _ => None,
    }
}

/// The fallback terminal color code used when a palette entry fails to parse.
pub open spec fn fallback_color() -> u8 {
    123u8
}

/// The display color of a label: its stable hash picks a palette entry, which
/// is quantized to a terminal color code. A pure function of the label alone.
pub open spec fn spec_color_for(label: Seq<char>) -> u8 {
    let idx = fnv1a(label) % 76;
    match spec_ansi_from_hex(spec_palette_hex(idx as int)) {
        Some(c) => c,
        None => fallback_color(),
    }
}

/// Derives the display color of a label. Identical labels always yield the
/// identical code, in every call, run and process.
pub fn xterm_color_index_for_string(input: &str) -> (c: u8)
    ensures
        c == spec_color_for(input@),
{
    let h = fnv1a_hash(input);
    let idx = h % 76;
    let hex = palette_hex(idx as usize);
    match ansi_256_from_hex(hex) {
        Some(c) => c,
        None => 123,
    }
}

/// The text wrapped in the escape sequence that selects a bold foreground
/// color and resets styling after it.
pub open spec fn spec_colorize(color: u8, text: Seq<char>) -> Seq<char> {
    "\u{1b}[1;38;5;"@ + dec_rep(color as nat) + "m"@ + text + "\u{1b}[0m"@
}

/// Wraps the text in the terminal escape sequence for the given color.
pub fn colorize(color: u8, prefix: &str) -> (r: String)
    ensures
        r@ == spec_colorize(color, prefix@),
{
    let mut s = String::from_str("\u{1b}[1;38;5;");
    let num = u64_to_dec(color as u64);
    s.append(num.as_str());
    s.append("m");
    s.append(prefix);
    s.append("\u{1b}[0m");
    proof {
        assert(s@ =~= spec_colorize(color, prefix@));
    }
    s
}

} // verus!
