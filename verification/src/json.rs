//! A verified decoder for the JSON answer of the places nearby-search
//! endpoint.
//!
//! The expected shape is an object holding a required `results` array; each
//! element is an object with required `name` and `vicinity` strings, a
//! required `geometry.location` object with `lat` and `lng` numbers, and an
//! optional `opening_hours` object whose `open_now` boolean is required when
//! the object is present. Unknown fields anywhere are skipped; a duplicate of
//! a known field, a missing required field, or any ill-formed JSON is a
//! decode failure.
//!
//! Every parsing function is specified exactly: the executable code returns
//! precisely what the corresponding specification function denotes. String
//! escapes are decoded in full, including surrogate pairs; string content
//! must be well-formed UTF-8; number tokens are validated against the JSON
//! number grammar and kept as text; the nesting of skipped unknown values
//! is bounded, as the upstream decoder's recursion limit bounds it.
//!
//! Bytes are written as hexadecimal ASCII codes throughout; the doc comment
//! of each function names the characters it looks at.

use vstd::prelude::*;
use crate::model::{AppError, Place, PlaceView, place_views};
use crate::text::{copy_range, eq_bytes};

verus! {

// ---------------------------------------------------------------------------
// Whitespace and digits
// ---------------------------------------------------------------------------

/// A byte is JSON insignificant whitespace.
pub open spec fn is_json_ws(b: u8) -> bool {
    b == 0x20 || b == 0x09 || b == 0x0a || b == 0x0d
}

/// First position at or after `i` whose byte is not JSON whitespace.
pub open spec fn sp_ws(s: Seq<u8>, i: int) -> int
    decreases s.len() - i,
{
    if 0 <= i && i < s.len() && is_json_ws(s[i]) {
        sp_ws(s, i + 1)
    } else {
        i
    }
}

/// Advance past JSON whitespace, starting at `i`.
pub fn skip_ws(s: &Vec<u8>, i: usize) -> (r: usize)
    requires
        i <= s.len(),
    ensures
        r == sp_ws(s@, i as int),
        i <= r <= s.len(),
{
    let mut j = i;
    while j < s.len() && (s[j] == 0x20 || s[j] == 0x09 || s[j] == 0x0a || s[j] == 0x0d)
        invariant
            i <= j <= s.len(),
            sp_ws(s@, i as int) == sp_ws(s@, j as int),
        decreases s.len() - j,
    {
        j = j + 1;
    }
    j
}

/// A byte is a decimal digit.
pub open spec fn is_digit(b: u8) -> bool {
    0x30 <= b <= 0x39
}

/// End of the run of decimal digits starting at `i`.
pub open spec fn sp_digits(s: Seq<u8>, i: int) -> int
    decreases s.len() - i,
{
    if 0 <= i && i < s.len() && is_digit(s[i]) {
        sp_digits(s, i + 1)
    } else {
        i
    }
}

/// Advance past decimal digits, starting at `i`.
pub fn skip_digits(s: &Vec<u8>, i: usize) -> (r: usize)
    requires
        i <= s.len(),
    ensures
        r == sp_digits(s@, i as int),
        i <= r <= s.len(),
        i < s.len() && is_digit(s@[i as int]) ==> i < r,
{
    let mut j = i;
    while j < s.len() && 0x30 <= s[j] && s[j] <= 0x39
        invariant
            i <= j <= s.len(),
            sp_digits(s@, i as int) == sp_digits(s@, j as int),
        decreases s.len() - j,
    {
        j = j + 1;
    }
    j
}

// ---------------------------------------------------------------------------
// Number tokens
// ---------------------------------------------------------------------------

/// End of the optional exponent part of a number starting at `i`, if well
/// formed.
pub open spec fn sp_number_exp(s: Seq<u8>, i: int) -> Option<int> {
    if 0 <= i && i < s.len() && (s[i] == 0x65 || s[i] == 0x45) {
        let j = if i + 1 < s.len() && (s[i + 1] == 0x2b || s[i + 1] == 0x2d) {
            i + 2
        } else {
            i + 1
        };
        if j < s.len() && is_digit(s[j]) {
            Some(sp_digits(s, j))
        } else {
            None
        }
    } else {
        Some(i)
    }
}

/// End of the optional fraction and exponent parts of a number starting at
/// `i`, if well formed.
pub open spec fn sp_number_tail(s: Seq<u8>, i: int) -> Option<int> {
    if 0 <= i && i < s.len() && s[i] == 0x2e {
        if i + 1 < s.len() && is_digit(s[i + 1]) {
            sp_number_exp(s, sp_digits(s, i + 1))
        } else {
            None
        }
    } else {
        sp_number_exp(s, i)
    }
}

/// End of the JSON number token starting at `i`, if one starts there:
/// an optional minus sign, an integer part without leading zero, an optional
/// fraction, an optional exponent.
pub open spec fn sp_number(s: Seq<u8>, i: int) -> Option<int> {
    if i < 0 {
        None
    } else {
        let j = if i < s.len() && s[i] == 0x2d {
            i + 1
        } else {
            i
        };
        if j < s.len() && s[j] == 0x30 {
            sp_number_tail(s, j + 1)
        } else if j < s.len() && is_digit(s[j]) {
            sp_number_tail(s, sp_digits(s, j))
        } else {
            None
        }
    }
}

/// Fraction and exponent parts, mirroring `sp_number_tail`.
fn number_tail(s: &Vec<u8>, i: usize) -> (r: Option<usize>)
    requires
        i <= s.len(),
    ensures
        (r is Some) == (sp_number_tail(s@, i as int) is Some),
        r matches Some(j) ==> sp_number_tail(s@, i as int) == Some(j as int) && i <= j <= s.len(),
{
    let mut j = i;
    if j < s.len() && s[j] == 0x2e {
        if j + 1 < s.len() && 0x30 <= s[j + 1] && s[j + 1] <= 0x39 {
            j = skip_digits(s, j + 1);
        } else {
            return None;
        }
    }
    if j < s.len() && (s[j] == 0x65 || s[j] == 0x45) {
        let k = if j + 1 < s.len() && (s[j + 1] == 0x2b || s[j + 1] == 0x2d) {
            j + 2
        } else {
            j + 1
        };
        if k < s.len() && 0x30 <= s[k] && s[k] <= 0x39 {
            Some(skip_digits(s, k))
        } else {
            None
        }
    } else {
        Some(j)
    }
}

/// End of the JSON number token starting at `i`, mirroring `sp_number`.
pub fn parse_number(s: &Vec<u8>, i: usize) -> (r: Option<usize>)
    requires
        i <= s.len(),
    ensures
        (r is Some) == (sp_number(s@, i as int) is Some),
        r matches Some(j) ==> sp_number(s@, i as int) == Some(j as int) && i < j <= s.len(),
{
    let j = if i < s.len() && s[i] == 0x2d {
        i + 1
    } else {
        i
    };
    if j < s.len() && s[j] == 0x30 {
        number_tail(s, j + 1)
    } else if j < s.len() && 0x30 <= s[j] && s[j] <= 0x39 {
        number_tail(s, skip_digits(s, j))
    } else {
        None
    }
}

// ---------------------------------------------------------------------------
// String tokens
// ---------------------------------------------------------------------------

/// The escapes written as a single character after the backslash.
pub open spec fn is_simple_escape(e: u8) -> bool {
    e == 0x22 || e == 0x5c || e == 0x2f || e == 0x62 || e == 0x66 || e == 0x6e || e == 0x72 || e
        == 0x74
}

/// The byte denoted by a simple escape.
pub open spec fn escape_byte(e: u8) -> u8 {
    if e == 0x62 {
        0x08
    } else if e == 0x66 {
        0x0c
    } else if e == 0x6e {
        0x0a
    } else if e == 0x72 {
        0x0d
    } else if e == 0x74 {
        0x09
    } else {
        e
    }
}

/// Value of a hexadecimal digit byte, or -1.
pub open spec fn hex_val(b: u8) -> int {
    if 0x30 <= b <= 0x39 {
        b - 0x30
    } else if 0x41 <= b <= 0x46 {
        b - 0x41 + 10
    } else if 0x61 <= b <= 0x66 {
        b - 0x61 + 10
    } else {
        -1
    }
}

/// The byte is a hexadecimal digit.
pub open spec fn is_hex(b: u8) -> bool {
    hex_val(b) >= 0
}

/// Four hexadecimal digits stand at `i`.
pub open spec fn hex4_ok(s: Seq<u8>, i: int) -> bool {
    0 <= i && i + 4 <= s.len() && is_hex(s[i]) && is_hex(s[i + 1]) && is_hex(s[i + 2]) && is_hex(
        s[i + 3],
    )
}

/// Value of the four hexadecimal digits at `i`.
pub open spec fn hex4_val(s: Seq<u8>, i: int) -> int {
    hex_val(s[i]) * 0x1000 + hex_val(s[i + 1]) * 0x100 + hex_val(s[i + 2]) * 0x10 + hex_val(
        s[i + 3],
    )
}

/// UTF-8 encoding of a code point.
pub open spec fn utf8_encode(cp: int) -> Seq<u8> {
    if cp < 0x80 {
        seq![cp as u8]
    } else if cp < 0x800 {
        seq![(0xc0 + cp / 0x40) as u8, (0x80 + cp % 0x40) as u8]
    } else if cp < 0x10000 {
        seq![
            (0xe0 + cp / 0x1000) as u8,
            (0x80 + (cp / 0x40) % 0x40) as u8,
            (0x80 + cp % 0x40) as u8,
        ]
    } else {
        seq![
            (0xf0 + cp / 0x40000) as u8,
            (0x80 + (cp / 0x1000) % 0x40) as u8,
            (0x80 + (cp / 0x40) % 0x40) as u8,
            (0x80 + cp % 0x40) as u8,
        ]
    }
}


/// A UTF-8 continuation byte.
pub open spec fn is_utf8_cont(b: u8) -> bool {
    0x80 <= b <= 0xbf
}

/// Length of the well-formed multi-byte UTF-8 sequence starting at `i`, or
/// zero: the shortest-form encodings of U+0080 through U+10FFFF without
/// the surrogate range, as the upstream decoder accepts them.
pub open spec fn sp_utf8_len_at(s: Seq<u8>, i: int) -> int {
    if i < 0 || i >= s.len() {
        0
    } else {
        let b = s[i];
        if 0xc2 <= b <= 0xdf {
            if i + 2 <= s.len() && is_utf8_cont(s[i + 1]) {
                2
            } else {
                0
            }
        } else if b == 0xe0 {
            if i + 3 <= s.len() && 0xa0 <= s[i + 1] <= 0xbf && is_utf8_cont(s[i + 2]) {
                3
            } else {
                0
            }
        } else if 0xe1 <= b <= 0xec || b == 0xee || b == 0xef {
            if i + 3 <= s.len() && is_utf8_cont(s[i + 1]) && is_utf8_cont(s[i + 2]) {
                3
            } else {
                0
            }
        } else if b == 0xed {
            if i + 3 <= s.len() && 0x80 <= s[i + 1] <= 0x9f && is_utf8_cont(s[i + 2]) {
                3
            } else {
                0
            }
        } else if b == 0xf0 {
            if i + 4 <= s.len() && 0x90 <= s[i + 1] <= 0xbf && is_utf8_cont(s[i + 2])
                && is_utf8_cont(s[i + 3]) {
                4
            } else {
                0
            }
        } else if 0xf1 <= b <= 0xf3 {
            if i + 4 <= s.len() && is_utf8_cont(s[i + 1]) && is_utf8_cont(s[i + 2])
                && is_utf8_cont(s[i + 3]) {
                4
            } else {
                0
            }
        } else if b == 0xf4 {
            if i + 4 <= s.len() && 0x80 <= s[i + 1] <= 0x8f && is_utf8_cont(s[i + 2])
                && is_utf8_cont(s[i + 3]) {
                4
            } else {
                0
            }
        } else {
            0
        }
    }
}

/// Decoded content and end position of the string token whose content starts
/// at `i` (the opening quote already consumed), with `acc` the content
/// decoded so far. Escapes are decoded; a surrogate pair must be complete;
/// an unescaped control byte or a byte sequence that is not well-formed
/// UTF-8 is an error.
pub open spec fn sp_string(s: Seq<u8>, i: int, acc: Seq<u8>) -> Option<(Seq<u8>, int)>
    decreases s.len() - i,
{
    if i < 0 || i >= s.len() {
        None
    } else if s[i] == 0x22 {
        Some((acc, i + 1))
    } else if s[i] == 0x5c {
        if i + 1 < s.len() {
            let e = s[i + 1];
            if is_simple_escape(e) {
                sp_string(s, i + 2, acc.push(escape_byte(e)))
            } else if e == 0x75 && hex4_ok(s, i + 2) {
                let cp = hex4_val(s, i + 2);
                if 0xd800 <= cp < 0xdc00 {
                    if i + 7 < s.len() && s[i + 6] == 0x5c && s[i + 7] == 0x75 && hex4_ok(
                        s,
                        i + 8,
                    ) {
                        let lo = hex4_val(s, i + 8);
                        if 0xdc00 <= lo < 0xe000 {
                            sp_string(
                                s,
                                i + 12,
                                acc + utf8_encode(0x10000 + (cp - 0xd800) * 0x400 + (lo - 0xdc00)),
                            )
                        } else {
                            None
                        }
                    } else {
                        None
                    }
                } else if 0xdc00 <= cp < 0xe000 {
                    None
                } else {
                    sp_string(s, i + 6, acc + utf8_encode(cp))
                }
            } else {
                None
            }
        } else {
            None
        }
    } else if s[i] < 0x20 {
        None
    } else if s[i] < 0x80 {
        sp_string(s, i + 1, acc.push(s[i]))
    } else {
        let d = sp_utf8_len_at(s, i);
        if d > 0 && i + d <= s.len() {
            sp_string(s, i + d, acc + s.subrange(i, i + d))
        } else {
            None
        }
    }
}

/// The byte is a hexadecimal digit.
fn is_hex_byte(b: u8) -> (r: bool)
    ensures
        r == is_hex(b),
{
    (0x30 <= b && b <= 0x39) || (0x41 <= b && b <= 0x46) || (0x61 <= b && b <= 0x66)
}

/// Value of a hexadecimal digit byte.
fn hex_value(b: u8) -> (r: u8)
    requires
        is_hex(b),
    ensures
        r as int == hex_val(b),
{
    if 0x30 <= b && b <= 0x39 {
        b - 0x30
    } else if 0x41 <= b && b <= 0x46 {
        b - 0x41 + 10
    } else {
        b - 0x61 + 10
    }
}

/// Length of the well-formed multi-byte UTF-8 sequence starting at `i`,
/// mirroring `sp_utf8_len_at`.
fn utf8_len_at(s: &Vec<u8>, i: usize) -> (d: usize)
    requires
        i <= s.len(),
    ensures
        d as int == sp_utf8_len_at(s@, i as int),
        d > 0 ==> i + d <= s.len(),
{
    if i >= s.len() {
        return 0;
    }
    let b = s[i];
    if 0xc2 <= b && b <= 0xdf {
        if s.len() - i >= 2 && 0x80 <= s[i + 1] && s[i + 1] <= 0xbf {
            2
        } else {
            0
        }
    } else if b == 0xe0 {
        if s.len() - i >= 3 && 0xa0 <= s[i + 1] && s[i + 1] <= 0xbf && 0x80 <= s[i + 2] && s[i + 2]
            <= 0xbf {
            3
        } else {
            0
        }
    } else if (0xe1 <= b && b <= 0xec) || b == 0xee || b == 0xef {
        if s.len() - i >= 3 && 0x80 <= s[i + 1] && s[i + 1] <= 0xbf && 0x80 <= s[i + 2] && s[i + 2]
            <= 0xbf {
            3
        } else {
            0
        }
    } else if b == 0xed {
        if s.len() - i >= 3 && 0x80 <= s[i + 1] && s[i + 1] <= 0x9f && 0x80 <= s[i + 2] && s[i + 2]
            <= 0xbf {
            3
        } else {
            0
        }
    } else if b == 0xf0 {
        if s.len() - i >= 4 && 0x90 <= s[i + 1] && s[i + 1] <= 0xbf && 0x80 <= s[i + 2] && s[i + 2]
            <= 0xbf && 0x80 <= s[i + 3] && s[i + 3] <= 0xbf {
            4
        } else {
            0
        }
    } else if 0xf1 <= b && b <= 0xf3 {
        if s.len() - i >= 4 && 0x80 <= s[i + 1] && s[i + 1] <= 0xbf && 0x80 <= s[i + 2] && s[i + 2]
            <= 0xbf && 0x80 <= s[i + 3] && s[i + 3] <= 0xbf {
            4
        } else {
            0
        }
    } else if b == 0xf4 {
        if s.len() - i >= 4 && 0x80 <= s[i + 1] && s[i + 1] <= 0x8f && 0x80 <= s[i + 2] && s[i + 2]
            <= 0xbf && 0x80 <= s[i + 3] && s[i + 3] <= 0xbf {
            4
        } else {
            0
        }
    } else {
        0
    }
}

/// Append the UTF-8 encoding of `cp` to `acc`.
fn push_utf8(acc: &mut Vec<u8>, cp: u32)
    requires
        cp < 0x110000,
    ensures
        final(acc)@ == old(acc)@ + utf8_encode(cp as int),
{
    if cp < 0x80 {
        acc.push(cp as u8);
        proof {
            assert(acc@ =~= old(acc)@ + utf8_encode(cp as int));
        }
    } else if cp < 0x800 {
        acc.push((0xc0 + cp / 0x40) as u8);
        acc.push((0x80 + cp % 0x40) as u8);
        proof {
            assert(acc@ =~= old(acc)@ + utf8_encode(cp as int));
        }
    } else if cp < 0x10000 {
        acc.push((0xe0 + cp / 0x1000) as u8);
        acc.push((0x80 + (cp / 0x40) % 0x40) as u8);
        acc.push((0x80 + cp % 0x40) as u8);
        proof {
            assert(acc@ =~= old(acc)@ + utf8_encode(cp as int));
        }
    } else {
        acc.push((0xf0 + cp / 0x40000) as u8);
        acc.push((0x80 + (cp / 0x1000) % 0x40) as u8);
        acc.push((0x80 + (cp / 0x40) % 0x40) as u8);
        acc.push((0x80 + cp % 0x40) as u8);
        proof {
            assert(acc@ =~= old(acc)@ + utf8_encode(cp as int));
        }
    }
}

/// Decode the string token whose content starts at `i`, the opening quote
/// already consumed, mirroring `sp_string`.
#[verifier::rlimit(60)]
pub fn parse_string(s: &Vec<u8>, i: usize) -> (r: Option<(Vec<u8>, usize)>)
    requires
        i <= s.len(),
    ensures
        (r is Some) == (sp_string(s@, i as int, Seq::empty()) is Some),
        r matches Some(p) ==> sp_string(s@, i as int, Seq::empty()) == Some((p.0@, p.1 as int))
            && i < p.1 <= s.len(),
{
    let mut acc: Vec<u8> = Vec::new();
    let mut j = i;
    loop
        invariant
            i <= j <= s.len(),
            sp_string(s@, i as int, Seq::empty()) == sp_string(s@, j as int, acc@),
        decreases s.len() - j,
    {
        if j >= s.len() {
            return None;
        }
        let b = s[j];
        if b == 0x22 {
            return Some((acc, j + 1));
        } else if b == 0x5c {
            if j + 1 >= s.len() {
                return None;
            }
            let e = s[j + 1];
            if e == 0x22 || e == 0x5c || e == 0x2f || e == 0x62 || e == 0x66 || e == 0x6e || e
                == 0x72 || e == 0x74 {
                let c = if e == 0x62 {
                    0x08
                } else if e == 0x66 {
                    0x0c
                } else if e == 0x6e {
                    0x0a
                } else if e == 0x72 {
                    0x0d
                } else if e == 0x74 {
                    0x09
                } else {
                    e
                };
                proof {
                    assert(c == escape_byte(e));
                }
                acc.push(c);
                j = j + 2;
            } else if e == 0x75 {
                if !(s.len() - j >= 6 && is_hex_byte(s[j + 2]) && is_hex_byte(s[j + 3])
                    && is_hex_byte(s[j + 4]) && is_hex_byte(s[j + 5])) {
                    return None;
                }
                let cp: u32 = (hex_value(s[j + 2]) as u32) * 0x1000 + (hex_value(s[j + 3]) as u32)
                    * 0x100 + (hex_value(s[j + 4]) as u32) * 0x10 + (hex_value(s[j + 5]) as u32);
                proof {
                    assert(cp as int == hex4_val(s@, j + 2));
                }
                if 0xd800 <= cp && cp < 0xdc00 {
                    if !(s.len() - j > 7 && s[j + 6] == 0x5c && s[j + 7] == 0x75) {
                        return None;
                    }
                    if !(s.len() - j >= 12 && is_hex_byte(s[j + 8]) && is_hex_byte(s[j + 9])
                        && is_hex_byte(s[j + 10]) && is_hex_byte(s[j + 11])) {
                        return None;
                    }
                    let lo: u32 = (hex_value(s[j + 8]) as u32) * 0x1000 + (hex_value(
                        s[j + 9],
                    ) as u32) * 0x100 + (hex_value(s[j + 10]) as u32) * 0x10 + (hex_value(
                        s[j + 11],
                    ) as u32);
                    proof {
                        assert(lo as int == hex4_val(s@, j + 8));
                    }
                    if !(0xdc00 <= lo && lo < 0xe000) {
                        return None;
                    }
                    let full: u32 = 0x10000 + (cp - 0xd800) * 0x400 + (lo - 0xdc00);
                    push_utf8(&mut acc, full);
                    j = j + 12;
                } else if 0xdc00 <= cp && cp < 0xe000 {
                    return None;
                } else {
                    push_utf8(&mut acc, cp);
                    j = j + 6;
                }
            } else {
                return None;
            }
        } else if b < 0x20 {
            return None;
        } else if b < 0x80 {
            acc.push(b);
            j = j + 1;
        } else {
            let d = utf8_len_at(s, j);
            if d == 0 {
                return None;
            }
            let ghost acc0 = acc@;
            proof {
                assert(acc0 + s@.subrange(j as int, j as int) =~= acc0);
            }
            let mut t: usize = 0;
            while t < d
                invariant
                    t <= d,
                    j + d <= s.len(),
                    acc@ == acc0 + s@.subrange(j as int, j + t),
                decreases d - t,
            {
                acc.push(s[j + t]);
                proof {
                    assert(acc0 + s@.subrange(j as int, j + t) + seq![s@[(j + t) as int]]
                        =~= acc0 + s@.subrange(j as int, j + t + 1));
                }
                t = t + 1;
            }
            j = j + d;
        }
    }
}

// ---------------------------------------------------------------------------
// Skipping arbitrary values (unknown fields)
// ---------------------------------------------------------------------------

/// The literal `true` stands at `i`.
pub open spec fn sp_true_at(s: Seq<u8>, i: int) -> bool {
    0 <= i && i + 4 <= s.len() && s[i] == 0x74 && s[i + 1] == 0x72 && s[i + 2] == 0x75 && s[i + 3]
        == 0x65
}

/// The literal `false` stands at `i`.
pub open spec fn sp_false_at(s: Seq<u8>, i: int) -> bool {
    0 <= i && i + 5 <= s.len() && s[i] == 0x66 && s[i + 1] == 0x61 && s[i + 2] == 0x6c && s[i + 3]
        == 0x73 && s[i + 4] == 0x65
}

/// The literal `null` stands at `i`.
pub open spec fn sp_null_at(s: Seq<u8>, i: int) -> bool {
    0 <= i && i + 4 <= s.len() && s[i] == 0x6e && s[i + 1] == 0x75 && s[i + 2] == 0x6c && s[i + 3]
        == 0x6c
}

/// Deepest container nesting accepted inside a skipped unknown value;
/// anything deeper is a decode failure, as the recursion limit of the
/// upstream decoder makes it.
pub const SKIP_DEPTH_LIMIT: usize = 100;

/// End position of the JSON value starting at `i`, whatever its kind, if it
/// is well formed; entering an array or object costs one unit of `depth`,
/// and a container at depth zero is an error. The branches that test a
/// position against a lower bound are never taken on the results the other
/// functions can return; they make the mutual recursion visibly well
/// founded.
pub open spec fn sp_skip_value(s: Seq<u8>, i: int, depth: int) -> Option<int>
    decreases s.len() - i, 0int,
{
    if i < 0 || i >= s.len() {
        None
    } else if s[i] == 0x22 {
        match sp_string(s, i + 1, Seq::empty()) {
            Some((c, j)) => Some(j),
            None => None,
        }
    } else if s[i] == 0x7b {
        if depth <= 0 {
            None
        } else {
            sp_skip_object(s, i + 1, depth - 1)
        }
    } else if s[i] == 0x5b {
        if depth <= 0 {
            None
        } else {
            sp_skip_array(s, i + 1, depth - 1)
        }
    } else if sp_true_at(s, i) {
        Some(i + 4)
    } else if sp_null_at(s, i) {
        Some(i + 4)
    } else if sp_false_at(s, i) {
        Some(i + 5)
    } else if s[i] == 0x2d || is_digit(s[i]) {
        sp_number(s, i)
    } else {
        None
    }
}

/// End position of the array whose `[` stands just before `i`.
pub open spec fn sp_skip_array(s: Seq<u8>, i: int, depth: int) -> Option<int>
    decreases s.len() - i, 3int,
{
    let j = sp_ws(s, i);
    if j < i || j > s.len() {
        None
    } else if j < s.len() && s[j] == 0x5d {
        Some(j + 1)
    } else {
        sp_skip_element(s, j, depth)
    }
}

/// End position of the array elements starting with the value at `i`, up to
/// and including the closing `]`.
pub open spec fn sp_skip_element(s: Seq<u8>, i: int, depth: int) -> Option<int>
    decreases s.len() - i, 2int,
{
    match sp_skip_value(s, i, depth) {
        Some(k) => {
            if k <= i || k > s.len() {
                None
            } else {
                let m = sp_ws(s, k);
                if m < k || m > s.len() {
                    None
                } else if m < s.len() && s[m] == 0x2c {
                    let x = sp_ws(s, m + 1);
                    if x < m + 1 || x > s.len() {
                        None
                    } else {
                        sp_skip_element(s, x, depth)
                    }
                } else if m < s.len() && s[m] == 0x5d {
                    Some(m + 1)
                } else {
                    None
                }
            }
        },
        None => None,
    }
}

/// End position of the object whose `{` stands just before `i`.
pub open spec fn sp_skip_object(s: Seq<u8>, i: int, depth: int) -> Option<int>
    decreases s.len() - i, 3int,
{
    let j = sp_ws(s, i);
    if j < i || j > s.len() {
        None
    } else if j < s.len() && s[j] == 0x7d {
        Some(j + 1)
    } else {
        sp_skip_member(s, j, depth)
    }
}

/// End position of the object members starting with the key at `i`, up to
/// and including the closing `}`.
pub open spec fn sp_skip_member(s: Seq<u8>, i: int, depth: int) -> Option<int>
    decreases s.len() - i, 2int,
{
    if 0 <= i && i < s.len() && s[i] == 0x22 {
        match sp_string(s, i + 1, Seq::empty()) {
            Some((key, k)) => {
                if k <= i || k > s.len() {
                    None
                } else {
                    let m = sp_ws(s, k);
                    if m < k || m > s.len() {
                        None
                    } else if m < s.len() && s[m] == 0x3a {
                        let v0 = sp_ws(s, m + 1);
                        if v0 < m + 1 || v0 > s.len() {
                            None
                        } else {
                            match sp_skip_value(s, v0, depth) {
                                Some(v) => {
                                    if v <= v0 || v > s.len() {
                                        None
                                    } else {
                                        let w = sp_ws(s, v);
                                        if w < v || w > s.len() {
                                            None
                                        } else if w < s.len() && s[w] == 0x2c {
                                            let x = sp_ws(s, w + 1);
                                            if x < w + 1 || x > s.len() {
                                                None
                                            } else {
                                                sp_skip_member(s, x, depth)
                                            }
                                        } else if w < s.len() && s[w] == 0x7d {
                                            Some(w + 1)
                                        } else {
                                            None
                                        }
                                    }
                                },
                                None => None,
                            }
                        }
                    } else {
                        None
                    }
                }
            },
            None => None,
        }
    } else {
        None
    }
}

/// Skip the JSON value starting at `i`, mirroring `sp_skip_value`.
pub fn skip_value(s: &Vec<u8>, i: usize, depth: usize) -> (r: Option<usize>)
    requires
        i <= s.len(),
    ensures
        (r is Some) == (sp_skip_value(s@, i as int, depth as int) is Some),
        r matches Some(j) ==> sp_skip_value(s@, i as int, depth as int) == Some(j as int) && i < j
            <= s.len(),
    decreases s.len() - i, 0int,
{
    if i >= s.len() {
        return None;
    }
    let b = s[i];
    if b == 0x22 {
        match parse_string(s, i + 1) {
            Some((c, j)) => Some(j),
            None => None,
        }
    } else if b == 0x7b {
        if depth == 0 {
            None
        } else {
            skip_object(s, i + 1, depth - 1)
        }
    } else if b == 0x5b {
        if depth == 0 {
            None
        } else {
            skip_array(s, i + 1, depth - 1)
        }
    } else if s.len() - i >= 4 && s[i] == 0x74 && s[i + 1] == 0x72 && s[i + 2] == 0x75 && s[i + 3]
        == 0x65 {
        Some(i + 4)
    } else if s.len() - i >= 4 && s[i] == 0x6e && s[i + 1] == 0x75 && s[i + 2] == 0x6c && s[i + 3]
        == 0x6c {
        Some(i + 4)
    } else if s.len() - i >= 5 && s[i] == 0x66 && s[i + 1] == 0x61 && s[i + 2] == 0x6c && s[i + 3]
        == 0x73 && s[i + 4] == 0x65 {
        Some(i + 5)
    } else if b == 0x2d || (0x30 <= b && b <= 0x39) {
        parse_number(s, i)
    } else {
        None
    }
}

/// Skip the array whose `[` stands just before `i`, mirroring
/// `sp_skip_array`.
fn skip_array(s: &Vec<u8>, i: usize, depth: usize) -> (r: Option<usize>)
    requires
        i <= s.len(),
    ensures
        (r is Some) == (sp_skip_array(s@, i as int, depth as int) is Some),
        r matches Some(j) ==> sp_skip_array(s@, i as int, depth as int) == Some(j as int) && i < j
            <= s.len(),
    decreases s.len() - i, 3int,
{
    let j0 = skip_ws(s, i);
    if j0 < s.len() && s[j0] == 0x5d {
        return Some(j0 + 1);
    }
    let mut j = j0;
    loop
        invariant
            i <= j <= s.len(),
            sp_skip_array(s@, i as int, depth as int) == sp_skip_element(
                s@,
                j as int,
                depth as int,
            ),
        decreases s.len() - j,
    {
        match skip_value(s, j, depth) {
            None => {
                return None;
            },
            Some(k) => {
                let m = skip_ws(s, k);
                if m < s.len() && s[m] == 0x2c {
                    let x = skip_ws(s, m + 1);
                    j = x;
                } else if m < s.len() && s[m] == 0x5d {
                    return Some(m + 1);
                } else {
                    return None;
                }
            },
        }
    }
}

/// Skip the object whose `{` stands just before `i`, mirroring
/// `sp_skip_object`.
fn skip_object(s: &Vec<u8>, i: usize, depth: usize) -> (r: Option<usize>)
    requires
        i <= s.len(),
    ensures
        (r is Some) == (sp_skip_object(s@, i as int, depth as int) is Some),
        r matches Some(j) ==> sp_skip_object(s@, i as int, depth as int) == Some(j as int) && i < j
            <= s.len(),
    decreases s.len() - i, 3int,
{
    let j0 = skip_ws(s, i);
    if j0 < s.len() && s[j0] == 0x7d {
        return Some(j0 + 1);
    }
    let mut j = j0;
    loop
        invariant
            i <= j <= s.len(),
            sp_skip_object(s@, i as int, depth as int) == sp_skip_member(
                s@,
                j as int,
                depth as int,
            ),
        decreases s.len() - j,
    {
        if !(j < s.len() && s[j] == 0x22) {
            return None;
        }
        match parse_string(s, j + 1) {
            None => {
                return None;
            },
            Some((_key, k)) => {
                let m = skip_ws(s, k);
                if !(m < s.len() && s[m] == 0x3a) {
                    return None;
                }
                let v0 = skip_ws(s, m + 1);
                match skip_value(s, v0, depth) {
                    None => {
                        return None;
                    },
                    Some(v) => {
                        let w = skip_ws(s, v);
                        if w < s.len() && s[w] == 0x2c {
                            let x = skip_ws(s, w + 1);
                            j = x;
                        } else if w < s.len() && s[w] == 0x7d {
                            return Some(w + 1);
                        } else {
                            return None;
                        }
                    },
                }
            },
        }
    }
}

// ---------------------------------------------------------------------------
// Field names of the places response
// ---------------------------------------------------------------------------

/// Spec bytes of the field name `results`.
pub open spec fn spec_key_results() -> Seq<u8> {
    seq![0x72, 0x65, 0x73, 0x75, 0x6c, 0x74, 0x73]
}

/// The bytes of the field name `results`.
fn key_results() -> (r: Vec<u8>)
    ensures
        r@ == spec_key_results(),
{
    let mut v: Vec<u8> = Vec::new();
    v.push(0x72);
    v.push(0x65);
    v.push(0x73);
    v.push(0x75);
    v.push(0x6c);
    v.push(0x74);
    v.push(0x73);
    proof {
        assert(v@ =~= spec_key_results());
    }
    v
}

/// Spec bytes of the field name `name`.
pub open spec fn spec_key_name() -> Seq<u8> {
    seq![0x6e, 0x61, 0x6d, 0x65]
}

/// The bytes of the field name `name`.
fn key_name() -> (r: Vec<u8>)
    ensures
        r@ == spec_key_name(),
{
    let mut v: Vec<u8> = Vec::new();
    v.push(0x6e);
    v.push(0x61);
    v.push(0x6d);
    v.push(0x65);
    proof {
        assert(v@ =~= spec_key_name());
    }
    v
}

/// Spec bytes of the field name `vicinity`.
pub open spec fn spec_key_vicinity() -> Seq<u8> {
    seq![0x76, 0x69, 0x63, 0x69, 0x6e, 0x69, 0x74, 0x79]
}

/// The bytes of the field name `vicinity`.
fn key_vicinity() -> (r: Vec<u8>)
    ensures
        r@ == spec_key_vicinity(),
{
    let mut v: Vec<u8> = Vec::new();
    v.push(0x76);
    v.push(0x69);
    v.push(0x63);
    v.push(0x69);
    v.push(0x6e);
    v.push(0x69);
    v.push(0x74);
    v.push(0x79);
    proof {
        assert(v@ =~= spec_key_vicinity());
    }
    v
}

/// Spec bytes of the field name `geometry`.
pub open spec fn spec_key_geometry() -> Seq<u8> {
    seq![0x67, 0x65, 0x6f, 0x6d, 0x65, 0x74, 0x72, 0x79]
}

/// The bytes of the field name `geometry`.
fn key_geometry() -> (r: Vec<u8>)
    ensures
        r@ == spec_key_geometry(),
{
    let mut v: Vec<u8> = Vec::new();
    v.push(0x67);
    v.push(0x65);
    v.push(0x6f);
    v.push(0x6d);
    v.push(0x65);
    v.push(0x74);
    v.push(0x72);
    v.push(0x79);
    proof {
        assert(v@ =~= spec_key_geometry());
    }
    v
}

/// Spec bytes of the field name `location`.
pub open spec fn spec_key_location() -> Seq<u8> {
    seq![0x6c, 0x6f, 0x63, 0x61, 0x74, 0x69, 0x6f, 0x6e]
}

/// The bytes of the field name `location`.
fn key_location() -> (r: Vec<u8>)
    ensures
        r@ == spec_key_location(),
{
    let mut v: Vec<u8> = Vec::new();
    v.push(0x6c);
    v.push(0x6f);
    v.push(0x63);
    v.push(0x61);
    v.push(0x74);
    v.push(0x69);
    v.push(0x6f);
    v.push(0x6e);
    proof {
        assert(v@ =~= spec_key_location());
    }
    v
}

/// Spec bytes of the field name `lat`.
pub open spec fn spec_key_lat() -> Seq<u8> {
    seq![0x6c, 0x61, 0x74]
}

/// The bytes of the field name `lat`.
fn key_lat() -> (r: Vec<u8>)
    ensures
        r@ == spec_key_lat(),
{
    let mut v: Vec<u8> = Vec::new();
    v.push(0x6c);
    v.push(0x61);
    v.push(0x74);
    proof {
        assert(v@ =~= spec_key_lat());
    }
    v
}

/// Spec bytes of the field name `lng`.
pub open spec fn spec_key_lng() -> Seq<u8> {
    seq![0x6c, 0x6e, 0x67]
}

/// The bytes of the field name `lng`.
fn key_lng() -> (r: Vec<u8>)
    ensures
        r@ == spec_key_lng(),
{
    let mut v: Vec<u8> = Vec::new();
    v.push(0x6c);
    v.push(0x6e);
    v.push(0x67);
    proof {
        assert(v@ =~= spec_key_lng());
    }
    v
}

/// Spec bytes of the field name `opening_hours`.
pub open spec fn spec_key_opening_hours() -> Seq<u8> {
    seq![0x6f, 0x70, 0x65, 0x6e, 0x69, 0x6e, 0x67, 0x5f, 0x68, 0x6f, 0x75, 0x72, 0x73]
}

/// The bytes of the field name `opening_hours`.
fn key_opening_hours() -> (r: Vec<u8>)
    ensures
        r@ == spec_key_opening_hours(),
{
    let mut v: Vec<u8> = Vec::new();
    v.push(0x6f);
    v.push(0x70);
    v.push(0x65);
    v.push(0x6e);
    v.push(0x69);
    v.push(0x6e);
    v.push(0x67);
    v.push(0x5f);
    v.push(0x68);
    v.push(0x6f);
    v.push(0x75);
    v.push(0x72);
    v.push(0x73);
    proof {
        assert(v@ =~= spec_key_opening_hours());
    }
    v
}

/// Spec bytes of the field name `open_now`.
pub open spec fn spec_key_open_now() -> Seq<u8> {
    seq![0x6f, 0x70, 0x65, 0x6e, 0x5f, 0x6e, 0x6f, 0x77]
}

/// The bytes of the field name `open_now`.
fn key_open_now() -> (r: Vec<u8>)
    ensures
        r@ == spec_key_open_now(),
{
    let mut v: Vec<u8> = Vec::new();
    v.push(0x6f);
    v.push(0x70);
    v.push(0x65);
    v.push(0x6e);
    v.push(0x5f);
    v.push(0x6e);
    v.push(0x6f);
    v.push(0x77);
    proof {
        assert(v@ =~= spec_key_open_now());
    }
    v
}

// ---------------------------------------------------------------------------
// The geometry location object: required `lat` and `lng` numbers
// ---------------------------------------------------------------------------

/// View of an optional byte vector.
pub open spec fn opt_bytes_view(o: Option<Vec<u8>>) -> Option<Seq<u8>> {
    match o {
        Some(v) => Some(v@),
        None => None,
    }
}

/// View of an optional pair of byte vectors.
pub open spec fn opt_pair_view(o: Option<(Vec<u8>, Vec<u8>)>) -> Option<(Seq<u8>, Seq<u8>)> {
    match o {
        Some(p) => Some((p.0@, p.1@)),
        None => None,
    }
}

/// View of an optional vector of places.
pub open spec fn opt_places_view(o: Option<Vec<Place>>) -> Option<Seq<PlaceView>> {
    match o {
        Some(v) => Some(place_views(v@)),
        None => None,
    }
}

proof fn lemma_place_views_push(s: Seq<Place>, p: Place)
    ensures
        place_views(s.push(p)) == place_views(s).push(p@),
{
    assert(place_views(s.push(p)) =~= place_views(s).push(p@));
}

/// Members of the location object, the key at `i`: `lat` and `lng` hold
/// number tokens, both are required, a duplicate is an error, anything else
/// is skipped. Yields the two tokens and the position after the closing
/// brace.
pub open spec fn sp_location_members(
    s: Seq<u8>,
    i: int,
    lat: Option<Seq<u8>>,
    lng: Option<Seq<u8>>,
) -> Option<(Seq<u8>, Seq<u8>, int)>
    decreases s.len() - i, 2int,
{
    if 0 <= i && i < s.len() && s[i] == 0x22 {
        match sp_string(s, i + 1, Seq::empty()) {
            Some((key, k)) => {
                if k <= i || k > s.len() {
                    None
                } else {
                    let m = sp_ws(s, k);
                    if m < k || m > s.len() {
                        None
                    } else if m < s.len() && s[m] == 0x3a {
                        let v0 = sp_ws(s, m + 1);
                        if v0 < m + 1 || v0 > s.len() {
                            None
                        } else if key == spec_key_lat() {
                            if lat is Some {
                                None
                            } else {
                                match sp_number(s, v0) {
                                    Some(v) => if v <= v0 || v > s.len() {
                                        None
                                    } else {
                                        sp_location_after(s, v, Some(s.subrange(v0, v)), lng)
                                    },
                                    None => None,
                                }
                            }
                        } else if key == spec_key_lng() {
                            if lng is Some {
                                None
                            } else {
                                match sp_number(s, v0) {
                                    Some(v) => if v <= v0 || v > s.len() {
                                        None
                                    } else {
                                        sp_location_after(s, v, lat, Some(s.subrange(v0, v)))
                                    },
                                    None => None,
                                }
                            }
                        } else {
                            match sp_skip_value(s, v0, SKIP_DEPTH_LIMIT as int) {
                                Some(v) => if v <= v0 || v > s.len() {
                                    None
                                } else {
                                    sp_location_after(s, v, lat, lng)
                                },
                                None => None,
                            }
                        }
                    } else {
                        None
                    }
                }
            },
            None => None,
        }
    } else {
        None
    }
}

/// Continuation after a location member value ending at `v`: a comma leads
/// to the next member, the closing brace requires both coordinates.
pub open spec fn sp_location_after(
    s: Seq<u8>,
    v: int,
    lat: Option<Seq<u8>>,
    lng: Option<Seq<u8>>,
) -> Option<(Seq<u8>, Seq<u8>, int)>
    decreases s.len() - v, 1int,
{
    let w = sp_ws(s, v);
    if w < v || w > s.len() {
        None
    } else if w < s.len() && s[w] == 0x2c {
        let x = sp_ws(s, w + 1);
        if x < w + 1 || x > s.len() {
            None
        } else {
            sp_location_members(s, x, lat, lng)
        }
    } else if w < s.len() && s[w] == 0x7d {
        match (lat, lng) {
            (Some(la), Some(ln)) => Some((la, ln, w + 1)),
            _ => None,
        }
    } else {
        None
    }
}

/// Decode the location object members starting at the key at `i`, mirroring
/// `sp_location_members`.
fn parse_location(s: &Vec<u8>, i: usize) -> (r: Option<(Vec<u8>, Vec<u8>, usize)>)
    requires
        i <= s.len(),
    ensures
        (r is Some) == (sp_location_members(s@, i as int, None, None) is Some),
        r matches Some(p) ==> sp_location_members(s@, i as int, None, None) == Some(
            (p.0@, p.1@, p.2 as int),
        ) && i < p.2 <= s.len(),
{
    let mut j = i;
    let mut lat: Option<Vec<u8>> = None;
    let mut lng: Option<Vec<u8>> = None;
    loop
        invariant
            i <= j <= s.len(),
            sp_location_members(s@, i as int, None, None) == sp_location_members(
                s@,
                j as int,
                opt_bytes_view(lat),
                opt_bytes_view(lng),
            ),
        decreases s.len() - j,
    {
        if !(j < s.len() && s[j] == 0x22) {
            return None;
        }
        let parsed = parse_string(s, j + 1);
        if parsed.is_none() {
            return None;
        }
        let (key, k) = parsed.unwrap();
        let m = skip_ws(s, k);
        if !(m < s.len() && s[m] == 0x3a) {
            return None;
        }
        let v0 = skip_ws(s, m + 1);
        let klat = key_lat();
        let klng = key_lng();
        let v: usize;
        if eq_bytes(&key, &klat) {
            if lat.is_some() {
                return None;
            }
            match parse_number(s, v0) {
                None => {
                    return None;
                },
                Some(ve) => {
                    lat = Some(copy_range(s, v0, ve));
                    v = ve;
                },
            }
        } else if eq_bytes(&key, &klng) {
            if lng.is_some() {
                return None;
            }
            match parse_number(s, v0) {
                None => {
                    return None;
                },
                Some(ve) => {
                    lng = Some(copy_range(s, v0, ve));
                    v = ve;
                },
            }
        } else {
            match skip_value(s, v0, SKIP_DEPTH_LIMIT) {
                None => {
                    return None;
                },
                Some(ve) => {
                    v = ve;
                },
            }
        }
        let w = skip_ws(s, v);
        if w < s.len() && s[w] == 0x2c {
            let x = skip_ws(s, w + 1);
            j = x;
        } else if w < s.len() && s[w] == 0x7d {
            if lat.is_some() && lng.is_some() {
                return Some((lat.unwrap(), lng.unwrap(), w + 1));
            } else {
                return None;
            }
        } else {
            return None;
        }
    }
}

// ---------------------------------------------------------------------------
// The geometry object: required `location`
// ---------------------------------------------------------------------------

/// Members of the geometry object, the key at `i`: `location` is a required
/// object with both coordinates, a duplicate is an error, anything else is
/// skipped.
pub open spec fn sp_geometry_members(s: Seq<u8>, i: int, loc: Option<(Seq<u8>, Seq<u8>)>) -> Option<
    (Seq<u8>, Seq<u8>, int),
>
    decreases s.len() - i, 2int,
{
    if 0 <= i && i < s.len() && s[i] == 0x22 {
        match sp_string(s, i + 1, Seq::empty()) {
            Some((key, k)) => {
                if k <= i || k > s.len() {
                    None
                } else {
                    let m = sp_ws(s, k);
                    if m < k || m > s.len() {
                        None
                    } else if m < s.len() && s[m] == 0x3a {
                        let v0 = sp_ws(s, m + 1);
                        if v0 < m + 1 || v0 > s.len() {
                            None
                        } else if key == spec_key_location() {
                            if loc is Some {
                                None
                            } else if v0 < s.len() && s[v0] == 0x7b {
                                let j1 = sp_ws(s, v0 + 1);
                                if j1 < v0 + 1 || j1 > s.len() {
                                    None
                                } else if j1 < s.len() && s[j1] == 0x7d {
                                    None
                                } else {
                                    match sp_location_members(s, j1, None, None) {
                                        Some((la, ln, v)) => if v <= v0 || v > s.len() {
                                            None
                                        } else {
                                            sp_geometry_after(s, v, Some((la, ln)))
                                        },
                                        None => None,
                                    }
                                }
                            } else {
                                None
                            }
                        } else {
                            match sp_skip_value(s, v0, SKIP_DEPTH_LIMIT as int) {
                                Some(v) => if v <= v0 || v > s.len() {
                                    None
                                } else {
                                    sp_geometry_after(s, v, loc)
                                },
                                None => None,
                            }
                        }
                    } else {
                        None
                    }
                }
            },
            None => None,
        }
    } else {
        None
    }
}

/// Continuation after a geometry member value ending at `v`.
pub open spec fn sp_geometry_after(s: Seq<u8>, v: int, loc: Option<(Seq<u8>, Seq<u8>)>) -> Option<
    (Seq<u8>, Seq<u8>, int),
>
    decreases s.len() - v, 1int,
{
    let w = sp_ws(s, v);
    if w < v || w > s.len() {
        None
    } else if w < s.len() && s[w] == 0x2c {
        let x = sp_ws(s, w + 1);
        if x < w + 1 || x > s.len() {
            None
        } else {
            sp_geometry_members(s, x, loc)
        }
    } else if w < s.len() && s[w] == 0x7d {
        match loc {
            Some((la, ln)) => Some((la, ln, w + 1)),
            None => None,
        }
    } else {
        None
    }
}

/// Decode the geometry object members starting at the key at `i`, mirroring
/// `sp_geometry_members`.
fn parse_geometry(s: &Vec<u8>, i: usize) -> (r: Option<(Vec<u8>, Vec<u8>, usize)>)
    requires
        i <= s.len(),
    ensures
        (r is Some) == (sp_geometry_members(s@, i as int, None) is Some),
        r matches Some(p) ==> sp_geometry_members(s@, i as int, None) == Some(
            (p.0@, p.1@, p.2 as int),
        ) && i < p.2 <= s.len(),
{
    let mut j = i;
    let mut loc: Option<(Vec<u8>, Vec<u8>)> = None;
    loop
        invariant
            i <= j <= s.len(),
            sp_geometry_members(s@, i as int, None) == sp_geometry_members(
                s@,
                j as int,
                opt_pair_view(loc),
            ),
        decreases s.len() - j,
    {
        if !(j < s.len() && s[j] == 0x22) {
            return None;
        }
        let parsed = parse_string(s, j + 1);
        if parsed.is_none() {
            return None;
        }
        let (key, k) = parsed.unwrap();
        let m = skip_ws(s, k);
        if !(m < s.len() && s[m] == 0x3a) {
            return None;
        }
        let v0 = skip_ws(s, m + 1);
        let kloc = key_location();
        let v: usize;
        if eq_bytes(&key, &kloc) {
            if loc.is_some() {
                return None;
            }
            if !(v0 < s.len() && s[v0] == 0x7b) {
                return None;
            }
            let j1 = skip_ws(s, v0 + 1);
            if j1 < s.len() && s[j1] == 0x7d {
                return None;
            }
            match parse_location(s, j1) {
                None => {
                    return None;
                },
                Some((la, ln, ve)) => {
                    loc = Some((la, ln));
                    v = ve;
                },
            }
        } else {
            match skip_value(s, v0, SKIP_DEPTH_LIMIT) {
                None => {
                    return None;
                },
                Some(ve) => {
                    v = ve;
                },
            }
        }
        let w = skip_ws(s, v);
        if w < s.len() && s[w] == 0x2c {
            let x = skip_ws(s, w + 1);
            j = x;
        } else if w < s.len() && s[w] == 0x7d {
            match loc {
                Some((la, ln)) => {
                    return Some((la, ln, w + 1));
                },
                None => {
                    return None;
                },
            }
        } else {
            return None;
        }
    }
}

// ---------------------------------------------------------------------------
// The opening_hours object: required `open_now` boolean
// ---------------------------------------------------------------------------

/// Members of the opening_hours object, the key at `i`: `open_now` is a
/// required boolean, a duplicate is an error, anything else is skipped.
pub open spec fn sp_opening_members(s: Seq<u8>, i: int, seen: Option<bool>) -> Option<(bool, int)>
    decreases s.len() - i, 2int,
{
    if 0 <= i && i < s.len() && s[i] == 0x22 {
        match sp_string(s, i + 1, Seq::empty()) {
            Some((key, k)) => {
                if k <= i || k > s.len() {
                    None
                } else {
                    let m = sp_ws(s, k);
                    if m < k || m > s.len() {
                        None
                    } else if m < s.len() && s[m] == 0x3a {
                        let v0 = sp_ws(s, m + 1);
                        if v0 < m + 1 || v0 > s.len() {
                            None
                        } else if key == spec_key_open_now() {
                            if seen is Some {
                                None
                            } else if sp_true_at(s, v0) {
                                sp_opening_after(s, v0 + 4, Some(true))
                            } else if sp_false_at(s, v0) {
                                sp_opening_after(s, v0 + 5, Some(false))
                            } else {
                                None
                            }
                        } else {
                            match sp_skip_value(s, v0, SKIP_DEPTH_LIMIT as int) {
                                Some(v) => if v <= v0 || v > s.len() {
                                    None
                                } else {
                                    sp_opening_after(s, v, seen)
                                },
                                None => None,
                            }
                        }
                    } else {
                        None
                    }
                }
            },
            None => None,
        }
    } else {
        None
    }
}

/// Continuation after an opening_hours member value ending at `v`.
pub open spec fn sp_opening_after(s: Seq<u8>, v: int, seen: Option<bool>) -> Option<(bool, int)>
    decreases s.len() - v, 1int,
{
    let w = sp_ws(s, v);
    if w < v || w > s.len() {
        None
    } else if w < s.len() && s[w] == 0x2c {
        let x = sp_ws(s, w + 1);
        if x < w + 1 || x > s.len() {
            None
        } else {
            sp_opening_members(s, x, seen)
        }
    } else if w < s.len() && s[w] == 0x7d {
        match seen {
            Some(b) => Some((b, w + 1)),
            None => None,
        }
    } else {
        None
    }
}

/// Decode the opening_hours object members starting at the key at `i`,
/// mirroring `sp_opening_members`.
fn parse_opening(s: &Vec<u8>, i: usize) -> (r: Option<(bool, usize)>)
    requires
        i <= s.len(),
    ensures
        (r is Some) == (sp_opening_members(s@, i as int, None) is Some),
        r matches Some(p) ==> sp_opening_members(s@, i as int, None) == Some((p.0, p.1 as int))
            && i < p.1 <= s.len(),
{
    let mut j = i;
    let mut seen: Option<bool> = None;
    loop
        invariant
            i <= j <= s.len(),
            sp_opening_members(s@, i as int, None) == sp_opening_members(s@, j as int, seen),
        decreases s.len() - j,
    {
        if !(j < s.len() && s[j] == 0x22) {
            return None;
        }
        let parsed = parse_string(s, j + 1);
        if parsed.is_none() {
            return None;
        }
        let (key, k) = parsed.unwrap();
        let m = skip_ws(s, k);
        if !(m < s.len() && s[m] == 0x3a) {
            return None;
        }
        let v0 = skip_ws(s, m + 1);
        let kopen = key_open_now();
        let v: usize;
        if eq_bytes(&key, &kopen) {
            if seen.is_some() {
                return None;
            }
            if s.len() - v0 >= 4 && s[v0] == 0x74 && s[v0 + 1] == 0x72 && s[v0 + 2] == 0x75 && s[v0
                + 3] == 0x65 {
                seen = Some(true);
                v = v0 + 4;
            } else if s.len() - v0 >= 5 && s[v0] == 0x66 && s[v0 + 1] == 0x61 && s[v0 + 2] == 0x6c
                && s[v0 + 3] == 0x73 && s[v0 + 4] == 0x65 {
                seen = Some(false);
                v = v0 + 5;
            } else {
                return None;
            }
        } else {
            match skip_value(s, v0, SKIP_DEPTH_LIMIT) {
                None => {
                    return None;
                },
                Some(ve) => {
                    v = ve;
                },
            }
        }
        let w = skip_ws(s, v);
        if w < s.len() && s[w] == 0x2c {
            let x = skip_ws(s, w + 1);
            j = x;
        } else if w < s.len() && s[w] == 0x7d {
            match seen {
                Some(b) => {
                    return Some((b, w + 1));
                },
                None => {
                    return None;
                },
            }
        } else {
            return None;
        }
    }
}

// ---------------------------------------------------------------------------
// A place object
// ---------------------------------------------------------------------------

/// Members of a place object, the key at `i`: `name` and `vicinity` are
/// required strings, `geometry` is a required object carrying a location,
/// `opening_hours` is optional and may be null or an object carrying
/// `open_now`; a duplicate of any of these is an error, anything else is
/// skipped.
pub open spec fn sp_place_members(
    s: Seq<u8>,
    i: int,
    name: Option<Seq<u8>>,
    vic: Option<Seq<u8>>,
    geo: Option<(Seq<u8>, Seq<u8>)>,
    oh: Option<Option<bool>>,
) -> Option<(PlaceView, int)>
    decreases s.len() - i, 2int,
{
    if 0 <= i && i < s.len() && s[i] == 0x22 {
        match sp_string(s, i + 1, Seq::empty()) {
            Some((key, k)) => {
                if k <= i || k > s.len() {
                    None
                } else {
                    let m = sp_ws(s, k);
                    if m < k || m > s.len() {
                        None
                    } else if m < s.len() && s[m] == 0x3a {
                        let v0 = sp_ws(s, m + 1);
                        if v0 < m + 1 || v0 > s.len() {
                            None
                        } else if key == spec_key_name() {
                            if name is Some {
                                None
                            } else if v0 < s.len() && s[v0] == 0x22 {
                                match sp_string(s, v0 + 1, Seq::empty()) {
                                    Some((val, v)) => if v <= v0 || v > s.len() {
                                        None
                                    } else {
                                        sp_place_after(s, v, Some(val), vic, geo, oh)
                                    },
                                    None => None,
                                }
                            } else {
                                None
                            }
                        } else if key == spec_key_vicinity() {
                            if vic is Some {
                                None
                            } else if v0 < s.len() && s[v0] == 0x22 {
                                match sp_string(s, v0 + 1, Seq::empty()) {
                                    Some((val, v)) => if v <= v0 || v > s.len() {
                                        None
                                    } else {
                                        sp_place_after(s, v, name, Some(val), geo, oh)
                                    },
                                    None => None,
                                }
                            } else {
                                None
                            }
                        } else if key == spec_key_geometry() {
                            if geo is Some {
                                None
                            } else if v0 < s.len() && s[v0] == 0x7b {
                                let j1 = sp_ws(s, v0 + 1);
                                if j1 < v0 + 1 || j1 > s.len() {
                                    None
                                } else if j1 < s.len() && s[j1] == 0x7d {
                                    None
                                } else {
                                    match sp_geometry_members(s, j1, None) {
                                        Some((la, ln, v)) => if v <= v0 || v > s.len() {
                                            None
                                        } else {
                                            sp_place_after(s, v, name, vic, Some((la, ln)), oh)
                                        },
                                        None => None,
                                    }
                                }
                            } else {
                                None
                            }
                        } else if key == spec_key_opening_hours() {
                            if oh is Some {
                                None
                            } else if sp_null_at(s, v0) {
                                sp_place_after(s, v0 + 4, name, vic, geo, Some(None))
                            } else if v0 < s.len() && s[v0] == 0x7b {
                                let j1 = sp_ws(s, v0 + 1);
                                if j1 < v0 + 1 || j1 > s.len() {
                                    None
                                } else if j1 < s.len() && s[j1] == 0x7d {
                                    None
                                } else {
                                    match sp_opening_members(s, j1, None) {
                                        Some((bv, v)) => if v <= v0 || v > s.len() {
                                            None
                                        } else {
                                            sp_place_after(s, v, name, vic, geo, Some(Some(bv)))
                                        },
                                        None => None,
                                    }
                                }
                            } else {
                                None
                            }
                        } else {
                            match sp_skip_value(s, v0, SKIP_DEPTH_LIMIT as int) {
                                Some(v) => if v <= v0 || v > s.len() {
                                    None
                                } else {
                                    sp_place_after(s, v, name, vic, geo, oh)
                                },
                                None => None,
                            }
                        }
                    } else {
                        None
                    }
                }
            },
            None => None,
        }
    } else {
        None
    }
}

/// Continuation after a place member value ending at `v`: the closing brace
/// requires name, vicinity and geometry; an absent opening_hours stays
/// `None`.
pub open spec fn sp_place_after(
    s: Seq<u8>,
    v: int,
    name: Option<Seq<u8>>,
    vic: Option<Seq<u8>>,
    geo: Option<(Seq<u8>, Seq<u8>)>,
    oh: Option<Option<bool>>,
) -> Option<(PlaceView, int)>
    decreases s.len() - v, 1int,
{
    let w = sp_ws(s, v);
    if w < v || w > s.len() {
        None
    } else if w < s.len() && s[w] == 0x2c {
        let x = sp_ws(s, w + 1);
        if x < w + 1 || x > s.len() {
            None
        } else {
            sp_place_members(s, x, name, vic, geo, oh)
        }
    } else if w < s.len() && s[w] == 0x7d {
        match (name, vic, geo) {
            (Some(n), Some(vi), Some((la, ln))) => Some(
                (
                    PlaceView {
                        name: n,
                        vicinity: vi,
                        lat: la,
                        lng: ln,
                        open_now: match oh {
                            Some(o) => o,
                            None => None,
                        },
                    },
                    w + 1,
                ),
            ),
            _ => None,
        }
    } else {
        None
    }
}

/// A whole place value at `i`: an object with the members above; an empty
/// object misses its required fields.
pub open spec fn sp_place_value(s: Seq<u8>, i: int) -> Option<(PlaceView, int)> {
    if 0 <= i && i < s.len() && s[i] == 0x7b {
        let j = sp_ws(s, i + 1);
        if j < i + 1 || j > s.len() {
            None
        } else if j < s.len() && s[j] == 0x7d {
            None
        } else {
            sp_place_members(s, j, None, None, None, None)
        }
    } else {
        None
    }
}

/// Decode the place value starting at `i`, mirroring `sp_place_value`.
fn parse_place_at(s: &Vec<u8>, i: usize) -> (r: Option<(Place, usize)>)
    requires
        i <= s.len(),
    ensures
        (r is Some) == (sp_place_value(s@, i as int) is Some),
        r matches Some(p) ==> sp_place_value(s@, i as int) == Some((p.0@, p.1 as int)) && i < p.1
            <= s.len(),
{
    if !(i < s.len() && s[i] == 0x7b) {
        return None;
    }
    let j0 = skip_ws(s, i + 1);
    if j0 < s.len() && s[j0] == 0x7d {
        return None;
    }
    let mut j = j0;
    let mut name: Option<Vec<u8>> = None;
    let mut vic: Option<Vec<u8>> = None;
    let mut geo: Option<(Vec<u8>, Vec<u8>)> = None;
    let mut oh: Option<Option<bool>> = None;
    loop
        invariant
            i <= j <= s.len(),
            sp_place_value(s@, i as int) == sp_place_members(
                s@,
                j as int,
                opt_bytes_view(name),
                opt_bytes_view(vic),
                opt_pair_view(geo),
                oh,
            ),
        decreases s.len() - j,
    {
        if !(j < s.len() && s[j] == 0x22) {
            return None;
        }
        let parsed = parse_string(s, j + 1);
        if parsed.is_none() {
            return None;
        }
        let (key, k) = parsed.unwrap();
        let m = skip_ws(s, k);
        if !(m < s.len() && s[m] == 0x3a) {
            return None;
        }
        let v0 = skip_ws(s, m + 1);
        let kname = key_name();
        let kvic = key_vicinity();
        let kgeo = key_geometry();
        let koh = key_opening_hours();
        let v: usize;
        if eq_bytes(&key, &kname) {
            if name.is_some() {
                return None;
            }
            if !(v0 < s.len() && s[v0] == 0x22) {
                return None;
            }
            match parse_string(s, v0 + 1) {
                None => {
                    return None;
                },
                Some((val, ve)) => {
                    name = Some(val);
                    v = ve;
                },
            }
        } else if eq_bytes(&key, &kvic) {
            if vic.is_some() {
                return None;
            }
            if !(v0 < s.len() && s[v0] == 0x22) {
                return None;
            }
            match parse_string(s, v0 + 1) {
                None => {
                    return None;
                },
                Some((val, ve)) => {
                    vic = Some(val);
                    v = ve;
                },
            }
        } else if eq_bytes(&key, &kgeo) {
            if geo.is_some() {
                return None;
            }
            if !(v0 < s.len() && s[v0] == 0x7b) {
                return None;
            }
            let j1 = skip_ws(s, v0 + 1);
            if j1 < s.len() && s[j1] == 0x7d {
                return None;
            }
            match parse_geometry(s, j1) {
                None => {
                    return None;
                },
                Some((la, ln, ve)) => {
                    geo = Some((la, ln));
                    v = ve;
                },
            }
        } else if eq_bytes(&key, &koh) {
            if oh.is_some() {
                return None;
            }
            if s.len() - v0 >= 4 && s[v0] == 0x6e && s[v0 + 1] == 0x75 && s[v0 + 2] == 0x6c && s[v0
                + 3] == 0x6c {
                oh = Some(None);
                v = v0 + 4;
            } else if v0 < s.len() && s[v0] == 0x7b {
                let j1 = skip_ws(s, v0 + 1);
                if j1 < s.len() && s[j1] == 0x7d {
                    return None;
                }
                match parse_opening(s, j1) {
                    None => {
                        return None;
                    },
                    Some((bv, ve)) => {
                        oh = Some(Some(bv));
                        v = ve;
                    },
                }
            } else {
                return None;
            }
        } else {
            match skip_value(s, v0, SKIP_DEPTH_LIMIT) {
                None => {
                    return None;
                },
                Some(ve) => {
                    v = ve;
                },
            }
        }
        let w = skip_ws(s, v);
        if w < s.len() && s[w] == 0x2c {
            let x = skip_ws(s, w + 1);
            j = x;
        } else if w < s.len() && s[w] == 0x7d {
            if name.is_some() && vic.is_some() && geo.is_some() {
                let (la, ln) = geo.unwrap();
                let place = Place {
                    name: name.unwrap(),
                    vicinity: vic.unwrap(),
                    lat: la,
                    lng: ln,
                    open_now: match oh {
                        Some(o) => o,
                        None => None,
                    },
                };
                return Some((place, w + 1));
            } else {
                return None;
            }
        } else {
            return None;
        }
    }
}

// ---------------------------------------------------------------------------
// The results array and the whole response
// ---------------------------------------------------------------------------

/// Elements of the results array starting with the place at `i`, `acc` the
/// places gathered so far, up to and including the closing bracket.
pub open spec fn sp_results_items(s: Seq<u8>, i: int, acc: Seq<PlaceView>) -> Option<
    (Seq<PlaceView>, int),
>
    decreases s.len() - i,
{
    match sp_place_value(s, i) {
        Some((p, k)) => {
            if k <= i || k > s.len() {
                None
            } else {
                let w = sp_ws(s, k);
                if w < k || w > s.len() {
                    None
                } else if w < s.len() && s[w] == 0x2c {
                    let x = sp_ws(s, w + 1);
                    if x < w + 1 || x > s.len() {
                        None
                    } else {
                        sp_results_items(s, x, acc.push(p))
                    }
                } else if w < s.len() && s[w] == 0x5d {
                    Some((acc.push(p), w + 1))
                } else {
                    None
                }
            }
        },
        None => None,
    }
}

/// The value of the `results` field at `i`: an array of places, possibly
/// empty, in the order written.
pub open spec fn sp_results_value(s: Seq<u8>, i: int) -> Option<(Seq<PlaceView>, int)> {
    if 0 <= i && i < s.len() && s[i] == 0x5b {
        let j = sp_ws(s, i + 1);
        if j < i + 1 || j > s.len() {
            None
        } else if j < s.len() && s[j] == 0x5d {
            Some((Seq::empty(), j + 1))
        } else {
            sp_results_items(s, j, Seq::empty())
        }
    } else {
        None
    }
}

/// Decode the results array value starting at `i`, mirroring
/// `sp_results_value`.
fn parse_results_at(s: &Vec<u8>, i: usize) -> (r: Option<(Vec<Place>, usize)>)
    requires
        i <= s.len(),
    ensures
        (r is Some) == (sp_results_value(s@, i as int) is Some),
        r matches Some(p) ==> sp_results_value(s@, i as int) == Some(
            (place_views(p.0@), p.1 as int),
        ) && i < p.1 <= s.len(),
{
    if !(i < s.len() && s[i] == 0x5b) {
        return None;
    }
    let j0 = skip_ws(s, i + 1);
    let mut acc: Vec<Place> = Vec::new();
    proof {
        assert(place_views(acc@) =~= Seq::<PlaceView>::empty());
    }
    if j0 < s.len() && s[j0] == 0x5d {
        return Some((acc, j0 + 1));
    }
    let mut j = j0;
    loop
        invariant
            i <= j <= s.len(),
            sp_results_value(s@, i as int) == sp_results_items(s@, j as int, place_views(acc@)),
        decreases s.len() - j,
    {
        match parse_place_at(s, j) {
            None => {
                return None;
            },
            Some((p, k)) => {
                proof {
                    lemma_place_views_push(acc@, p);
                }
                acc.push(p);
                let w = skip_ws(s, k);
                if w < s.len() && s[w] == 0x2c {
                    let x = skip_ws(s, w + 1);
                    j = x;
                } else if w < s.len() && s[w] == 0x5d {
                    return Some((acc, w + 1));
                } else {
                    return None;
                }
            },
        }
    }
}

/// Members of the top-level object, the key at `i`: `results` is required,
/// a duplicate is an error, anything else is skipped.
pub open spec fn sp_top_members(s: Seq<u8>, i: int, res: Option<Seq<PlaceView>>) -> Option<
    (Seq<PlaceView>, int),
>
    decreases s.len() - i, 2int,
{
    if 0 <= i && i < s.len() && s[i] == 0x22 {
        match sp_string(s, i + 1, Seq::empty()) {
            Some((key, k)) => {
                if k <= i || k > s.len() {
                    None
                } else {
                    let m = sp_ws(s, k);
                    if m < k || m > s.len() {
                        None
                    } else if m < s.len() && s[m] == 0x3a {
                        let v0 = sp_ws(s, m + 1);
                        if v0 < m + 1 || v0 > s.len() {
                            None
                        } else if key == spec_key_results() {
                            if res is Some {
                                None
                            } else {
                                match sp_results_value(s, v0) {
                                    Some((ps, v)) => if v <= v0 || v > s.len() {
                                        None
                                    } else {
                                        sp_top_after(s, v, Some(ps))
                                    },
                                    None => None,
                                }
                            }
                        } else {
                            match sp_skip_value(s, v0, SKIP_DEPTH_LIMIT as int) {
                                Some(v) => if v <= v0 || v > s.len() {
                                    None
                                } else {
                                    sp_top_after(s, v, res)
                                },
                                None => None,
                            }
                        }
                    } else {
                        None
                    }
                }
            },
            None => None,
        }
    } else {
        None
    }
}

/// Continuation after a top-level member value ending at `v`: the closing
/// brace requires that `results` was seen.
pub open spec fn sp_top_after(s: Seq<u8>, v: int, res: Option<Seq<PlaceView>>) -> Option<
    (Seq<PlaceView>, int),
>
    decreases s.len() - v, 1int,
{
    let w = sp_ws(s, v);
    if w < v || w > s.len() {
        None
    } else if w < s.len() && s[w] == 0x2c {
        let x = sp_ws(s, w + 1);
        if x < w + 1 || x > s.len() {
            None
        } else {
            sp_top_members(s, x, res)
        }
    } else if w < s.len() && s[w] == 0x7d {
        match res {
            Some(ps) => Some((ps, w + 1)),
            None => None,
        }
    } else {
        None
    }
}

/// Decode the top-level object members starting at the key at `i`,
/// mirroring `sp_top_members`.
fn parse_top(s: &Vec<u8>, i: usize) -> (r: Option<(Vec<Place>, usize)>)
    requires
        i <= s.len(),
    ensures
        (r is Some) == (sp_top_members(s@, i as int, None) is Some),
        r matches Some(p) ==> sp_top_members(s@, i as int, None) == Some(
            (place_views(p.0@), p.1 as int),
        ) && i < p.1 <= s.len(),
{
    let mut j = i;
    let mut res: Option<Vec<Place>> = None;
    loop
        invariant
            i <= j <= s.len(),
            sp_top_members(s@, i as int, None) == sp_top_members(s@, j as int, opt_places_view(res)),
        decreases s.len() - j,
    {
        if !(j < s.len() && s[j] == 0x22) {
            return None;
        }
        let parsed = parse_string(s, j + 1);
        if parsed.is_none() {
            return None;
        }
        let (key, k) = parsed.unwrap();
        let m = skip_ws(s, k);
        if !(m < s.len() && s[m] == 0x3a) {
            return None;
        }
        let v0 = skip_ws(s, m + 1);
        let kres = key_results();
        let v: usize;
        if eq_bytes(&key, &kres) {
            if res.is_some() {
                return None;
            }
            match parse_results_at(s, v0) {
                None => {
                    return None;
                },
                Some((ps, ve)) => {
                    res = Some(ps);
                    v = ve;
                },
            }
        } else {
            match skip_value(s, v0, SKIP_DEPTH_LIMIT) {
                None => {
                    return None;
                },
                Some(ve) => {
                    v = ve;
                },
            }
        }
        let w = skip_ws(s, v);
        if w < s.len() && s[w] == 0x2c {
            let x = skip_ws(s, w + 1);
            j = x;
        } else if w < s.len() && s[w] == 0x7d {
            match res {
                Some(ps) => {
                    return Some((ps, w + 1));
                },
                None => {
                    return None;
                },
            }
        } else {
            return None;
        }
    }
}

/// The places denoted by a response body: the body is, up to surrounding
/// whitespace, one object whose required `results` member lists the places
/// in order, or it denotes nothing.
pub open spec fn sp_decode(s: Seq<u8>) -> Option<Seq<PlaceView>> {
    let i = sp_ws(s, 0);
    if i < 0 || i > s.len() {
        None
    } else if i < s.len() && s[i] == 0x7b {
        let j = sp_ws(s, i + 1);
        if j < i + 1 || j > s.len() {
            None
        } else if j < s.len() && s[j] == 0x7d {
            None
        } else {
            match sp_top_members(s, j, None) {
                Some((ps, k)) => if sp_ws(s, k) == s.len() {
                    Some(ps)
                } else {
                    None
                },
                None => None,
            }
        }
    } else {
        None
    }
}

/// Decode the response body of the places service.
///
/// Returns the places, in the order of the `results` array, exactly when
/// the body is a well-formed places response; every other body yields the
/// decode error.
pub fn decode_places(body: &Vec<u8>) -> (r: Result<Vec<Place>, AppError>)
    ensures
        (r is Ok) == (sp_decode(body@) is Some),
        r matches Ok(v) ==> sp_decode(body@) == Some(place_views(v@)),
        r matches Err(e) ==> e == AppError::Decode,
{
    let i = skip_ws(body, 0);
    if !(i < body.len() && body[i] == 0x7b) {
        return Err(AppError::Decode);
    }
    let j = skip_ws(body, i + 1);
    if j < body.len() && body[j] == 0x7d {
        return Err(AppError::Decode);
    }
    match parse_top(body, j) {
        None => Err(AppError::Decode),
        Some((v, k)) => {
            let e = skip_ws(body, k);
            if e == body.len() {
                Ok(v)
            } else {
                Err(AppError::Decode)
            }
        },
    }
}

} // verus!
