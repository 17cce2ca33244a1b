//! Small byte-level helpers: comparison, concatenation, and the whitespace
//! trimming applied to the line read from standard input.

use vstd::prelude::*;

verus! {

/// Byte equality of two byte vectors.
pub fn eq_bytes(a: &Vec<u8>, b: &Vec<u8>) -> (r: bool)
    ensures
        r == (a@ == b@),
{
    if a.len() != b.len() {
        return false;
    }
    let mut i: usize = 0;
    while i < a.len()
        invariant
            i <= a.len(),
            a@.len() == b@.len(),
            forall|k: int| 0 <= k < i ==> a@[k] == b@[k],
        decreases a.len() - i,
    {
        if a[i] != b[i] {
            return false;
        }
        i = i + 1;
    }
    proof {
        assert(a@ =~= b@);
    }
    true
}

/// Append the bytes of `src` to `dst`.
pub fn append_bytes(dst: &mut Vec<u8>, src: &Vec<u8>)
    ensures
        final(dst)@ == old(dst)@ + src@,
{
    let mut i: usize = 0;
    while i < src.len()
        invariant
            i <= src.len(),
            dst@ == old(dst)@ + src@.take(i as int),
        decreases src.len() - i,
    {
        dst.push(src[i]);
        proof {
            assert(old(dst)@ + src@.take(i as int) + seq![src@[i as int]] =~= old(
                dst,
            )@ + src@.take(i + 1));
        }
        i = i + 1;
    }
    proof {
        assert(src@.take(src@.len() as int) =~= src@);
    }
}

/// Copy of the bytes of `s` between `a` and `b`.
pub fn copy_range(s: &Vec<u8>, a: usize, b: usize) -> (r: Vec<u8>)
    requires
        a <= b <= s.len(),
    ensures
        r@ == s@.subrange(a as int, b as int),
{
    let mut out: Vec<u8> = Vec::new();
    let mut k = a;
    while k < b
        invariant
            a <= k <= b <= s.len(),
            out@ == s@.subrange(a as int, k as int),
        decreases b - k,
    {
        out.push(s[k]);
        proof {
            assert(s@.subrange(a as int, k as int).push(s@[k as int]) =~= s@.subrange(
                a as int,
                k + 1,
            ));
        }
        k = k + 1;
    }
    out
}

/// A single-byte white-space character: the ASCII ones.
pub open spec fn is_ws_byte1(b: u8) -> bool {
    b == 0x09 || b == 0x0a || b == 0x0b || b == 0x0c || b == 0x0d || b == 0x20
}

/// Length of the UTF-8 encoding of a Unicode white-space code point
/// starting at `i`, or zero. The set is the White_Space property that
/// standard trimming strips: the ASCII white space, next line, no-break
/// space, ogham space mark, the en-quad through hair-space run, the line
/// and paragraph separators, narrow no-break space, medium mathematical
/// space, and ideographic space.
pub open spec fn sp_ws_char_at(s: Seq<u8>, i: int) -> int {
    if i < 0 || i >= s.len() {
        0
    } else if is_ws_byte1(s[i]) {
        1
    } else if i + 2 <= s.len() && s[i] == 0xc2 && (s[i + 1] == 0x85 || s[i + 1] == 0xa0) {
        2
    } else if i + 3 <= s.len() && s[i] == 0xe1 && s[i + 1] == 0x9a && s[i + 2] == 0x80 {
        3
    } else if i + 3 <= s.len() && s[i] == 0xe2 && s[i + 1] == 0x80 && (0x80 <= s[i + 2] <= 0x8a
        || s[i + 2] == 0xa8 || s[i + 2] == 0xa9 || s[i + 2] == 0xaf) {
        3
    } else if i + 3 <= s.len() && s[i] == 0xe2 && s[i + 1] == 0x81 && s[i + 2] == 0x9f {
        3
    } else if i + 3 <= s.len() && s[i] == 0xe3 && s[i + 1] == 0x80 && s[i + 2] == 0x80 {
        3
    } else {
        0
    }
}

/// Length of the UTF-8 encoding of a Unicode white-space code point ending
/// at `j` without crossing `lo`, or zero. On the well-formed UTF-8 the
/// reader hands over, this finds the last character exactly when it is
/// white space: the encodings cannot overlap one another.
pub open spec fn sp_ws_char_ending(s: Seq<u8>, lo: int, j: int) -> int {
    if sp_ws_char_at(s, j - 1) == 1 && j - 1 >= lo {
        1
    } else if sp_ws_char_at(s, j - 2) == 2 && j - 2 >= lo {
        2
    } else if sp_ws_char_at(s, j - 3) == 3 && j - 3 >= lo {
        3
    } else {
        0
    }
}

/// First position at or after `i` that starts no white-space character.
pub open spec fn sp_trim_start(s: Seq<u8>, i: int) -> int
    decreases s.len() - i,
{
    let d = sp_ws_char_at(s, i);
    if d > 0 && i + d <= s.len() && 0 <= i {
        sp_trim_start(s, i + d)
    } else {
        i
    }
}

/// Last position in `[lo, j]` with only white-space characters between it
/// and `j`, stepping backwards one character at a time.
pub open spec fn sp_trim_end(s: Seq<u8>, lo: int, j: int) -> int
    decreases j,
{
    let d = sp_ws_char_ending(s, lo, j);
    if d > 0 && j - d >= lo && j - d >= 0 {
        sp_trim_end(s, lo, j - d)
    } else {
        j
    }
}

/// The input line with the Unicode white-space code points surrounding it
/// removed, their UTF-8 decoded at both edges.
pub open spec fn sp_trim(s: Seq<u8>) -> Seq<u8> {
    let a = sp_trim_start(s, 0);
    if a == s.len() {
        Seq::empty()
    } else {
        s.subrange(a, sp_trim_end(s, a, s.len() as int))
    }
}

/// Length of the white-space character starting at `i`, mirroring
/// `sp_ws_char_at`.
fn ws_char_at(s: &Vec<u8>, i: usize) -> (d: usize)
    requires
        i <= s.len(),
    ensures
        d as int == sp_ws_char_at(s@, i as int),
        d > 0 ==> i + d <= s.len(),
{
    if i >= s.len() {
        return 0;
    }
    let b = s[i];
    if b == 0x09 || b == 0x0a || b == 0x0b || b == 0x0c || b == 0x0d || b == 0x20 {
        1
    } else if s.len() - i >= 2 && b == 0xc2 && (s[i + 1] == 0x85 || s[i + 1] == 0xa0) {
        2
    } else if s.len() - i >= 3 && b == 0xe1 && s[i + 1] == 0x9a && s[i + 2] == 0x80 {
        3
    } else if s.len() - i >= 3 && b == 0xe2 && s[i + 1] == 0x80 && ((0x80 <= s[i + 2] && s[i + 2]
        <= 0x8a) || s[i + 2] == 0xa8 || s[i + 2] == 0xa9 || s[i + 2] == 0xaf) {
        3
    } else if s.len() - i >= 3 && b == 0xe2 && s[i + 1] == 0x81 && s[i + 2] == 0x9f {
        3
    } else if s.len() - i >= 3 && b == 0xe3 && s[i + 1] == 0x80 && s[i + 2] == 0x80 {
        3
    } else {
        0
    }
}

/// Length of the white-space character ending at `j` without crossing
/// `lo`, mirroring `sp_ws_char_ending`.
fn ws_char_ending(s: &Vec<u8>, lo: usize, j: usize) -> (d: usize)
    requires
        lo <= j <= s.len(),
    ensures
        d as int == sp_ws_char_ending(s@, lo as int, j as int),
        d > 0 ==> lo + d <= j,
{
    let c1 = if j >= 1 {
        ws_char_at(s, j - 1)
    } else {
        0
    };
    if c1 == 1 && j >= 1 && j - 1 >= lo {
        return 1;
    }
    let c2 = if j >= 2 {
        ws_char_at(s, j - 2)
    } else {
        0
    };
    if c2 == 2 && j >= 2 && j - 2 >= lo {
        return 2;
    }
    let c3 = if j >= 3 {
        ws_char_at(s, j - 3)
    } else {
        0
    };
    if c3 == 3 && j >= 3 && j - 3 >= lo {
        return 3;
    }
    0
}

/// Strip the Unicode white-space code points that surround the line read
/// on standard input (the line terminator among them), decoding their
/// UTF-8 at both edges. Empty input stays empty; the tool does not reject
/// it.
pub fn trim_input(line: &Vec<u8>) -> (r: Vec<u8>)
    ensures
        r@ == sp_trim(line@),
{
    let mut a: usize = 0;
    loop
        invariant
            a <= line.len(),
            sp_trim_start(line@, 0) == sp_trim_start(line@, a as int),
        ensures
            a <= line.len(),
            sp_trim_start(line@, 0) == sp_trim_start(line@, a as int),
            sp_ws_char_at(line@, a as int) == 0,
        decreases line.len() - a,
    {
        let d = ws_char_at(line, a);
        if d == 0 {
            break;
        }
        a = a + d;
    }
    proof {
        assert(sp_trim_start(line@, 0) == a as int);
    }
    if a == line.len() {
        return Vec::new();
    }
    let mut b: usize = line.len();
    loop
        invariant
            a <= b <= line.len(),
            sp_trim_end(line@, a as int, line@.len() as int) == sp_trim_end(
                line@,
                a as int,
                b as int,
            ),
        ensures
            a <= b <= line.len(),
            sp_trim_end(line@, a as int, line@.len() as int) == sp_trim_end(
                line@,
                a as int,
                b as int,
            ),
            sp_ws_char_ending(line@, a as int, b as int) == 0,
        decreases b,
    {
        let d = ws_char_ending(line, a, b);
        if d == 0 {
            break;
        }
        b = b - d;
    }
    proof {
        assert(sp_trim_end(line@, a as int, line@.len() as int) == b as int);
    }
    let mut out: Vec<u8> = Vec::new();
    let mut k: usize = a;
    while k < b
        invariant
            a <= k <= b <= line.len(),
            out@ == line@.subrange(a as int, k as int),
        decreases b - k,
    {
        out.push(line[k]);
        proof {
            assert(line@.subrange(a as int, k as int).push(line@[k as int]) =~= line@.subrange(
                a as int,
                k + 1,
            ));
        }
        k = k + 1;
    }
    out
}

} // verus!
