//! Parsers for the two server response shapes: the size response
//! (`SIZE <w> <h>`, case-insensitive keyword, flexible whitespace) and
//! the pixel-color response (`PX <x> <y> <hex>` followed by whitespace).
//!
//! Parsing is tolerant: a line that does not match yields `None` and is
//! dropped by the caller; only the size response is treated as fatal,
//! and that decision belongs to the caller.

use vstd::prelude::*;
use crate::digits::{
    dec_seq_val, hex_seq_val, is_dec_digit, is_hex_digit,
};

verus! {

/// Whitespace as the protocol tolerates it: space, tab, newline,
/// vertical tab, form feed, carriage return.
pub open spec fn is_space(b: u8) -> bool {
    b == 32 || b == 9 || b == 10 || b == 11 || b == 12 || b == 13
}

/// The first index at or after `i` holding a non-whitespace byte, or the
/// length of `s` if only whitespace remains.
pub open spec fn skip_ws(s: Seq<u8>, i: int) -> int
    decreases s.len() - i,
{
    if i < 0 || i >= s.len() {
        s.len() as int
    } else if is_space(s[i]) {
        skip_ws(s, i + 1)
    } else {
        i
    }
}

/// The end of the run of decimal digits starting at `i`.
pub open spec fn dec_run_end(s: Seq<u8>, i: int) -> int
    decreases s.len() - i,
{
    if i < 0 || i >= s.len() {
        i
    } else if is_dec_digit(s[i]) {
        dec_run_end(s, i + 1)
    } else {
        i
    }
}

/// The end of the run of hex digits starting at `i`.
pub open spec fn hex_run_end(s: Seq<u8>, i: int) -> int
    decreases s.len() - i,
{
    if i < 0 || i >= s.len() {
        i
    } else if is_hex_digit(s[i]) {
        hex_run_end(s, i + 1)
    } else {
        i
    }
}

/// A run of digits fills exactly [i, j) and stops there.
pub proof fn lemma_dec_run_end_is(s: Seq<u8>, i: int, j: int)
    requires
        0 <= i <= j <= s.len(),
        forall|k: int| i <= k < j ==> is_dec_digit(#[trigger] s[k]),
        j == s.len() || !is_dec_digit(s[j]),
    ensures
        dec_run_end(s, i) == j,
    decreases j - i,
{
    if i < j {
        lemma_dec_run_end_is(s, i + 1, j);
    }
}

/// A run of hex digits fills exactly [i, j) and stops there.
pub proof fn lemma_hex_run_end_is(s: Seq<u8>, i: int, j: int)
    requires
        0 <= i <= j <= s.len(),
        forall|k: int| i <= k < j ==> is_hex_digit(#[trigger] s[k]),
        j == s.len() || !is_hex_digit(s[j]),
    ensures
        hex_run_end(s, i) == j,
    decreases j - i,
{
    if i < j {
        lemma_hex_run_end_is(s, i + 1, j);
    }
}

/// The case-insensitive keyword `SIZE` stands at index `i`.
pub open spec fn size_kw_at(s: Seq<u8>, i: int) -> bool {
    &&& 0 <= i
    &&& i + 4 <= s.len()
    &&& (s[i] == 83 || s[i] == 115)
    &&& (s[i + 1] == 73 || s[i + 1] == 105)
    &&& (s[i + 2] == 90 || s[i + 2] == 122)
    &&& (s[i + 3] == 69 || s[i + 3] == 101)
}

/// What a size-response line means: `^\s*SIZE\s+<w>\s+<h>\s*$` with
/// case-insensitive keyword, and both numbers fitting a `u16`.  Anything
/// else, an overflowing number included, is no size response.
pub open spec fn spec_parse_size(s: Seq<u8>) -> Option<(u16, u16)> {
    let i0 = skip_ws(s, 0);
    if !size_kw_at(s, i0) {
        None
    } else {
        let i2 = skip_ws(s, i0 + 4);
        let j2 = dec_run_end(s, i2);
        if i2 == i0 + 4 || j2 == i2 {
            None
        } else {
            let i3 = skip_ws(s, j2);
            let j3 = dec_run_end(s, i3);
            if i3 == j2 || j3 == i3 || skip_ws(s, j3) != s.len() {
                None
            } else {
                let w = dec_seq_val(s.subrange(i2, j2));
                let h = dec_seq_val(s.subrange(i3, j3));
                if w <= 0xFFFF && h <= 0xFFFF {
                    Some(((w as u16), (h as u16)))
                } else {
                    None
                }
            }
        }
    }
}

/// What a pixel-color response line means: `PX <x> <y> <hex>` from the
/// start of the line, single spaces, one to eight (or more) hex digits
/// whose value fits a `u32`, followed by one whitespace byte.
pub open spec fn spec_parse_pixel(s: Seq<u8>) -> Option<u32> {
    if s.len() < 3 || s[0] != 80 || s[1] != 88 || s[2] != 32 {
        None
    } else {
        let j1 = dec_run_end(s, 3);
        if j1 == 3 || j1 >= s.len() || s[j1] != 32 {
            None
        } else {
            let j2 = dec_run_end(s, j1 + 1);
            if j2 == j1 + 1 || j2 >= s.len() || s[j2] != 32 {
                None
            } else {
                let j3 = hex_run_end(s, j2 + 1);
                if j3 == j2 + 1 || j3 >= s.len() || !is_space(s[j3]) {
                    None
                } else {
                    let v = hex_seq_val(s.subrange(j2 + 1, j3));
                    if v <= 0xFFFFFFFF {
                        Some(v as u32)
                    } else {
                        None
                    }
                }
            }
        }
    }
}

fn is_space_byte(b: u8) -> (r: bool)
    ensures
        r == is_space(b),
{
    b == 32 || b == 9 || b == 10 || b == 11 || b == 12 || b == 13
}

fn is_dec_digit_byte(b: u8) -> (r: bool)
    ensures
        r == is_dec_digit(b),
{
    48 <= b && b <= 57
}

fn is_hex_digit_byte(b: u8) -> (r: bool)
    ensures
        r == is_hex_digit(b),
{
    (48 <= b && b <= 57) || (97 <= b && b <= 102) || (65 <= b && b <= 70)
}

fn scan_ws(s: &[u8], from: usize) -> (r: usize)
    requires
        from <= s@.len(),
    ensures
        r == skip_ws(s@, from as int),
        from <= r <= s@.len(),
        r < s@.len() ==> !is_space(s@[r as int]),
{
    let mut i = from;
    while i < s.len() && is_space_byte(s[i])
        invariant
            from <= i <= s@.len(),
            skip_ws(s@, from as int) == skip_ws(s@, i as int),
        decreases s@.len() - i,
    {
        i += 1;
    }
    i
}

fn scan_dec(s: &[u8], from: usize) -> (r: usize)
    requires
        from <= s@.len(),
    ensures
        r == dec_run_end(s@, from as int),
        from <= r <= s@.len(),
        forall|k: int| from <= k < r ==> is_dec_digit(#[trigger] s@[k]),
        r < s@.len() ==> !is_dec_digit(s@[r as int]),
{
    let mut i = from;
    while i < s.len() && is_dec_digit_byte(s[i])
        invariant
            from <= i <= s@.len(),
            dec_run_end(s@, from as int) == dec_run_end(s@, i as int),
            forall|k: int| from <= k < i ==> is_dec_digit(#[trigger] s@[k]),
        decreases s@.len() - i,
    {
        i += 1;
    }
    i
}

fn scan_hex(s: &[u8], from: usize) -> (r: usize)
    requires
        from <= s@.len(),
    ensures
        r == hex_run_end(s@, from as int),
        from <= r <= s@.len(),
        forall|k: int| from <= k < r ==> is_hex_digit(#[trigger] s@[k]),
        r < s@.len() ==> !is_hex_digit(s@[r as int]),
{
    let mut i = from;
    while i < s.len() && is_hex_digit_byte(s[i])
        invariant
            from <= i <= s@.len(),
            hex_run_end(s@, from as int) == hex_run_end(s@, i as int),
            forall|k: int| from <= k < i ==> is_hex_digit(#[trigger] s@[k]),
        decreases s@.len() - i,
    {
        i += 1;
    }
    i
}

fn parse_dec_run(s: &[u8], from: usize, to: usize) -> (r: Option<u16>)
    requires
        from <= to <= s@.len(),
        forall|k: int| from <= k < to ==> is_dec_digit(#[trigger] s@[k]),
    ensures
        (match r {
            Some(v) => dec_seq_val(s@.subrange(from as int, to as int)) == v as nat,
            None => dec_seq_val(s@.subrange(from as int, to as int)) > 0xFFFF,
        }),
{
    let mut acc: u64 = 0;
    let mut i = from;
    proof {
        assert(s@.subrange(from as int, from as int) =~= Seq::<u8>::empty());
    }
    while i < to
        invariant
            from <= i <= to <= s@.len(),
            forall|k: int| from <= k < to ==> is_dec_digit(#[trigger] s@[k]),
            ({
                let cur = dec_seq_val(s@.subrange(from as int, i as int));
                (acc as nat == cur && cur <= 0xFFFF) || (cur > 0xFFFF && 0xFFFF < acc <= 0xFFFFF)
            }),
        decreases to - i,
    {
        let d = s[i] - 48;
        proof {
            let pre = s@.subrange(from as int, i as int);
            let post = s@.subrange(from as int, i as int + 1);
            assert(post.drop_last() =~= pre);
            assert(post.last() == s@[i as int]);
        }
        if acc <= 0xFFFF {
            acc = acc * 10 + d as u64;
        }
        i += 1;
    }
    if acc > 0xFFFF {
        None
    } else {
        Some(acc as u16)
    }
}

fn parse_hex_run(s: &[u8], from: usize, to: usize) -> (r: Option<u32>)
    requires
        from <= to <= s@.len(),
        forall|k: int| from <= k < to ==> is_hex_digit(#[trigger] s@[k]),
    ensures
        (match r {
            Some(v) => hex_seq_val(s@.subrange(from as int, to as int)) == v as nat,
            None => hex_seq_val(s@.subrange(from as int, to as int)) > 0xFFFFFFFF,
        }),
{
    let mut acc: u64 = 0;
    let mut i = from;
    proof {
        assert(s@.subrange(from as int, from as int) =~= Seq::<u8>::empty());
    }
    while i < to
        invariant
            from <= i <= to <= s@.len(),
            forall|k: int| from <= k < to ==> is_hex_digit(#[trigger] s@[k]),
            ({
                let cur = hex_seq_val(s@.subrange(from as int, i as int));
                (acc as nat == cur && cur <= 0xFFFFFFFF) || (cur > 0xFFFFFFFF && 0xFFFFFFFF < acc
                    <= 0xFFFFFFFFF)
            }),
        decreases to - i,
    {
        let b = s[i];
        let d: u8 = if b <= 57 {
            b - 48
        } else if b >= 97 {
            b - 87
        } else {
            b - 55
        };
        proof {
            let pre = s@.subrange(from as int, i as int);
            let post = s@.subrange(from as int, i as int + 1);
            assert(post.drop_last() =~= pre);
            assert(post.last() == s@[i as int]);
        }
        if acc <= 0xFFFFFFFF {
            acc = acc * 16 + d as u64;
        }
        i += 1;
    }
    if acc > 0xFFFFFFFF {
        None
    } else {
        Some(acc as u32)
    }
}

/// Decodes a size-response line, or `None` if the line is not one.
pub fn parse_size_response(line: &[u8]) -> (r: Option<(u16, u16)>)
    ensures
        r == spec_parse_size(line@),
{
    let n = line.len();
    let i0 = scan_ws(line, 0);
    if n - i0 < 4 {
        return None;
    }
    let c0 = line[i0];
    let c1 = line[i0 + 1];
    let c2 = line[i0 + 2];
    let c3 = line[i0 + 3];
    if !((c0 == 83 || c0 == 115) && (c1 == 73 || c1 == 105) && (c2 == 90 || c2 == 122) && (c3 == 69
        || c3 == 101)) {
        return None;
    }
    let i2 = scan_ws(line, i0 + 4);
    if i2 == i0 + 4 {
        return None;
    }
    let j2 = scan_dec(line, i2);
    if j2 == i2 {
        return None;
    }
    let i3 = scan_ws(line, j2);
    if i3 == j2 {
        return None;
    }
    let j3 = scan_dec(line, i3);
    if j3 == i3 {
        return None;
    }
    let e = scan_ws(line, j3);
    if e != n {
        return None;
    }
    let w = parse_dec_run(line, i2, j2);
    let h = parse_dec_run(line, i3, j3);
    match (w, h) {
        (Some(w), Some(h)) => Some((w, h)),
        _ => None,
    }
}

/// Decodes a pixel-color response line, or `None` if the line is not
/// one; a dropped line shrinks the batch result and is not an error.
pub fn parse_pixel_response(line: &[u8]) -> (r: Option<u32>)
    ensures
        r == spec_parse_pixel(line@),
{
    let n = line.len();
    if n < 3 {
        return None;
    }
    if !(line[0] == 80 && line[1] == 88 && line[2] == 32) {
        return None;
    }
    let j1 = scan_dec(line, 3);
    if j1 == 3 || j1 >= n {
        return None;
    }
    if line[j1] != 32 {
        return None;
    }
    let j2 = scan_dec(line, j1 + 1);
    if j2 == j1 + 1 || j2 >= n {
        return None;
    }
    if line[j2] != 32 {
        return None;
    }
    let j3 = scan_hex(line, j2 + 1);
    if j3 == j2 + 1 || j3 >= n {
        return None;
    }
    if !is_space_byte(line[j3]) {
        return None;
    }
    parse_hex_run(line, j2 + 1, j3)
}

/// Only whitespace stands in [i, j), and `j` holds none (or is the end):
/// then the scan from `i` stops exactly at `j`.
pub proof fn lemma_skip_ws_is(s: Seq<u8>, i: int, j: int)
    requires
        0 <= i <= j <= s.len(),
        forall|k: int| i <= k < j ==> is_space(#[trigger] s[k]),
        j == s.len() || !is_space(s[j]),
    ensures
        skip_ws(s, i) == j,
    decreases j - i,
{
    if i < j {
        lemma_skip_ws_is(s, i + 1, j);
    }
}

/// Success is owed on a well-formed size response: a line
/// `SIZE <w> <h>` with single spaces and a trailing newline parses to
/// exactly those dimensions, for every width and height.
pub proof fn lemma_size_response_parses(w: u16, h: u16)
    ensures
        spec_parse_size(
            seq![83u8, 73u8, 90u8, 69u8, 32u8] + crate::digits::dec_digits(w as nat) + seq![32u8]
                + crate::digits::dec_digits(h as nat) + seq![10u8],
        ) == Some((w, h)),
{
    let dw = crate::digits::dec_digits(w as nat);
    let dh = crate::digits::dec_digits(h as nat);
    let s = seq![83u8, 73u8, 90u8, 69u8, 32u8] + dw + seq![32u8] + dh + seq![10u8];
    crate::digits::lemma_dec_digits_shape(w as nat);
    crate::digits::lemma_dec_digits_shape(h as nat);
    let j2 = 5 + dw.len() as int;
    let i3 = j2 + 1;
    let j3 = i3 + dh.len() as int;
    assert(s.len() == j3 + 1);
    assert(s[0] == 83 && s[1] == 73 && s[2] == 90 && s[3] == 69 && s[4] == 32);
    lemma_skip_ws_is(s, 0, 0);
    assert(size_kw_at(s, 0));
    assert forall|k: int| 5 <= k < j2 implies is_dec_digit(#[trigger] s[k]) by {
        assert(s[k] == dw[k - 5]);
    }
    assert(s[5] == dw[0]);
    lemma_skip_ws_is(s, 4, 5);
    assert(s[j2] == 32);
    lemma_dec_run_end_is(s, 5, j2);
    assert forall|k: int| i3 <= k < j3 implies is_dec_digit(#[trigger] s[k]) by {
        assert(s[k] == dh[k - i3]);
    }
    assert(s[i3] == dh[0]);
    lemma_skip_ws_is(s, j2, i3);
    assert(s[j3] == 10);
    lemma_dec_run_end_is(s, i3, j3);
    lemma_skip_ws_is(s, j3, s.len() as int);
    assert(s.subrange(5, j2) =~= dw);
    assert(s.subrange(i3, j3) =~= dh);
    crate::digits::lemma_dec_digits_value(w as nat);
    crate::digits::lemma_dec_digits_value(h as nat);
    assert(spec_parse_size(s) == Some((w, h)));
}

/// Round trip: the encoding of a pixel write, read back as a pixel-color
/// response, yields exactly the color that was written, for every
/// coordinate and every color value.
pub proof fn lemma_set_pixel_round_trip(x: u16, y: u16, rgb: u32)
    ensures
        spec_parse_pixel(crate::protocol::spec_set_pixel_line(x, y, rgb)) == Some(rgb),
{
    let dx = crate::digits::dec_digits(x as nat);
    let dy = crate::digits::dec_digits(y as nat);
    let hx = crate::digits::hex_digits_wide(rgb as nat, 6);
    let s = crate::protocol::spec_set_pixel_line(x, y, rgb);
    crate::digits::lemma_dec_digits_shape(x as nat);
    crate::digits::lemma_dec_digits_shape(y as nat);
    crate::digits::lemma_hex_digits_shape(rgb as nat, 6);
    let b = 3 + dx.len() as int;
    let c = b + 1;
    let d = c + dy.len() as int;
    let e = d + 1;
    let f = e + hx.len() as int;
    assert(s.len() == f + 1);
    assert(s[0] == 80 && s[1] == 88 && s[2] == 32);
    assert forall|k: int| 3 <= k < b implies is_dec_digit(#[trigger] s[k]) by {
        assert(s[k] == dx[k - 3]);
    }
    assert(s[b] == 32);
    assert(!is_dec_digit(32));
    lemma_dec_run_end_is(s, 3, b);
    assert forall|k: int| c <= k < d implies is_dec_digit(#[trigger] s[k]) by {
        assert(s[k] == dy[k - c]);
    }
    assert(s[d] == 32);
    lemma_dec_run_end_is(s, c, d);
    assert forall|k: int| e <= k < f implies is_hex_digit(#[trigger] s[k]) by {
        assert(s[k] == hx[k - e]);
    }
    assert(s[f] == 10);
    assert(!is_hex_digit(10));
    lemma_hex_run_end_is(s, e, f);
    assert(is_space(10));
    assert(s.subrange(e, f) =~= hx);
    crate::digits::lemma_hex_digits_value(rgb as nat, 6);
    assert(hex_seq_val(s.subrange(e, f)) == rgb as nat);
    assert(spec_parse_pixel(s) == Some(rgb));
}

/// The colors that a batch of response lines carries, in order, with
/// unparsable lines dropped.
pub open spec fn spec_collect_colors(lines: Seq<Vec<u8>>) -> Seq<u32>
    decreases lines.len(),
{
    if lines.len() == 0 {
        Seq::empty()
    } else {
        spec_collect_colors(lines.drop_last()) + (match spec_parse_pixel(lines.last()@) {
            Some(v) => seq![v],
            None => Seq::empty(),
        })
    }
}

/// Decodes a batch of pixel-color response lines, keeping the parsable
/// ones in order.  The result may be shorter than the batch; callers
/// must keep counting against the number of lines they requested.
pub fn collect_pixel_colors(lines: &Vec<Vec<u8>>) -> (r: Vec<u32>)
    ensures
        r@ == spec_collect_colors(lines@),
{
    let mut r: Vec<u32> = Vec::new();
    let mut i: usize = 0;
    while i < lines.len()
        invariant
            i <= lines@.len(),
            r@ == spec_collect_colors(lines@.take(i as int)),
        decreases lines@.len() - i,
    {
        match parse_pixel_response(lines[i].as_slice()) {
            Some(v) => r.push(v),
            None => (),
        }
        proof {
            let t = lines@.take(i as int + 1);
            assert(t.drop_last() =~= lines@.take(i as int));
            assert(t.last() == lines@[i as int]);
        }
        i += 1;
    }
    proof {
        assert(lines@.take(lines@.len() as int) =~= lines@);
    }
    r
}

} // verus!
