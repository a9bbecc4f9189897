//! Bitmap fonts in the BDF text format.
//!
//! Of a BDF source only the glyphs are read. A glyph begins at a line
//! that starts with `STARTCHAR` and ends at the line `ENDCHAR`. In
//! between, a line that starts with `ENCODING` gives the glyph's code
//! point as its second word, the line `BITMAP` opens the rows, and each
//! later line that is a hexadecimal number is one row, stored in a fixed
//! number of bytes with the leftmost pixel in the highest bit.

use vstd::prelude::*;
use vstd::slice::slice_subrange;
use std::collections::HashMap;
use crate::resources::lemma_map_values_insert;
use crate::text::{text_of, utf8_text};

verus! {

broadcast use vstd::std_specs::hash::group_hash_axioms;

/// The byte is ASCII white space.
pub open spec fn is_space(b: u8) -> bool {
    b == 0x20 || (0x09 <= b <= 0x0D)
}

/// The number of bytes from `i` up to the next line feed, or to the end.
pub open spec fn line_len(bytes: Seq<u8>, i: int) -> nat
    decreases bytes.len() - i,
{
    if i < 0 || i >= bytes.len() || bytes[i] == 0x0A {
        0
    } else {
        1 + line_len(bytes, i + 1)
    }
}

/// The line that begins at `start`, without its line feed and without a
/// carriage return in front of the line feed.
pub open spec fn line_at(bytes: Seq<u8>, start: int) -> Seq<u8> {
    let stop = start + line_len(bytes, start);
    if stop < bytes.len() && start < stop && bytes[stop - 1] == 0x0D {
        bytes.subrange(start, stop - 1)
    } else {
        bytes.subrange(start, stop)
    }
}

/// The bytes of `STARTCHAR`.
pub open spec fn word_startchar() -> Seq<u8> {
    seq![0x53u8, 0x54u8, 0x41u8, 0x52u8, 0x54u8, 0x43u8, 0x48u8, 0x41u8, 0x52u8]
}

/// The bytes of `ENCODING`.
pub open spec fn word_encoding() -> Seq<u8> {
    seq![0x45u8, 0x4Eu8, 0x43u8, 0x4Fu8, 0x44u8, 0x49u8, 0x4Eu8, 0x47u8]
}

/// The bytes of `BITMAP`.
pub open spec fn word_bitmap() -> Seq<u8> {
    seq![0x42u8, 0x49u8, 0x54u8, 0x4Du8, 0x41u8, 0x50u8]
}

/// The bytes of `ENDCHAR`.
pub open spec fn word_endchar() -> Seq<u8> {
    seq![0x45u8, 0x4Eu8, 0x44u8, 0x43u8, 0x48u8, 0x41u8, 0x52u8]
}

/// The line begins with the word.
pub open spec fn has_prefix(line: Seq<u8>, word: Seq<u8>) -> bool {
    word.len() <= line.len() && line.subrange(0, word.len() as int) == word
}

/// The index of the first byte at or behind `i` that is not white space.
pub open spec fn skip_spaces(line: Seq<u8>, i: int) -> int
    decreases line.len() - i,
{
    if 0 <= i < line.len() && is_space(line[i]) {
        skip_spaces(line, i + 1)
    } else {
        i
    }
}

/// The index of the first byte at or behind `i` that is white space.
pub open spec fn skip_word(line: Seq<u8>, i: int) -> int
    decreases line.len() - i,
{
    if 0 <= i < line.len() && !is_space(line[i]) {
        skip_word(line, i + 1)
    } else {
        i
    }
}

/// The end of the line once trailing white space is cut off, but no
/// lower than `floor`.
pub open spec fn trim_end(line: Seq<u8>, floor: int, end: int) -> int
    decreases end,
{
    if 0 <= floor < end <= line.len() && is_space(line[end - 1]) {
        trim_end(line, floor, end - 1)
    } else {
        end
    }
}

/// The line without white space at either end.
pub open spec fn trimmed(line: Seq<u8>) -> Seq<u8> {
    let start = skip_spaces(line, 0);
    if start >= line.len() {
        Seq::empty()
    } else {
        line.subrange(start, trim_end(line, start, line.len() as int))
    }
}

/// The second word of the line, if it has two.
pub open spec fn second_word(line: Seq<u8>) -> Option<Seq<u8>> {
    let first = skip_spaces(line, 0);
    let gap = skip_word(line, first);
    let second = skip_spaces(line, gap);
    if second < line.len() {
        Some(line.subrange(second, skip_word(line, second)))
    } else {
        None
    }
}

/// The value of a digit in a base of 10 or 16.
pub open spec fn digit_value(b: u8, base: int) -> Option<int> {
    if 0x30 <= b <= 0x39 {
        Some(b - 0x30)
    } else if base == 16 && 0x61 <= b <= 0x66 {
        Some(b - 0x61 + 10)
    } else if base == 16 && 0x41 <= b <= 0x46 {
        Some(b - 0x41 + 10)
    } else {
        None
    }
}

/// The value of the first `n` digits, if they are digits and the value
/// stays within `cap`.
pub open spec fn digits_value(digits: Seq<u8>, n: nat, base: int, cap: int) -> Option<int>
    decreases n,
{
    if n == 0 {
        Some(0)
    } else {
        match (digits_value(digits, (n - 1) as nat, base, cap), digit_value(digits[n - 1], base)) {
            (Some(v), Some(d)) => if v * base + d <= cap {
                Some(v * base + d)
            } else {
                None
            },
            _ => None,
        }
    }
}

/// The number that a word spells in a base: an optional plus sign and
/// then at least one digit, with a value of at most `cap`.
pub open spec fn number(word: Seq<u8>, base: int, cap: int) -> Option<int> {
    let digits = if word.len() > 0 && word[0] == 0x2B {
        word.skip(1)
    } else {
        word
    };
    if digits.len() == 0 {
        None
    } else {
        digits_value(digits, digits.len(), base, cap)
    }
}

/// The number is a Unicode scalar value.
pub open spec fn is_scalar_value(v: int) -> bool {
    0 <= v < 0xD800 || 0xE000 <= v <= 0x10FFFF
}

/// The code point that an `ENCODING` line gives: its second word as a
/// decimal number, if that is a Unicode scalar value. A line without a
/// second word leaves the code point as it was.
pub open spec fn encoding_of(line: Seq<u8>, before: Option<u32>) -> Option<u32> {
    match second_word(line) {
        None => before,
        Some(word) => match number(word, 10, u32::MAX as int) {
            Some(v) => if is_scalar_value(v) {
                Some(v as u32)
            } else {
                None
            },
            None => None,
        },
    }
}

/// 256 to the power of `n`, for `n` up to 4.
pub open spec fn place(n: int) -> int {
    if n <= 0 {
        1
    } else if n == 1 {
        0x100
    } else if n == 2 {
        0x1_0000
    } else if n == 3 {
        0x100_0000
    } else {
        0x1_0000_0000
    }
}

/// The `stride` bytes of a row with value `v`, highest byte first.
pub open spec fn row_bytes(v: int, stride: int) -> Seq<u8> {
    Seq::new(stride as nat, |k: int| ((v / place(stride - 1 - k)) % 256) as u8)
}

/// A glyph while it is read.
pub ghost struct Draft {
    pub encoding: Option<u32>,
    pub rows: Seq<u8>,
    pub in_bitmap: bool,
}

/// The draft after a line that is not `ENDCHAR`.
pub open spec fn draft_after(d: Draft, line: Seq<u8>, stride: int) -> Draft {
    if has_prefix(line, word_encoding()) {
        Draft { encoding: encoding_of(line, d.encoding), ..d }
    } else if line == word_bitmap() {
        Draft { in_bitmap: true, ..d }
    } else if d.in_bitmap {
        match number(trimmed(line), 16, place(stride) - 1) {
            Some(v) => Draft { rows: d.rows + row_bytes(v, stride), ..d },
            None => d,
        }
    } else {
        d
    }
}

/// The glyphs once a draft is finished: with the draft's rows under its
/// code point, if it has one.
pub open spec fn finished(d: Draft, glyphs: Map<u32, Seq<u8>>) -> Map<u32, Seq<u8>> {
    match d.encoding {
        Some(code) => glyphs.insert(code, d.rows),
        None => glyphs,
    }
}

/// The glyphs that reading on from `pos` gives, with `draft` as the
/// glyph being read and `glyphs` as those read so far. A glyph that the
/// source ends in is finished as it stands.
pub open spec fn glyphs_from(
    bytes: Seq<u8>,
    pos: int,
    draft: Option<Draft>,
    glyphs: Map<u32, Seq<u8>>,
    stride: int,
) -> Map<u32, Seq<u8>>
    decreases bytes.len() - pos,
{
    if pos < 0 || pos >= bytes.len() {
        match draft {
            Some(d) => finished(d, glyphs),
            None => glyphs,
        }
    } else {
        let line = line_at(bytes, pos);
        let next = if pos + line_len(bytes, pos) + 1 < bytes.len() {
            pos + line_len(bytes, pos) + 1
        } else {
            bytes.len() as int
        };
        match draft {
            None => if has_prefix(line, word_startchar()) {
                glyphs_from(
                    bytes,
                    next,
                    Some(Draft { encoding: None, rows: Seq::empty(), in_bitmap: false }),
                    glyphs,
                    stride,
                )
            } else {
                glyphs_from(bytes, next, None, glyphs, stride)
            },
            Some(d) => if !has_prefix(line, word_encoding()) && line != word_bitmap() && line
                == word_endchar() {
                glyphs_from(bytes, next, None, finished(d, glyphs), stride)
            } else {
                glyphs_from(bytes, next, Some(draft_after(d, line, stride)), glyphs, stride)
            },
        }
    }
}

/// The glyphs of a BDF source whose rows take `stride` bytes each:
/// nothing for a source that is not valid UTF-8 or a stride outside 1 to
/// 4.
pub open spec fn bdf_glyphs(bytes: Seq<u8>, stride: int) -> Option<Map<u32, Seq<u8>>> {
    if text_of(bytes) is Some && 1 <= stride <= 4 {
        Some(glyphs_from(bytes, 0, None, Map::empty(), stride))
    } else {
        None
    }
}

/// Computes where the line at `start` stops.
fn find_line_stop(bytes: &[u8], start: usize) -> (stop: usize)
    requires
        start <= bytes@.len(),
    ensures
        stop == start + line_len(bytes@, start as int),
        stop <= bytes@.len(),
{
    let n = bytes.len();
    let mut j: usize = start;
    while j < n && bytes[j] != 0x0A
        invariant
            start <= j <= n,
            n == bytes@.len(),
            j + line_len(bytes@, j as int) == start + line_len(bytes@, start as int),
        decreases n - j,
    {
        j += 1;
    }
    j
}

/// Whether the line begins with `STARTCHAR`.
fn starts_glyph(line: &[u8]) -> (r: bool)
    ensures
        r == has_prefix(line@, word_startchar()),
{
    let r = line.len() >= 9 && line[0] == 0x53 && line[1] == 0x54 && line[2] == 0x41 && line[3]
        == 0x52 && line[4] == 0x54 && line[5] == 0x43 && line[6] == 0x48 && line[7] == 0x41
        && line[8] == 0x52;
    proof {
        if line@.len() >= 9 {
            assert(r == (line@.subrange(0, 9) =~= word_startchar()));
        }
    }
    r
}

/// Whether the line begins with `ENCODING`.
fn gives_encoding(line: &[u8]) -> (r: bool)
    ensures
        r == has_prefix(line@, word_encoding()),
{
    let r = line.len() >= 8 && line[0] == 0x45 && line[1] == 0x4E && line[2] == 0x43 && line[3]
        == 0x4F && line[4] == 0x44 && line[5] == 0x49 && line[6] == 0x4E && line[7] == 0x47;
    proof {
        if line@.len() >= 8 {
            assert(r == (line@.subrange(0, 8) =~= word_encoding()));
        }
    }
    r
}

/// Whether the line is `BITMAP`.
fn opens_rows(line: &[u8]) -> (r: bool)
    ensures
        r == (line@ == word_bitmap()),
{
    let r = line.len() == 6 && line[0] == 0x42 && line[1] == 0x49 && line[2] == 0x54 && line[3]
        == 0x4D && line[4] == 0x41 && line[5] == 0x50;
    assert(r == (line@ =~= word_bitmap()));
    r
}

/// Whether the line is `ENDCHAR`.
fn ends_glyph(line: &[u8]) -> (r: bool)
    ensures
        r == (line@ == word_endchar()),
{
    let r = line.len() == 7 && line[0] == 0x45 && line[1] == 0x4E && line[2] == 0x44 && line[3]
        == 0x43 && line[4] == 0x48 && line[5] == 0x41 && line[6] == 0x52;
    assert(r == (line@ =~= word_endchar()));
    r
}

/// Whether the byte is ASCII white space.
fn space(b: u8) -> (r: bool)
    ensures
        r == is_space(b),
{
    b == 0x20 || (0x09 <= b && b <= 0x0D)
}

/// Computes [`skip_spaces`].
fn after_spaces(line: &[u8], from: usize) -> (i: usize)
    requires
        from <= line@.len(),
    ensures
        i == skip_spaces(line@, from as int),
        from <= i <= line@.len(),
{
    let n = line.len();
    let mut i: usize = from;
    while i < n && space(line[i])
        invariant
            from <= i <= n,
            n == line@.len(),
            skip_spaces(line@, i as int) == skip_spaces(line@, from as int),
        decreases n - i,
    {
        i += 1;
    }
    i
}

/// Computes [`skip_word`].
fn after_word(line: &[u8], from: usize) -> (i: usize)
    requires
        from <= line@.len(),
    ensures
        i == skip_word(line@, from as int),
        from <= i <= line@.len(),
{
    let n = line.len();
    let mut i: usize = from;
    while i < n && !space(line[i])
        invariant
            from <= i <= n,
            n == line@.len(),
            skip_word(line@, i as int) == skip_word(line@, from as int),
        decreases n - i,
    {
        i += 1;
    }
    i
}

/// Computes [`trim_end`].
fn before_spaces(line: &[u8], floor: usize) -> (end: usize)
    requires
        floor <= line@.len(),
    ensures
        end == trim_end(line@, floor as int, line@.len() as int),
        floor <= end <= line@.len(),
{
    let mut end: usize = line.len();
    while floor < end && space(line[end - 1])
        invariant
            floor <= end <= line@.len(),
            trim_end(line@, floor as int, end as int) == trim_end(
                line@,
                floor as int,
                line@.len() as int,
            ),
        decreases end,
    {
        end -= 1;
    }
    end
}

/// Computes [`digit_value`].
fn digit(b: u8, base: u64) -> (r: Option<u64>)
    requires
        base == 10 || base == 16,
    ensures
        match r {
            Some(d) => digit_value(b, base as int) == Some(d as int) && d < base,
            None => digit_value(b, base as int) is None,
        },
{
    if 0x30 <= b && b <= 0x39 {
        Some((b - 0x30) as u64)
    } else if base == 16 && 0x61 <= b && b <= 0x66 {
        Some((b - 0x61 + 10) as u64)
    } else if base == 16 && 0x41 <= b && b <= 0x46 {
        Some((b - 0x41 + 10) as u64)
    } else {
        None
    }
}

/// Computes [`number`].
fn parse_number(word: &[u8], base: u64, cap: u64) -> (r: Option<u64>)
    requires
        base == 10 || base == 16,
        cap <= u32::MAX,
    ensures
        match r {
            Some(v) => number(word@, base as int, cap as int) == Some(v as int) && v <= cap,
            None => number(word@, base as int, cap as int) is None,
        },
{
    let n = word.len();
    let first: usize = if n > 0 && word[0] == 0x2B {
        1
    } else {
        0
    };
    if first == n {
        return None;
    }
    let ghost digits = word@.skip(first as int);
    proof {
        if first == 0 {
            assert(digits =~= word@);
        }
    }
    let mut v: u64 = 0;
    let mut i: usize = first;
    while i < n
        invariant
            first <= i <= n,
            n == word@.len(),
            base == 10 || base == 16,
            cap <= u32::MAX,
            digits == word@.skip(first as int),
            digits.len() == n - first,
            number(word@, base as int, cap as int) == digits_value(
                digits,
                digits.len(),
                base as int,
                cap as int,
            ),
            digits_value(digits, (i - first) as nat, base as int, cap as int) == Some(v as int),
            v <= cap,
        decreases n - i,
    {
        let d = match digit(word[i], base) {
            Some(d) => d,
            None => {
                proof {
                    lemma_digits_fail(
                        digits,
                        (i - first + 1) as nat,
                        (n - first) as nat,
                        base as int,
                        cap as int,
                    );
                }
                return None;
            },
        };
        let next: u64 = v * base + d;
        if next > cap {
            proof {
                lemma_digits_fail(
                    digits,
                    (i - first + 1) as nat,
                    (n - first) as nat,
                    base as int,
                    cap as int,
                );
            }
            return None;
        }
        v = next;
        i += 1;
    }
    Some(v)
}

/// Once the first `i` digits have no value, no longer run of them has.
proof fn lemma_digits_fail(digits: Seq<u8>, i: nat, n: nat, base: int, cap: int)
    requires
        i <= n,
        digits_value(digits, i, base, cap) is None,
    ensures
        digits_value(digits, n, base, cap) is None,
    decreases n,
{
    if i < n {
        lemma_digits_fail(digits, i, (n - 1) as nat, base, cap);
    }
}

/// Computes [`encoding_of`].
fn read_encoding(line: &[u8], before: Option<u32>) -> (r: Option<u32>)
    ensures
        r == encoding_of(line@, before),
{
    let first = after_spaces(line, 0);
    let gap = after_word(line, first);
    let second = after_spaces(line, gap);
    if second >= line.len() {
        return before;
    }
    let end = after_word(line, second);
    let word = slice_subrange(line, second, end);
    match parse_number(word, 10, u32::MAX as u64) {
        Some(v) => {
            if v < 0xD800 || (0xE000 <= v && v <= 0x10FFFF) {
                Some(v as u32)
            } else {
                None
            }
        },
        None => None,
    }
}

/// Computes [`place`].
fn place_of(n: usize) -> (r: u64)
    requires
        n <= 4,
    ensures
        r == place(n as int),
{
    if n == 0 {
        1
    } else if n == 1 {
        0x100
    } else if n == 2 {
        0x1_0000
    } else if n == 3 {
        0x100_0000
    } else {
        0x1_0000_0000
    }
}

/// Reads a row line and appends its bytes, if it is a number.
fn read_row(line: &[u8], stride: usize, rows: &mut Vec<u8>)
    requires
        1 <= stride <= 4,
    ensures
        final(rows)@ == (match number(trimmed(line@), 16, place(stride as int) - 1) {
            Some(v) => old(rows)@ + row_bytes(v, stride as int),
            None => old(rows)@,
        }),
{
    let start = after_spaces(line, 0);
    let empty: usize = 0;
    let word = if start >= line.len() {
        slice_subrange(line, empty, empty)
    } else {
        let end = before_spaces(line, start);
        slice_subrange(line, start, end)
    };
    match parse_number(word, 16, place_of(stride) - 1) {
        Some(v) => {
            let mut k: usize = 0;
            while k < stride
                invariant
                    k <= stride,
                    1 <= stride <= 4,
                    rows@ == old(rows)@ + row_bytes(v as int, stride as int).take(k as int),
                decreases stride - k,
            {
                let b = (v / place_of(stride - 1 - k)) % 256;
                rows.push(b as u8);
                k += 1;
            }
        },
        None => {},
    }
}

/// The view of a glyph table.
pub open spec fn table_view(glyphs: HashMap<u32, Vec<u8>>) -> Map<u32, Seq<u8>> {
    glyphs@.map_values(|rows: Vec<u8>| rows@)
}

/// The view of an optional glyph table.
pub open spec fn opt_table_view(r: Option<HashMap<u32, Vec<u8>>>) -> Option<Map<u32, Seq<u8>>> {
    match r {
        Some(g) => Some(table_view(g)),
        None => None,
    }
}

/// Parses the glyphs of a BDF source whose rows take `stride` bytes
/// each.
pub fn parse_bdf(bdf_data: &[u8], stride: usize) -> (r: Option<HashMap<u32, Vec<u8>>>)
    ensures
        opt_table_view(r) == bdf_glyphs(bdf_data@, stride as int),
{
    if utf8_text(bdf_data).is_none() || stride < 1 || stride > 4 {
        return None;
    }
    let n = bdf_data.len();
    let mut glyphs: HashMap<u32, Vec<u8>> = HashMap::new();
    let mut in_glyph = false;
    let mut encoding: Option<u32> = None;
    let mut rows: Vec<u8> = Vec::new();
    let mut in_bitmap = false;
    let mut pos: usize = 0;
    let ghost goal = glyphs_from(bdf_data@, 0, None, Map::empty(), stride as int);
    assert(table_view(glyphs) =~= Map::<u32, Seq<u8>>::empty());
    while pos < n
        invariant
            pos <= n,
            n == bdf_data@.len(),
            1 <= stride <= 4,
            goal == glyphs_from(
                bdf_data@,
                pos as int,
                if in_glyph {
                    Some(Draft { encoding, rows: rows@, in_bitmap })
                } else {
                    None
                },
                table_view(glyphs),
                stride as int,
            ),
        decreases n - pos,
    {
        let stop = find_line_stop(bdf_data, pos);
        let end = if stop < n && pos < stop && bdf_data[stop - 1] == 0x0D {
            stop - 1
        } else {
            stop
        };
        let line = slice_subrange(bdf_data, pos, end);
        if !in_glyph {
            if starts_glyph(line) {
                in_glyph = true;
                encoding = None;
                rows = Vec::new();
                in_bitmap = false;
            }
        } else if gives_encoding(line) {
            encoding = read_encoding(line, encoding);
        } else if opens_rows(line) {
            in_bitmap = true;
        } else if ends_glyph(line) {
            match encoding {
                Some(code) => {
                    proof {
                        lemma_map_values_insert(glyphs@, |rows: Vec<u8>| rows@, code, rows);
                    }
                    glyphs.insert(code, rows);
                    rows = Vec::new();
                },
                None => {},
            }
            in_glyph = false;
        } else if in_bitmap {
            read_row(line, stride, &mut rows);
        }
        pos = if stop < n {
            stop + 1
        } else {
            n
        };
    }
    if in_glyph {
        match encoding {
            Some(code) => {
                proof {
                    lemma_map_values_insert(glyphs@, |rows: Vec<u8>| rows@, code, rows);
                }
                glyphs.insert(code, rows);
            },
            None => {},
        }
    }
    Some(glyphs)
}

} // verus!
