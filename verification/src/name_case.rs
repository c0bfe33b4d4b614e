//! Whether lower-casing can change the byte length of the file names that
//! the NZB parser reads from the `subject` attributes. The parser finds `.vol` in the lower-cased name of a
//! PAR2 file and uses that position in the name as it was, which is only
//! sound where lower-casing keeps every character's UTF-8 width. A name's
//! characters come from the document's text as UTF-8, from numeric
//! character references (`&#N;`, `&#xH;`) and from ASCII entities; Unicode
//! composition (NFC) can build a character whose width changes only from
//! `I` followed by U+0307, so that mark is refused as well.

use vstd::prelude::*;

use crate::bindings::{char_of_code, lossy_text, to_lowercase, unicode_lower, utf8_lossy};
use crate::text::{str_chars, string_from_chars};

verus! {

/// The number of bytes of a character in UTF-8.
pub open spec fn utf8_width(c: char) -> nat {
    let v = c as u32;
    if v < 0x80 {
        1
    } else if v < 0x800 {
        2
    } else if v < 0x10000 {
        3
    } else {
        4
    }
}

/// The number of bytes of a character sequence in UTF-8.
pub open spec fn utf8_width_seq(s: Seq<char>) -> nat
    decreases s.len(),
{
    if s.len() == 0 {
        0
    } else {
        utf8_width_seq(s.drop_last()) + utf8_width(s.last())
    }
}

/// Whether lower-casing `c` keeps its UTF-8 width, and `c` is not the
/// combining dot above (U+0307).
pub open spec fn lower_keeps_width(c: char) -> bool {
    c != '\u{307}' && utf8_width_seq(unicode_lower(seq![c])) == utf8_width(c)
}

/// The value of a digit in the given radix (10 or 16).
pub open spec fn digit_in(c: char, radix: nat) -> Option<nat> {
    let v = c as u32;
    if 48 <= v <= 57 {
        Some((v - 48) as nat)
    } else if radix == 16 && 97 <= v <= 102 {
        Some((v - 87) as nat)
    } else if radix == 16 && 65 <= v <= 70 {
        Some((v - 55) as nat)
    } else {
        None
    }
}

/// Whether every character of `s` is a digit in the radix.
pub open spec fn all_digits_in(s: Seq<char>, radix: nat) -> bool {
    forall|k: int| 0 <= k < s.len() ==> (#[trigger] digit_in(s[k], radix)) is Some
}

/// The value of a sequence of digits in the radix.
pub open spec fn radix_value(s: Seq<char>, radix: nat) -> nat
    decreases s.len(),
{
    if s.len() == 0 {
        0
    } else {
        radix_value(s.drop_last(), radix) * radix + match digit_in(s.last(), radix) {
            Some(d) => d,
            None => 0,
        }
    }
}

/// The first position at or after `i` that holds `c`, or the length of `t`.
pub open spec fn find_char_from(t: Seq<char>, c: char, i: int) -> int
    decreases t.len() - i,
{
    if 0 <= i < t.len() {
        if t[i] == c {
            i
        } else {
            find_char_from(t, c, i + 1)
        }
    } else {
        t.len() as int
    }
}

/// The code of the numeric character reference that starts at `i`: `&#`,
/// then `x` and hexadecimal digits or decimal digits, then `;`.
pub open spec fn char_ref_at(t: Seq<char>, i: int) -> Option<nat> {
    if 0 <= i && i + 2 < t.len() && t[i] == '&' && t[i + 1] == '#' {
        let hex = t[i + 2] == 'x';
        let start = if hex {
            i + 3
        } else {
            i + 2
        };
        let radix: nat = if hex {
            16
        } else {
            10
        };
        let end = find_char_from(t, ';', start);
        let s = t.subrange(start, end);
        if end < t.len() && s.len() > 0 && all_digits_in(s, radix) {
            Some(radix_value(s, radix))
        } else {
            None
        }
    } else {
        None
    }
}

/// Whether `v` is the code of a character: not a surrogate, at most
/// U+10FFFF.
pub open spec fn is_char_code(v: nat) -> bool {
    v <= 0x10FFFF && !(0xD800 <= v <= 0xDFFF)
}

/// Whether the character at `k`, and the character that a numeric
/// reference starting at `k` names, keep their width when lower-cased.
pub open spec fn position_lowers_in_place(t: Seq<char>, k: int) -> bool {
    &&& lower_keeps_width(t[k])
    &&& forall|c: char|
        #![trigger lower_keeps_width(c)]
        char_ref_at(t, k) == Some((c as u32) as nat) ==> lower_keeps_width(c)
}

/// Whether every position from `a` up to `b` keeps its width.
pub open spec fn region_lowers_in_place(t: Seq<char>, a: int, b: int) -> bool {
    forall|k: int| a <= k < b ==> #[trigger] position_lowers_in_place(t, k)
}

/// White space that XML allows around the `=` of an attribute.
pub open spec fn is_space_char(c: char) -> bool {
    c == ' ' || c == '\t' || c == '\n' || c == '\r'
}

/// The first position at or after `i` that does not hold white space.
pub open spec fn skip_space_chars(t: Seq<char>, i: int) -> int
    decreases t.len() - i,
{
    if 0 <= i < t.len() && is_space_char(t[i]) {
        skip_space_chars(t, i + 1)
    } else {
        i
    }
}

/// The name `subject`.
pub open spec fn subject_name() -> Seq<char> {
    seq!['s', 'u', 'b', 'j', 'e', 'c', 't']
}

/// The positions of the value of a `subject` attribute whose name starts
/// at `i` (the name, optional white space, `=`, optional white space, a
/// quote, the value and the same quote again), from its first character
/// to the closing quote.
pub open spec fn subject_span_at(t: Seq<char>, i: int) -> Option<(int, int)> {
    if 0 <= i && i + 7 <= t.len() && t.subrange(i, i + 7) == subject_name() {
        let e = skip_space_chars(t, i + 7);
        if e < t.len() && t[e] == '=' {
            let q = skip_space_chars(t, e + 1);
            if q < t.len() && (t[q] == '"' || t[q] == '\'') {
                let close = find_char_from(t, t[q], q + 1);
                if close < t.len() {
                    Some((q + 1, close))
                } else {
                    None
                }
            } else {
                None
            }
        } else {
            None
        }
    } else {
        None
    }
}

/// Whether the file names that the NZB document `data` can give keep
/// their byte length when lower-cased: a file's name comes from its
/// `subject` attribute, so every character of every such value, and every
/// character that a numeric reference in it names, must keep its width.
pub open spec fn names_lower_in_place(data: Seq<u8>) -> bool {
    let t = utf8_lossy(data);
    forall|i: int| #[trigger] subject_lowers_in_place(t, i)
}

/// Whether the value of the `subject` attribute whose name starts at `i`,
/// if one does, keeps its width.
pub open spec fn subject_lowers_in_place(t: Seq<char>, i: int) -> bool {
    subject_span_at(t, i) matches Some((a, b)) ==> region_lowers_in_place(t, a, b)
}

fn char_width(c: char) -> (r: u64)
    ensures
        r == utf8_width(c),
        r <= 4,
{
    let v = c as u32;
    if v < 0x80 {
        1
    } else if v < 0x800 {
        2
    } else if v < 0x10000 {
        3
    } else {
        4
    }
}

/// Whether lower-casing `c` keeps its width (and `c` is not U+0307).
pub fn keeps_width_lowered(c: char) -> (r: bool)
    ensures
        r == lower_keeps_width(c),
{
    if c == '\u{307}' {
        return false;
    }
    let mut one: Vec<char> = Vec::new();
    one.push(c);
    let s = string_from_chars(one.as_slice());
    assert(s@ =~= seq![c]);
    let low = to_lowercase(s.as_str());
    let cs = str_chars(low.as_str());
    let mut w: u128 = 0;
    let mut k: usize = 0;
    while k < cs.len()
        invariant
            k <= cs@.len(),
            cs@ == unicode_lower(seq![c]),
            w == utf8_width_seq(cs@.subrange(0, k as int)),
            w <= 4 * k,
        decreases cs@.len() - k,
    {
        assert(cs@.subrange(0, k + 1).drop_last() =~= cs@.subrange(0, k as int));
        let cw = char_width(cs[k]);
        w = w + cw as u128;
        k += 1;
    }
    assert(cs@.subrange(0, cs@.len() as int) =~= cs@);
    w == char_width(c) as u128
}

/// The code of the numeric reference at `i`, where it names a character:
/// `Some(c)` with that character, `None` where no reference starts at `i`
/// or its value is no character.
fn char_ref_char(t: &[char], i: usize) -> (r: Option<char>)
    requires
        i < t@.len(),
    ensures
        match r {
            Some(c) => char_ref_at(t@, i as int) == Some((c as u32) as nat),
            None => char_ref_at(t@, i as int) matches Some(v) ==> !is_char_code(v),
        },
{
    let n = t.len();
    if n - i <= 2 || t[i] != '&' || t[i + 1] != '#' {
        return None;
    }
    let hex = t[i + 2] == 'x';
    let start = if hex {
        i + 3
    } else {
        i + 2
    };
    let radix: u64 = if hex {
        16
    } else {
        10
    };
    let ghost gr: nat = if hex {
        16
    } else {
        10
    };
    let mut j = start;
    let mut acc: u64 = 0;
    let mut big = false;
    while j < n && t[j] != ';'
        invariant
            start <= j <= n,
            n == t@.len(),
            radix == gr,
            i + 2 < n,
            t@[i as int] == '&',
            t@[i + 1] == '#',
            hex == (t@[i + 2] == 'x'),
            gr == (if hex {
                16nat
            } else {
                10nat
            }),
            start == (if hex {
                i + 3
            } else {
                i + 2
            }),
            find_char_from(t@, ';', j as int) == find_char_from(t@, ';', start as int),
            all_digits_in(t@.subrange(start as int, j as int), gr),
            !big ==> acc == radix_value(t@.subrange(start as int, j as int), gr),
            big ==> radix_value(t@.subrange(start as int, j as int), gr) > 0x10FFFF,
            acc <= 0x10FFFF,
        decreases n - j,
    {
        let c = t[j];
        let cv = c as u32;
        let d: u64 = if 48 <= cv && cv <= 57 {
            (cv - 48) as u64
        } else if hex && 97 <= cv && cv <= 102 {
            (cv - 87) as u64
        } else if hex && 65 <= cv && cv <= 70 {
            (cv - 55) as u64
        } else {
            proof {
                let e = find_char_from(t@, ';', start as int);
                lemma_find_char_after(t@, ';', start as int, j as int);
                let s = t@.subrange(start as int, e);
                assert(s[j - start] == c);
            }
            return None;
        };
        let ghost prev = t@.subrange(start as int, j as int);
        let ghost next = t@.subrange(start as int, j + 1);
        assert(next.drop_last() =~= prev);
        assert(digit_in(c, gr) == Some(d as nat));
        assert forall|k: int| 0 <= k < next.len() implies (#[trigger] digit_in(next[k], gr)) is Some by {
            if k < prev.len() {
                assert(next[k] == prev[k]);
            }
        }
        if !big {
            let v = acc * radix + d;
            if v > 0x10FFFF {
                big = true;
            } else {
                acc = v;
            }
        } else {
            assert(radix_value(next, gr) >= radix_value(prev, gr)) by (nonlinear_arith)
                requires
                    radix_value(next, gr) == radix_value(prev, gr) * gr + d,
                    gr >= 10,
            ;
        }
        j += 1;
    }
    if j >= n || j == start {
        return None;
    }
    assert(find_char_from(t@, ';', j as int) == j);
    if big {
        return None;
    }
    match char_of_code(acc as u32) {
        Some(c) => Some(c),
        None => None,
    }
}

/// Where the search from `i` finds what the search from `j` finds and `j`
/// does not hold `c`, the search ends beyond `j`.
proof fn lemma_find_char_after(t: Seq<char>, c: char, i: int, j: int)
    requires
        0 <= i <= j,
        find_char_from(t, c, j) == find_char_from(t, c, i),
        j < t.len(),
        t[j] != c,
    ensures
        find_char_from(t, c, i) > j,
        find_char_from(t, c, i) <= t.len(),
{
    lemma_find_bounds(t, c, j + 1);
}

proof fn lemma_find_bounds(t: Seq<char>, c: char, i: int)
    requires
        0 <= i,
    ensures
        i <= find_char_from(t, c, i) <= t.len() || (i > t.len() && find_char_from(t, c, i) == t.len()),
    decreases t.len() - i,
{
    if i < t.len() && t[i] != c {
        lemma_find_bounds(t, c, i + 1);
    }
}

/// Whether the character at `k`, and the character that a numeric
/// reference starting there names, keep their width when lower-cased.
fn position_ok(t: &[char], k: usize) -> (r: bool)
    requires
        k < t@.len(),
    ensures
        r == position_lowers_in_place(t@, k as int),
{
    if !keeps_width_lowered(t[k]) {
        return false;
    }
    match char_ref_char(t, k) {
        Some(c) => {
            if !keeps_width_lowered(c) {
                assert(char_ref_at(t@, k as int) == Some((c as u32) as nat));
                return false;
            }
            assert forall|c2: char| char_ref_at(t@, k as int) == Some((c2 as u32) as nat) implies #[trigger] lower_keeps_width(c2) by {
                vstd::utf8::char_u32_cast(c, c as u32);
                vstd::utf8::char_u32_cast(c2, c2 as u32);
                assert(c2 == c);
            }
        },
        None => {
            assert forall|c2: char| char_ref_at(t@, k as int) == Some((c2 as u32) as nat) implies #[trigger] lower_keeps_width(c2) by {
                vstd::utf8::char_is_scalar(c2);
                assert(is_char_code((c2 as u32) as nat));
            }
        },
    }
    true
}

/// Whether every position from `a` up to `b` keeps its width.
fn region_ok(t: &[char], a: usize, b: usize) -> (r: bool)
    requires
        a <= b <= t@.len(),
    ensures
        r == region_lowers_in_place(t@, a as int, b as int),
{
    let mut k = a;
    while k < b
        invariant
            a <= k <= b,
            b <= t@.len(),
            forall|j: int| a <= j < k ==> #[trigger] position_lowers_in_place(t@, j),
        decreases b - k,
    {
        if !position_ok(t, k) {
            return false;
        }
        k += 1;
    }
    true
}

fn skip_space_from(t: &[char], i: usize) -> (r: usize)
    requires
        i <= t@.len(),
    ensures
        r == skip_space_chars(t@, i as int),
        i <= r <= t@.len(),
{
    let mut j = i;
    while j < t.len() && (t[j] == ' ' || t[j] == '\t' || t[j] == '\n' || t[j] == '\r')
        invariant
            i <= j <= t@.len(),
            skip_space_chars(t@, j as int) == skip_space_chars(t@, i as int),
        decreases t@.len() - j,
    {
        j += 1;
    }
    j
}

fn find_char_at(t: &[char], c: char, i: usize) -> (r: usize)
    requires
        i <= t@.len(),
    ensures
        r == find_char_from(t@, c, i as int),
        i <= r <= t@.len(),
{
    let mut j = i;
    while j < t.len() && t[j] != c
        invariant
            i <= j <= t@.len(),
            find_char_from(t@, c, j as int) == find_char_from(t@, c, i as int),
        decreases t@.len() - j,
    {
        j += 1;
    }
    j
}

/// The value of the `subject` attribute whose name starts at `i`.
fn subject_span(t: &[char], i: usize) -> (r: Option<(usize, usize)>)
    requires
        i < t@.len(),
    ensures
        match r {
            Some((a, b)) => subject_span_at(t@, i as int) == Some((a as int, b as int)) && a <= b
                <= t@.len(),
            None => subject_span_at(t@, i as int) is None,
        },
{
    let n = t.len();
    if n - i < 7 || t[i] != 's' || t[i + 1] != 'u' || t[i + 2] != 'b' || t[i + 3] != 'j' || t[i
        + 4] != 'e' || t[i + 5] != 'c' || t[i + 6] != 't' {
        proof {
            if i + 7 <= n && t@.subrange(i as int, i + 7) == subject_name() {
                let w = t@.subrange(i as int, i + 7);
                assert(w[0] == t@[i as int] && w[1] == t@[i + 1] && w[2] == t@[i + 2]);
                assert(w[3] == t@[i + 3] && w[4] == t@[i + 4] && w[5] == t@[i + 5] && w[6] == t@[i
                    + 6]);
            }
        }
        return None;
    }
    assert(t@.subrange(i as int, i + 7) =~= subject_name());
    let e = skip_space_from(t, i + 7);
    if e >= n || t[e] != '=' {
        return None;
    }
    let q = skip_space_from(t, e + 1);
    if q >= n || (t[q] != '"' && t[q] != '\'') {
        return None;
    }
    let close = find_char_at(t, t[q], q + 1);
    if close >= n {
        return None;
    }
    Some((q + 1, close))
}

/// Whether the file names that the NZB document `data` can give keep
/// their byte length when lower-cased.
pub fn names_keep_length(data: &[u8]) -> (r: bool)
    ensures
        r == names_lower_in_place(data@),
{
    let text = lossy_text(data);
    let t = str_chars(text.as_str());
    let n = t.len();
    let mut i: usize = 0;
    while i < n
        invariant
            i <= n,
            n == t@.len(),
            t@ == utf8_lossy(data@),
            forall|k: int| 0 <= k < i ==> #[trigger] subject_lowers_in_place(t@, k),
        decreases n - i,
    {
        match subject_span(t.as_slice(), i) {
            Some((a, b)) => {
                if !region_ok(t.as_slice(), a, b) {
                    assert(!subject_lowers_in_place(t@, i as int));
                    return false;
                }
            },
            None => {},
        }
        i += 1;
    }
    proof {
        assert forall|k: int| #[trigger] subject_lowers_in_place(t@, k) by {
            if !(0 <= k < n) {
                assert(subject_span_at(t@, k) is None);
            }
        }
    }
    true
}

} // verus!
