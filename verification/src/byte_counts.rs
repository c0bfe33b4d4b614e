//! A bound on the byte counts that an NZB document declares. The NZB parser
//! reads the `bytes` attribute of each segment with `u64` parsing (a value
//! that does not parse counts as 0) and adds them up, per file and then
//! over the files, in 64-bit integers. Every such attribute is written as
//! the name `bytes`, optional white space, `=`, optional white space and a
//! quoted value, so the sum of the values of all such attributes in the
//! document bounds both sums from above.

use vstd::prelude::*;

verus! {

/// An ASCII decimal digit.
pub open spec fn is_digit(b: u8) -> bool {
    48 <= b <= 57
}

/// A quote character that opens an XML attribute value.
pub open spec fn is_quote(b: u8) -> bool {
    b == 34 || b == 39
}

/// White space that XML allows around the `=` of an attribute.
pub open spec fn is_xml_space(b: u8) -> bool {
    b == 32 || b == 9 || b == 10 || b == 13
}

/// The value of a sequence of decimal digits, most significant first.
pub open spec fn decimal_value(s: Seq<u8>) -> nat
    decreases s.len(),
{
    if s.len() == 0 {
        0
    } else {
        decimal_value(s.drop_last()) * 10 + (s.last() as int - 48) as nat
    }
}

/// The text after an optional leading `+`.
pub open spec fn unsigned_digits(v: Seq<u8>) -> Seq<u8> {
    if v.len() > 0 && v[0] == 43 {
        v.drop_first()
    } else {
        v
    }
}

/// Whether every byte of `d` is a decimal digit.
pub open spec fn all_digits(d: Seq<u8>) -> bool {
    forall|k: int| 0 <= k < d.len() ==> is_digit(#[trigger] d[k])
}

/// What `u64` parsing gives for the text `v` (an optional `+`, then one or
/// more digits, with a value below 2^64), or 0 where it fails.
pub open spec fn parsed_u64_or_zero(v: Seq<u8>) -> nat {
    let d = unsigned_digits(v);
    if d.len() > 0 && all_digits(d) && decimal_value(d) < 0x1_0000_0000_0000_0000 {
        decimal_value(d)
    } else {
        0
    }
}

/// The first position at or after `i` that does not hold white space.
pub open spec fn skip_space(data: Seq<u8>, i: int) -> int
    decreases data.len() - i,
{
    if 0 <= i < data.len() && is_xml_space(data[i]) {
        skip_space(data, i + 1)
    } else {
        i
    }
}

/// The first position at or after `i` that holds the byte `q`, or the
/// length of `data` where there is none.
pub open spec fn find_byte(data: Seq<u8>, q: u8, i: int) -> int
    decreases data.len() - i,
{
    if 0 <= i < data.len() {
        if data[i] == q {
            i
        } else {
            find_byte(data, q, i + 1)
        }
    } else {
        data.len() as int
    }
}

/// The name `bytes`.
pub open spec fn bytes_name() -> Seq<u8> {
    seq![98u8, 121u8, 116u8, 101u8, 115u8]
}

/// The value of a `bytes` attribute whose name starts at `i` (the name,
/// optional white space, `=`, optional white space, a quote, the value and
/// the same quote again), as `u64` parsing reads it; 0 where no such
/// attribute starts at `i`.
pub open spec fn bytes_attr_at(data: Seq<u8>, i: int) -> nat {
    if 0 <= i && i + 5 <= data.len() && data.subrange(i, i + 5) == bytes_name() {
        let e = skip_space(data, i + 5);
        if e < data.len() && data[e] == 61 {
            let q = skip_space(data, e + 1);
            if q < data.len() && is_quote(data[q]) {
                let close = find_byte(data, data[q], q + 1);
                if close < data.len() {
                    parsed_u64_or_zero(data.subrange(q + 1, close))
                } else {
                    0
                }
            } else {
                0
            }
        } else {
            0
        }
    } else {
        0
    }
}

/// The sum of the `bytes` attributes whose names start among the first `n`
/// positions.
pub open spec fn bytes_total_upto(data: Seq<u8>, n: int) -> nat
    decreases n,
{
    if n <= 0 {
        0
    } else {
        bytes_total_upto(data, n - 1) + bytes_attr_at(data, n - 1)
    }
}

/// The sum of the values of all `bytes` attributes of the document.
pub open spec fn declared_bytes_total(data: Seq<u8>) -> nat {
    bytes_total_upto(data, data.len() as int)
}

proof fn lemma_total_monotone(data: Seq<u8>, a: int, b: int)
    requires
        a <= b,
    ensures
        bytes_total_upto(data, a) <= bytes_total_upto(data, b),
    decreases b - a,
{
    if a < b {
        lemma_total_monotone(data, a, b - 1);
    }
}

/// The value of a prefix of a digit sequence is at most that of the whole.
proof fn lemma_prefix_value_le(s: Seq<u8>, k: int)
    requires
        0 <= k <= s.len(),
        forall|j: int| 0 <= j < s.len() ==> is_digit(#[trigger] s[j]),
    ensures
        decimal_value(s.take(k)) <= decimal_value(s),
    decreases s.len(),
{
    if k < s.len() {
        let t = s.drop_last();
        assert forall|j: int| 0 <= j < t.len() implies is_digit(#[trigger] t[j]) by {
            assert(t[j] == s[j]);
        }
        lemma_prefix_value_le(t, k);
        assert(t.take(k) =~= s.take(k));
    } else {
        assert(s.take(k) =~= s);
    }
}

proof fn lemma_parsed_zero(v: Seq<u8>, d: Seq<u8>, k: int)
    requires
        d == unsigned_digits(v),
        0 <= k < d.len(),
        !is_digit(d[k]),
    ensures
        parsed_u64_or_zero(v) == 0,
{
    assert(!all_digits(d));
}

proof fn lemma_parsed_too_large(v: Seq<u8>, d: Seq<u8>)
    requires
        d == unsigned_digits(v),
        decimal_value(d) >= 0x1_0000_0000_0000_0000,
    ensures
        parsed_u64_or_zero(v) == 0,
{
}

fn skip_space_at(data: &[u8], i: usize) -> (r: usize)
    requires
        i <= data@.len(),
    ensures
        r == skip_space(data@, i as int),
        i <= r <= data@.len(),
{
    let mut j = i;
    while j < data.len() && (data[j] == 32 || data[j] == 9 || data[j] == 10 || data[j] == 13)
        invariant
            i <= j <= data@.len(),
            skip_space(data@, j as int) == skip_space(data@, i as int),
        decreases data@.len() - j,
    {
        j += 1;
    }
    j
}

fn find_byte_at(data: &[u8], q: u8, i: usize) -> (r: usize)
    requires
        i <= data@.len(),
    ensures
        r == find_byte(data@, q, i as int),
        i <= r <= data@.len(),
{
    let mut j = i;
    while j < data.len() && data[j] != q
        invariant
            i <= j <= data@.len(),
            find_byte(data@, q, j as int) == find_byte(data@, q, i as int),
        decreases data@.len() - j,
    {
        j += 1;
    }
    j
}

/// `u64` parsing of the bytes from `from` to `to`, 0 where it fails.
fn parse_u64_or_zero(data: &[u8], from: usize, to: usize) -> (r: u64)
    requires
        from <= to <= data@.len(),
    ensures
        r == parsed_u64_or_zero(data@.subrange(from as int, to as int)),
{
    let ghost v = data@.subrange(from as int, to as int);
    let mut j = from;
    if j < to && data[j] == 43 {
        j += 1;
    }
    let begin = j;
    let ghost d = data@.subrange(begin as int, to as int);
    assert(d =~= unsigned_digits(v));
    if begin == to {
        return 0;
    }
    let mut acc: u64 = 0;
    while j < to
        invariant
            from <= begin <= j <= to <= data@.len(),
            begin < to,
            d == data@.subrange(begin as int, to as int),
            d == unsigned_digits(v),
            v == data@.subrange(from as int, to as int),
            forall|k: int| begin <= k < j ==> is_digit(#[trigger] data@[k]),
            acc == decimal_value(data@.subrange(begin as int, j as int)),
        decreases to - j,
    {
        let b = data[j];
        if b < 48 || b > 57 {
            proof {
                assert(!is_digit(d[j - begin]));
                lemma_parsed_zero(v, d, j - begin);
            }
            return 0;
        }
        let dg = (b - 48) as u64;
        let ghost next = data@.subrange(begin as int, j + 1);
        assert(next.drop_last() =~= data@.subrange(begin as int, j as int));
        if acc > (u64::MAX - dg) / 10 {
            proof {
                assert(decimal_value(next) == acc * 10 + dg);
                assert(acc * 10 + dg >= 0x1_0000_0000_0000_0000) by (nonlinear_arith)
                    requires
                        acc > (0xffff_ffff_ffff_ffffu64 - dg) / 10,
                        dg <= 9,
                ;
                if all_digits(d) {
                    lemma_prefix_value_le(d, j + 1 - begin);
                    assert(d.take(j + 1 - begin) =~= next);
                    assert(decimal_value(d) >= 0x1_0000_0000_0000_0000);
                    lemma_parsed_too_large(v, d);
                } else {
                    let k = choose|k: int| 0 <= k < d.len() && !is_digit(#[trigger] d[k]);
                    lemma_parsed_zero(v, d, k);
                }
            }
            return 0;
        }
        acc = acc * 10 + dg;
        j += 1;
    }
    proof {
        assert(data@.subrange(begin as int, to as int) =~= d);
        assert forall|k: int| 0 <= k < d.len() implies is_digit(#[trigger] d[k]) by {
            assert(d[k] == data@[begin + k]);
        }
        assert(all_digits(d));
    }
    acc
}

/// The value of the `bytes` attribute whose name starts at `i`, 0 where
/// none does.
fn bytes_attr_value(data: &[u8], i: usize) -> (r: u64)
    requires
        i < data@.len(),
    ensures
        r == bytes_attr_at(data@, i as int),
{
    let n = data.len();
    if n - i < 5 || data[i] != 98 || data[i + 1] != 121 || data[i + 2] != 116 || data[i + 3]
        != 101 || data[i + 4] != 115 {
        proof {
            if i + 5 <= n && data@.subrange(i as int, i + 5) == bytes_name() {
                assert(data@.subrange(i as int, i + 5)[0] == data@[i as int]);
                assert(data@.subrange(i as int, i + 5)[1] == data@[i + 1]);
                assert(data@.subrange(i as int, i + 5)[2] == data@[i + 2]);
                assert(data@.subrange(i as int, i + 5)[3] == data@[i + 3]);
                assert(data@.subrange(i as int, i + 5)[4] == data@[i + 4]);
            }
        }
        return 0;
    }
    assert(data@.subrange(i as int, i + 5) =~= bytes_name());
    let e = skip_space_at(data, i + 5);
    if e >= n || data[e] != 61 {
        return 0;
    }
    let q = skip_space_at(data, e + 1);
    if q >= n || (data[q] != 34 && data[q] != 39) {
        return 0;
    }
    let close = find_byte_at(data, data[q], q + 1);
    if close >= n {
        return 0;
    }
    parse_u64_or_zero(data, q + 1, close)
}

/// Whether the values of the `bytes` attributes of `data` add up to less
/// than 2^64, so that no sum of them can pass the range of a 64-bit
/// integer.
pub fn declared_bytes_fit(data: &[u8]) -> (r: bool)
    ensures
        r == (declared_bytes_total(data@) < 0x1_0000_0000_0000_0000),
{
    let n = data.len();
    let mut total: u64 = 0;
    let mut i: usize = 0;
    while i < n
        invariant
            i <= n,
            n == data@.len(),
            total == bytes_total_upto(data@, i as int),
        decreases n - i,
    {
        let v = bytes_attr_value(data, i);
        if v > u64::MAX - total {
            proof {
                lemma_total_monotone(data@, i + 1, n as int);
            }
            return false;
        }
        total = total + v;
        i += 1;
    }
    true
}

} // verus!
