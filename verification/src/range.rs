//! HTTP `Range` header parsing for 206 Partial Content responses.

use vstd::prelude::*;

use crate::error::DavServerError;
use crate::text::{
    all_digits, chars_range, decimal, find_char, first_index_of, is_digit, is_prefix, is_ws,
    lemma_decimal_digits, lemma_parse_decimal, parse_u64, parse_unsigned, push_chars, starts_with,
    str_chars, string_from_chars, trim, trim_end_seq, trim_seq, trim_start_seq,
};

verus! {

/// A byte range from an HTTP `Range` header; both ends are included.
#[derive(Debug, Clone, Copy, PartialEq, Eq, Structural)]
pub struct ByteRange {
    pub start: u64,
    pub end: u64,
}

impl ByteRange {
    /// The number of bytes in the range, both ends included.
    pub fn length(&self) -> (r: u64)
        requires
            self.start <= self.end,
            self.end - self.start + 1 <= u64::MAX,
        ensures
            r == self.end - self.start + 1,
    {
        self.end - self.start + 1
    }
}

/// The pieces of `s` between occurrences of `sep`, as `str::split` yields
/// them: `n` separators give `n + 1` pieces, empty ones included.
pub open spec fn split_seq(s: Seq<char>, sep: char) -> Seq<Seq<char>>
    decreases s.len(),
{
    if s.len() == 0 {
        seq![Seq::<char>::empty()]
    } else {
        let p = split_seq(s.drop_last(), sep);
        if s.last() == sep {
            p.push(Seq::<char>::empty())
        } else {
            p.update(p.len() - 1, p.last().push(s.last()))
        }
    }
}

pub proof fn lemma_split_nonempty(s: Seq<char>, sep: char)
    ensures
        split_seq(s, sep).len() >= 1,
    decreases s.len(),
{
    if s.len() > 0 {
        lemma_split_nonempty(s.drop_last(), sep);
    }
}

/// The pieces of `s` between occurrences of `sep`.
pub fn split_chars(s: &[char], sep: char) -> (r: Vec<Vec<char>>)
    ensures
        r@.len() == split_seq(s@, sep).len(),
        forall|i: int| 0 <= i < r@.len() ==> #[trigger] r@[i]@ == split_seq(s@, sep)[i],
{
    let mut done: Vec<Vec<char>> = Vec::new();
    let mut cur: Vec<char> = Vec::new();
    let mut i: usize = 0;
    while i < s.len()
        invariant
            i <= s@.len(),
            done@.len() + 1 == split_seq(s@.subrange(0, i as int), sep).len(),
            forall|k: int| 0 <= k < done@.len() ==> #[trigger] done@[k]@ == split_seq(
                s@.subrange(0, i as int),
                sep,
            )[k],
            cur@ == split_seq(s@.subrange(0, i as int), sep).last(),
        decreases s@.len() - i,
    {
        let ghost prev = s@.subrange(0, i as int);
        proof {
            lemma_split_nonempty(prev, sep);
        }
        assert(s@.subrange(0, i + 1).drop_last() =~= prev);
        if s[i] == sep {
            let piece = cur;
            done.push(piece);
            cur = Vec::new();
        } else {
            cur.push(s[i]);
        }
        i += 1;
    }
    assert(s@.subrange(0, s@.len() as int) =~= s@);
    proof {
        lemma_split_nonempty(s@, sep);
    }
    done.push(cur);
    done
}

/// The error text for a malformed part: `"{what}{part}"`.
pub open spec fn part_error(what: Seq<char>, part: Seq<char>) -> Seq<char> {
    what + part
}

/// What one comma-separated part of the header gives: `Ok(None)` for an
/// empty part, `Ok(Some(range))`, or the error text.
pub open spec fn parse_part_spec(part0: Seq<char>, size: u64) -> Result<
    Option<ByteRange>,
    Seq<char>,
> {
    let part = trim_seq(part0);
    if part.len() == 0 {
        Ok(None)
    } else if part[0] == '-' {
        match parse_unsigned(part.drop_first(), u64::MAX as nat) {
            None => Err(part_error("invalid suffix: "@, part)),
            Some(n) => if n == 0 || n > size {
                Err(part_error("unsatisfiable suffix range: "@, part))
            } else {
                Ok(Some(ByteRange { start: (size - n) as u64, end: (size - 1) as u64 }))
            },
        }
    } else {
        match first_index_of(part, '-') {
            None => Err(part_error("malformed range spec: "@, part)),
            Some(i) => {
                let start_s = part.subrange(0, i);
                let end_s = part.subrange(i + 1, part.len() as int);
                match parse_unsigned(start_s, u64::MAX as nat) {
                    None => Err(part_error("invalid start: "@, part)),
                    Some(start) => if end_s.len() == 0 {
                        if start >= size {
                            Err(part_error("start beyond file size: "@, part))
                        } else {
                            Ok(Some(ByteRange { start: start as u64, end: (size - 1) as u64 }))
                        }
                    } else {
                        match parse_unsigned(end_s, u64::MAX as nat) {
                            None => Err(part_error("invalid end: "@, part)),
                            Some(end) => if start > end || start >= size {
                                Err(part_error("unsatisfiable range: "@, part))
                            } else {
                                Ok(
                                    Some(
                                        ByteRange {
                                            start: start as u64,
                                            end: if end < size {
                                                end as u64
                                            } else {
                                                (size - 1) as u64
                                            },
                                        },
                                    ),
                                )
                            },
                        }
                    },
                }
            },
        }
    }
}

/// The ranges of the parts, in order, or the error of the first bad part.
pub open spec fn parse_parts_spec(parts: Seq<Seq<char>>, size: u64) -> Result<
    Seq<ByteRange>,
    Seq<char>,
>
    decreases parts.len(),
{
    if parts.len() == 0 {
        Ok(Seq::empty())
    } else {
        match parse_parts_spec(parts.drop_last(), size) {
            Err(e) => Err(e),
            Ok(rs) => match parse_part_spec(parts.last(), size) {
                Err(e) => Err(e),
                Ok(None) => Ok(rs),
                Ok(Some(r)) => Ok(rs.push(r)),
            },
        }
    }
}

/// What a `Range` header value means for a file of `size` bytes: the ranges
/// it asks for, or the text of the error that rejects it.
pub open spec fn parse_range_spec(header: Seq<char>, size: u64) -> Result<
    Seq<ByteRange>,
    Seq<char>,
> {
    let h = trim_seq(header);
    if !is_prefix("bytes="@, h) {
        Err("missing 'bytes=' prefix"@)
    } else {
        match parse_parts_spec(split_seq(h.subrange(6, h.len() as int), ','), size) {
            Err(e) => Err(e),
            Ok(rs) => if rs.len() == 0 {
                Err("no ranges specified"@)
            } else {
                Ok(rs)
            },
        }
    }
}

fn part_error_string(what: &str, part: &[char]) -> (r: String)
    ensures
        r@ == part_error(what@, part@),
{
    let mut v = str_chars(what);
    push_chars(&mut v, part);
    string_from_chars(v.as_slice())
}

fn parse_part(part0: &[char], size: u64) -> (r: Result<Option<ByteRange>, String>)
    ensures
        match r {
            Ok(x) => parse_part_spec(part0@, size) == Ok::<Option<ByteRange>, Seq<char>>(x),
            Err(e) => parse_part_spec(part0@, size) == Err::<Option<ByteRange>, Seq<char>>(e@),
        },
{
    let part = trim(part0);
    if part.len() == 0 {
        return Ok(None);
    }
    if part[0] == '-' {
        let digits = chars_range(part.as_slice(), 1, part.len());
        assert(digits@ =~= part@.drop_first());
        match parse_u64(digits.as_slice()) {
            None => Err(part_error_string("invalid suffix: ", part.as_slice())),
            Some(n) => {
                if n == 0 || n > size {
                    Err(part_error_string("unsatisfiable suffix range: ", part.as_slice()))
                } else {
                    Ok(Some(ByteRange { start: size - n, end: size - 1 }))
                }
            },
        }
    } else {
        match find_char(part.as_slice(), '-') {
            None => Err(part_error_string("malformed range spec: ", part.as_slice())),
            Some(i) => {
                let start_s = chars_range(part.as_slice(), 0, i);
                let end_s = chars_range(part.as_slice(), i + 1, part.len());
                match parse_u64(start_s.as_slice()) {
                    None => Err(part_error_string("invalid start: ", part.as_slice())),
                    Some(start) => {
                        if end_s.len() == 0 {
                            if start >= size {
                                Err(part_error_string("start beyond file size: ", part.as_slice()))
                            } else {
                                Ok(Some(ByteRange { start, end: size - 1 }))
                            }
                        } else {
                            match parse_u64(end_s.as_slice()) {
                                None => Err(part_error_string("invalid end: ", part.as_slice())),
                                Some(end) => {
                                    if start > end || start >= size {
                                        Err(part_error_string("unsatisfiable range: ", part.as_slice()))
                                    } else {
                                        let e = if end < size {
                                            end
                                        } else {
                                            size - 1
                                        };
                                        Ok(Some(ByteRange { start, end: e }))
                                    }
                                },
                            }
                        }
                    },
                }
            },
        }
    }
}

/// Parses an HTTP `Range` header value for a file of `file_size` bytes.
///
/// Supports `bytes=start-end` (both included), `bytes=start-` (to the end of
/// the file) and `bytes=-suffix` (the last bytes), comma-separated. Returns
/// `InvalidRange` on malformed input or unsatisfiable ranges.
pub fn parse_range(header: &str, file_size: u64) -> (r: Result<Vec<ByteRange>, DavServerError>)
    ensures
        match r {
            Ok(v) => parse_range_spec(header@, file_size) == Ok::<Seq<ByteRange>, Seq<char>>(v@),
            Err(DavServerError::InvalidRange(m)) => parse_range_spec(header@, file_size) == Err::<
                Seq<ByteRange>,
                Seq<char>,
            >(m@),
            Err(_) => false,
        },
{
    let hc = str_chars(header);
    let h = trim(hc.as_slice());
    let prefix = str_chars("bytes=");
    if !starts_with(h.as_slice(), prefix.as_slice()) {
        let m = str_chars("missing 'bytes=' prefix");
        return Err(DavServerError::InvalidRange(string_from_chars(m.as_slice())));
    }
    proof {
        reveal_strlit("bytes=");
    }
    let rest = chars_range(h.as_slice(), 6, h.len());
    let parts = split_chars(rest.as_slice(), ',');
    let ghost sparts = split_seq(rest@, ',');
    let mut ranges: Vec<ByteRange> = Vec::new();
    let mut i: usize = 0;
    while i < parts.len()
        invariant
            h@ == trim_seq(header@),
            is_prefix("bytes="@, h@),
            rest@ == h@.subrange(6, h@.len() as int),
            sparts == split_seq(rest@, ','),
            i <= parts@.len(),
            parts@.len() == sparts.len(),
            forall|k: int| 0 <= k < parts@.len() ==> #[trigger] parts@[k]@ == sparts[k],
            parse_parts_spec(sparts.subrange(0, i as int), file_size) == Ok::<
                Seq<ByteRange>,
                Seq<char>,
            >(ranges@),
        decreases parts@.len() - i,
    {
        assert(sparts.subrange(0, i + 1).drop_last() =~= sparts.subrange(0, i as int));
        assert(sparts.subrange(0, i + 1).last() == parts@[i as int]@);
        match parse_part(parts[i].as_slice(), file_size) {
            Err(e) => {
                proof {
                    lemma_parts_error_propagates(sparts, i as int + 1, file_size);
                }
                return Err(DavServerError::InvalidRange(e));
            },
            Ok(None) => {},
            Ok(Some(rg)) => {
                ranges.push(rg);
            },
        }
        i += 1;
    }
    assert(sparts.subrange(0, parts@.len() as int) =~= sparts);
    if ranges.len() == 0 {
        let m = str_chars("no ranges specified");
        return Err(DavServerError::InvalidRange(string_from_chars(m.as_slice())));
    }
    Ok(ranges)
}

/// Once a prefix of the parts fails, every longer prefix fails the same way.
pub proof fn lemma_parts_error_propagates(parts: Seq<Seq<char>>, i: int, size: u64)
    requires
        0 <= i <= parts.len(),
        parse_parts_spec(parts.subrange(0, i), size) is Err,
    ensures
        parse_parts_spec(parts, size) == parse_parts_spec(parts.subrange(0, i), size),
    decreases parts.len() - i,
{
    if i < parts.len() {
        assert(parts.subrange(0, i + 1).drop_last() =~= parts.subrange(0, i));
        lemma_parts_error_propagates(parts, i + 1, size);
    } else {
        assert(parts.subrange(0, i) =~= parts);
    }
}

/// Every range that the parser accepts for a file of `size` bytes lies
/// inside the file and is not empty.
pub proof fn lemma_parse_range_within_file(header: Seq<char>, size: u64)
    ensures
        parse_range_spec(header, size) matches Ok(rs) ==> rs.len() > 0 && forall|k: int|
            0 <= k < rs.len() ==> #[trigger] rs[k].start <= rs[k].end && rs[k].end < size,
{
    let h = trim_seq(header);
    if is_prefix("bytes="@, h) {
        let parts = split_seq(h.subrange(6, h.len() as int), ',');
        lemma_parts_within_file(parts, size);
        if let Ok(rs) = parse_parts_spec(parts, size) {
            if rs.len() > 0 {
                assert(parse_range_spec(header, size) == Ok::<Seq<ByteRange>, Seq<char>>(rs));
            }
        }
    }
}

/// The ranges that the parts give, in order, empty parts skipped and bad
/// parts ignored.
pub open spec fn accepted_ranges(parts: Seq<Seq<char>>, size: u64) -> Seq<ByteRange>
    decreases parts.len(),
{
    if parts.len() == 0 {
        Seq::empty()
    } else {
        let rs = accepted_ranges(parts.drop_last(), size);
        match parse_part_spec(parts.last(), size) {
            Ok(Some(r)) => rs.push(r),
            _ => rs,
        }
    }
}

/// The parts parse exactly when each of them does, and then they give the
/// ranges of the non-empty parts in order.
proof fn lemma_parts_accepted(parts: Seq<Seq<char>>, size: u64)
    ensures
        (parse_parts_spec(parts, size) is Ok) <==> (forall|i: int|
            0 <= i < parts.len() ==> #[trigger] parse_part_spec(parts[i], size) is Ok),
        parse_parts_spec(parts, size) is Ok ==> parse_parts_spec(parts, size) == Ok::<
            Seq<ByteRange>,
            Seq<char>,
        >(accepted_ranges(parts, size)),
    decreases parts.len(),
{
    if parts.len() > 0 {
        let init = parts.drop_last();
        lemma_parts_accepted(init, size);
        if forall|i: int| 0 <= i < parts.len() ==> #[trigger] parse_part_spec(parts[i], size) is Ok {
            assert forall|i: int| 0 <= i < init.len() implies #[trigger] parse_part_spec(init[i], size) is Ok by {
                assert(init[i] == parts[i]);
            }
            assert(parse_part_spec(parts[parts.len() - 1], size) is Ok);
        } else {
            let k = choose|k: int| 0 <= k < parts.len() && !(#[trigger] parse_part_spec(parts[k], size) is Ok);
            if k < init.len() {
                assert(init[k] == parts[k]);
                assert(!(parse_part_spec(init[k], size) is Ok));
            } else {
                assert(parts.last() == parts[k]);
            }
        }
    }
}

/// A `Range` header is accepted exactly when, once trimmed, it starts with
/// `bytes=`, every comma-separated part after that is empty or a
/// satisfiable `-N`, `S-` or `S-E` (each part as `parse_part_spec` reads
/// it), and at least one part is not empty; the ranges are then those of
/// the non-empty parts, in order. Every rejection is an error text, which
/// `parse_range` answers with `InvalidRange`.
pub proof fn lemma_parse_range_accepts(header: Seq<char>, size: u64)
    ensures
        ({
            let h = trim_seq(header);
            let parts = split_seq(h.subrange(6, h.len() as int), ',');
            &&& (parse_range_spec(header, size) is Ok) <==> (is_prefix("bytes="@, h) && (forall|i: int|
                0 <= i < parts.len() ==> #[trigger] parse_part_spec(parts[i], size) is Ok)
                && accepted_ranges(parts, size).len() > 0)
            &&& parse_range_spec(header, size) is Ok ==> parse_range_spec(header, size) == Ok::<
                Seq<ByteRange>,
                Seq<char>,
            >(accepted_ranges(parts, size))
        }),
{
    let h = trim_seq(header);
    let parts = split_seq(h.subrange(6, h.len() as int), ',');
    lemma_parts_accepted(parts, size);
}

proof fn lemma_parts_within_file(parts: Seq<Seq<char>>, size: u64)
    ensures
        parse_parts_spec(parts, size) matches Ok(rs) ==> forall|k: int|
            0 <= k < rs.len() ==> #[trigger] rs[k].start <= rs[k].end && rs[k].end < size,
    decreases parts.len(),
{
    if parts.len() > 0 {
        lemma_parts_within_file(parts.drop_last(), size);
        lemma_part_within_file(parts.last(), size);
    }
}

proof fn lemma_part_within_file(part: Seq<char>, size: u64)
    ensures
        parse_part_spec(part, size) matches Ok(Some(r)) ==> r.start <= r.end && r.end < size,
{
}

/// Text that starts and ends with a character other than white space
/// is its own trimmed form.
proof fn lemma_trim_keeps(t: Seq<char>)
    requires
        t.len() > 0,
        !is_ws(t[0]),
        !is_ws(t.last()),
    ensures
        trim_seq(t) == t,
{
    assert(trim_start_seq(t) == t);
    assert(trim_end_seq(t) == t);
}

/// Text without the separator is one piece.
proof fn lemma_split_single(t: Seq<char>, sep: char)
    requires
        forall|i: int| 0 <= i < t.len() ==> #[trigger] t[i] != sep,
    ensures
        split_seq(t, sep) == seq![t],
    decreases t.len(),
{
    if t.len() > 0 {
        let u = t.drop_last();
        assert forall|i: int| 0 <= i < u.len() implies #[trigger] u[i] != sep by {
            assert(u[i] == t[i]);
        }
        lemma_split_single(u, sep);
        assert(t.last() == t[t.len() - 1]);
        assert(u.push(t.last()) =~= t);
        assert(seq![u].update(0, u.push(t.last())) =~= seq![t]);
    } else {
        assert(t =~= Seq::<char>::empty());
    }
}

/// The range part `S-E`, written in decimal.
pub open spec fn range_part_text(s: nat, e: nat) -> Seq<char> {
    decimal(s) + seq!['-'] + decimal(e)
}

/// A part `S-E` with `S <= E` and `S` inside a file of `size` bytes asks
/// for the bytes from `S` to `E`, or to the file's end where `E` lies
/// beyond it; in particular `S-S` is the one byte `S`.
pub proof fn lemma_part_start_end(s: u64, e: u64, size: u64)
    requires
        s <= e,
        s < size,
    ensures
        parse_part_spec(range_part_text(s as nat, e as nat), size) == Ok::<Option<ByteRange>, Seq<char>>(
            Some(ByteRange { start: s, end: if e < size { e } else { (size - 1) as u64 } }),
        ),
{
    let ds = decimal(s as nat);
    let de = decimal(e as nat);
    let p = range_part_text(s as nat, e as nat);
    lemma_decimal_digits(s as nat);
    lemma_decimal_digits(e as nat);
    lemma_parse_decimal(s as nat, u64::MAX as nat);
    lemma_parse_decimal(e as nat, u64::MAX as nat);
    assert(p[0] == ds[0]);
    assert(is_digit(ds[0]));
    assert(p.last() == de[de.len() - 1]);
    assert(is_digit(de[de.len() - 1]));
    lemma_trim_keeps(p);
    let i = ds.len() as int;
    assert(p[i] == '-');
    assert forall|j: int| 0 <= j < i implies p[j] != '-' by {
        assert(p[j] == ds[j]);
        assert(is_digit(ds[j]));
    }
    let k = first_index_of(p, '-');
    assert(k == Some(i)) by {
        let c = choose|c: int| 0 <= c < p.len() && p[c] == '-' && forall|j: int| 0 <= j < c ==> p[j] != '-';
        if c < i {
        } else if c > i {
            assert(p[i] != '-');
        }
    }
    assert(p.subrange(0, i) =~= ds);
    assert(p.subrange(i + 1, p.len() as int) =~= de);
}

/// A header `bytes=` followed by a single part (one without a comma, that
/// starts and ends with something other than white space) gives what that
/// part gives.
proof fn lemma_single_part_header(p: Seq<char>, size: u64, r: ByteRange)
    requires
        p.len() > 0,
        !is_ws(p.last()),
        forall|j: int| 0 <= j < p.len() ==> #[trigger] p[j] != ',',
        parse_part_spec(p, size) == Ok::<Option<ByteRange>, Seq<char>>(Some(r)),
    ensures
        parse_range_spec("bytes="@ + p, size) == Ok::<Seq<ByteRange>, Seq<char>>(seq![r]),
{
    reveal_strlit("bytes=");
    let h = "bytes="@ + p;
    assert(h[0] == 'b');
    assert(h.last() == p.last());
    lemma_trim_keeps(h);
    assert(h.subrange(0, 6) =~= "bytes="@);
    assert(h.subrange(6, h.len() as int) =~= p);
    lemma_split_single(p, ',');
    let parts = seq![p];
    assert(parts.drop_last() =~= Seq::<Seq<char>>::empty());
    assert(parse_parts_spec(parts.drop_last(), size) == Ok::<Seq<ByteRange>, Seq<char>>(Seq::empty()));
    assert(Seq::<ByteRange>::empty().push(r) =~= seq![r]);
}

/// The header `bytes=S-E` with `S <= E` and `S` inside a file of `size`
/// bytes is accepted and asks for exactly one range: the bytes from `S` to
/// `E`, or to the file's end where `E` lies beyond it.
pub proof fn lemma_range_start_end(s: u64, e: u64, size: u64)
    requires
        s <= e,
        s < size,
    ensures
        parse_range_spec("bytes="@ + range_part_text(s as nat, e as nat), size) == Ok::<Seq<ByteRange>, Seq<char>>(
            seq![ByteRange { start: s, end: if e < size { e } else { (size - 1) as u64 } }],
        ),
{
    let p = range_part_text(s as nat, e as nat);
    let ds = decimal(s as nat);
    let de = decimal(e as nat);
    lemma_decimal_digits(s as nat);
    lemma_decimal_digits(e as nat);
    assert(p.last() == de[de.len() - 1]);
    assert(is_digit(de[de.len() - 1]));
    assert forall|j: int| 0 <= j < p.len() implies #[trigger] p[j] != ',' by {
        if j < ds.len() {
            assert(p[j] == ds[j]);
            assert(is_digit(ds[j]));
        } else if j > ds.len() {
            assert(p[j] == de[j - ds.len() - 1]);
            assert(is_digit(de[j - ds.len() - 1]));
        }
    }
    lemma_part_start_end(s, e, size);
    lemma_single_part_header(p, size, ByteRange { start: s, end: if e < size { e } else { (size - 1) as u64 } });
}

/// The header `bytes=-N` with `1 <= N <= size` asks for the last `N` bytes
/// of the file: from `size - N` to `size - 1`.
pub proof fn lemma_range_suffix(n: u64, size: u64)
    requires
        1 <= n <= size,
    ensures
        parse_range_spec("bytes="@ + seq!['-'] + decimal(n as nat), size) == Ok::<Seq<ByteRange>, Seq<char>>(
            seq![ByteRange { start: (size - n) as u64, end: (size - 1) as u64 }],
        ),
{
    let dn = decimal(n as nat);
    let p = seq!['-'] + dn;
    lemma_decimal_digits(n as nat);
    lemma_parse_decimal(n as nat, u64::MAX as nat);
    assert(p[0] == '-');
    assert(!is_ws(p[0]));
    assert(p.last() == dn[dn.len() - 1]);
    assert(is_digit(dn[dn.len() - 1]));
    lemma_trim_keeps(p);
    assert(p.drop_first() =~= dn);
    assert forall|j: int| 0 <= j < p.len() implies #[trigger] p[j] != ',' by {
        if j > 0 {
            assert(p[j] == dn[j - 1]);
            assert(is_digit(dn[j - 1]));
        }
    }
    assert("bytes="@ + seq!['-'] + dn =~= "bytes="@ + p);
    lemma_single_part_header(p, size, ByteRange { start: (size - n) as u64, end: (size - 1) as u64 });
}

/// The header `bytes=S-` with `S` inside a file of `size` bytes asks for
/// the bytes from `S` to the end of the file.
pub proof fn lemma_range_open_end(s: u64, size: u64)
    requires
        s < size,
    ensures
        parse_range_spec("bytes="@ + decimal(s as nat) + seq!['-'], size) == Ok::<Seq<ByteRange>, Seq<char>>(
            seq![ByteRange { start: s, end: (size - 1) as u64 }],
        ),
{
    let ds = decimal(s as nat);
    let p = ds + seq!['-'];
    lemma_decimal_digits(s as nat);
    lemma_parse_decimal(s as nat, u64::MAX as nat);
    assert(p[0] == ds[0]);
    assert(is_digit(ds[0]));
    assert(p.last() == '-');
    lemma_trim_keeps(p);
    let i = ds.len() as int;
    assert(p[i] == '-');
    assert forall|j: int| 0 <= j < i implies p[j] != '-' by {
        assert(p[j] == ds[j]);
        assert(is_digit(ds[j]));
    }
    assert(first_index_of(p, '-') == Some(i)) by {
        let c = choose|c: int| 0 <= c < p.len() && p[c] == '-' && forall|j: int| 0 <= j < c ==> p[j] != '-';
        if c > i {
            assert(p[i] != '-');
        }
    }
    assert(p.subrange(0, i) =~= ds);
    assert(p.subrange(i + 1, p.len() as int) =~= Seq::<char>::empty());
    assert forall|j: int| 0 <= j < p.len() implies #[trigger] p[j] != ',' by {
        if j < i {
            assert(p[j] == ds[j]);
            assert(is_digit(ds[j]));
        }
    }
    assert("bytes="@ + ds + seq!['-'] =~= "bytes="@ + p);
    lemma_single_part_header(p, size, ByteRange { start: s, end: (size - 1) as u64 });
}

/// A part `S-E` whose start lies after its end, or at or beyond the end of
/// the file, is refused.
pub proof fn lemma_part_unsatisfiable(s: u64, e: u64, size: u64)
    requires
        s > e || s >= size,
    ensures
        parse_part_spec(range_part_text(s as nat, e as nat), size) is Err,
{
    let ds = decimal(s as nat);
    let de = decimal(e as nat);
    let p = range_part_text(s as nat, e as nat);
    lemma_decimal_digits(s as nat);
    lemma_decimal_digits(e as nat);
    lemma_parse_decimal(s as nat, u64::MAX as nat);
    lemma_parse_decimal(e as nat, u64::MAX as nat);
    assert(p[0] == ds[0]);
    assert(is_digit(ds[0]));
    assert(p.last() == de[de.len() - 1]);
    assert(is_digit(de[de.len() - 1]));
    lemma_trim_keeps(p);
    let i = ds.len() as int;
    assert(p[i] == '-');
    assert forall|j: int| 0 <= j < i implies p[j] != '-' by {
        assert(p[j] == ds[j]);
        assert(is_digit(ds[j]));
    }
    assert(first_index_of(p, '-') == Some(i)) by {
        let c = choose|c: int| 0 <= c < p.len() && p[c] == '-' && forall|j: int| 0 <= j < c ==> p[j] != '-';
        if c > i {
            assert(p[i] != '-');
        }
    }
    assert(p.subrange(0, i) =~= ds);
    assert(p.subrange(i + 1, p.len() as int) =~= de);
}

} // verus!
