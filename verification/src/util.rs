//! File-name classification and NZB file-name conventions.

use vstd::prelude::*;

use crate::bindings::{
    glob_match, glob_matches, regex_capture, regex_capture_group, regex_is_match, regex_match,
    regex_replace_all, regex_replaced, uuid_parsed, uuid_try_parse,
};
use crate::range::{split_chars, split_seq};
use crate::text::{
    ascii_lower_seq, chars_eq, chars_range, contains, contains_seq, ends_with, is_suffix,
    last_index_of, rfind_char, str_chars, string_from_chars, to_ascii_lowercase, trim, trim_seq,
};

verus! {

// ---------------------------------------------------------------------------
// Paths: what `std::path::Path` reads from a Unix path
// ---------------------------------------------------------------------------

/// The last component of a list of `/`-separated pieces that is neither
/// empty nor `.`.
pub open spec fn last_component(segs: Seq<Seq<char>>) -> Option<Seq<char>>
    decreases segs.len(),
{
    if segs.len() == 0 {
        None
    } else if segs.last().len() == 0 || segs.last() == "."@ {
        last_component(segs.drop_last())
    } else {
        Some(segs.last())
    }
}

/// `Path::file_name`: the last normal component, none if the path ends in
/// `..` or has no component.
pub open spec fn file_name_spec(p: Seq<char>) -> Option<Seq<char>> {
    match last_component(split_seq(p, '/')) {
        Some(c) => if c == ".."@ {
            None
        } else {
            Some(c)
        },
        None => None,
    }
}

/// A file name split at its last dot, as `Path` does: `(before, after)`.
/// A name with no dot, or whose only dot is its first character, has no
/// extension.
pub open spec fn dot_split(name: Seq<char>) -> (Option<Seq<char>>, Option<Seq<char>>) {
    match last_index_of(name, '.') {
        None => (None, Some(name)),
        Some(i) => if i == 0 {
            (Some(name), None)
        } else {
            (Some(name.subrange(0, i)), Some(name.subrange(i + 1, name.len() as int)))
        },
    }
}

/// `Path::extension`.
pub open spec fn extension_spec(p: Seq<char>) -> Option<Seq<char>> {
    match file_name_spec(p) {
        None => None,
        Some(n) => if dot_split(n).0 is Some {
            dot_split(n).1
        } else {
            None
        },
    }
}

/// `Path::file_stem`.
pub open spec fn file_stem_spec(p: Seq<char>) -> Option<Seq<char>> {
    match file_name_spec(p) {
        None => None,
        Some(n) => if dot_split(n).0 is Some {
            dot_split(n).0
        } else {
            dot_split(n).1
        },
    }
}

/// The file name of the Unix path `p`, as `Path::file_name` reads it.
pub fn file_name(p: &[char]) -> (r: Option<Vec<char>>)
    ensures
        match r {
            Some(n) => file_name_spec(p@) == Some(n@),
            None => file_name_spec(p@) is None,
        },
{
    let segs = split_chars(p, '/');
    let ghost ss = split_seq(p@, '/');
    let dot = str_chars(".");
    let dotdot = str_chars("..");
    let mut i: usize = segs.len();
    assert(ss.subrange(0, ss.len() as int) =~= ss);
    while i > 0
        invariant
            ss == split_seq(p@, '/'),
            dotdot@ == ".."@,
            i <= segs@.len(),
            segs@.len() == ss.len(),
            forall|k: int| 0 <= k < segs@.len() ==> #[trigger] segs@[k]@ == ss[k],
            last_component(ss) == last_component(ss.subrange(0, i as int)),
            dot@ == "."@,
        decreases i,
    {
        let seg = &segs[i - 1];
        assert(ss.subrange(0, i as int).drop_last() =~= ss.subrange(0, i - 1));
        assert(ss.subrange(0, i as int).last() == seg@);
        if seg.len() != 0 && !chars_eq(seg.as_slice(), dot.as_slice()) {
            if chars_eq(seg.as_slice(), dotdot.as_slice()) {
                return None;
            }
            let n = chars_range(seg.as_slice(), 0, seg.len());
            assert(n@ =~= seg@);
            return Some(n);
        }
        i -= 1;
    }
    assert(ss.subrange(0, 0) =~= Seq::<Seq<char>>::empty());
    None
}

/// The file name split at its last dot: `(before, after)`.
pub fn split_at_last_dot(name: &[char]) -> (r: (Option<Vec<char>>, Option<Vec<char>>))
    ensures
        match dot_split(name@) {
            (b, a) => (match r.0 {
                Some(x) => b == Some(x@),
                None => b is None,
            }) && (match r.1 {
                Some(x) => a == Some(x@),
                None => a is None,
            }),
        },
{
    match rfind_char(name, '.') {
        None => {
            let n = chars_range(name, 0, name.len());
            assert(n@ =~= name@);
            (None, Some(n))
        },
        Some(i) => {
            if i == 0 {
                let n = chars_range(name, 0, name.len());
                assert(n@ =~= name@);
                (Some(n), None)
            } else {
                assert(i < name.len());
                (Some(chars_range(name, 0, i)), Some(chars_range(name, i + 1, name.len())))
            }
        },
    }
}

/// The extension of the Unix path `p`, as `Path::extension` reads it.
pub fn extension(p: &[char]) -> (r: Option<Vec<char>>)
    ensures
        match r {
            Some(e) => extension_spec(p@) == Some(e@),
            None => extension_spec(p@) is None,
        },
{
    match file_name(p) {
        None => None,
        Some(n) => {
            let (before, after) = split_at_last_dot(n.as_slice());
            if before.is_some() {
                after
            } else {
                None
            }
        },
    }
}

/// The stem of the Unix path `p`, as `Path::file_stem` reads it.
pub fn file_stem(p: &[char]) -> (r: Option<Vec<char>>)
    ensures
        match r {
            Some(e) => file_stem_spec(p@) == Some(e@),
            None => file_stem_spec(p@) is None,
        },
{
    match file_name(p) {
        None => None,
        Some(n) => {
            let (before, after) = split_at_last_dot(n.as_slice());
            if before.is_some() {
                before
            } else {
                after
            }
        },
    }
}

// ---------------------------------------------------------------------------
// File kinds
// ---------------------------------------------------------------------------

/// The pattern of numbered RAR volumes (`.r00`, `.r01`, ...).
pub open spec fn rar_volume_pattern() -> Seq<char> {
    "\\.r(\\d+)$"@
}

/// The pattern of numbered split files (`.001`, `.002`, ...).
pub open spec fn split_number_pattern() -> Seq<char> {
    "\\.\\d{3}$"@
}

pub open spec fn is_rar_spec(f: Seq<char>) -> bool {
    is_suffix(".rar"@, ascii_lower_seq(f)) || regex_match(rar_volume_pattern(), f) == Some(true)
}

pub open spec fn is_7z_spec(f: Seq<char>) -> bool {
    is_suffix(".7z"@, ascii_lower_seq(f)) || contains_seq(ascii_lower_seq(f), ".7z."@)
}

pub open spec fn is_multipart_mkv_spec(f: Seq<char>) -> bool {
    let lower = ascii_lower_seq(f);
    (contains_seq(lower, ".mkv."@) || contains_seq(lower, ".avi."@) || contains_seq(
        lower,
        ".mp4."@,
    )) && regex_match(split_number_pattern(), lower) == Some(true)
}

pub open spec fn is_video_extension(e: Seq<char>) -> bool {
    e == "mkv"@ || e == "avi"@ || e == "mp4"@ || e == "wmv"@ || e == "ts"@ || e == "m4v"@ || e
        == "mov"@ || e == "webm"@
}

pub open spec fn is_video_spec(f: Seq<char>) -> bool {
    match extension_spec(ascii_lower_seq(f)) {
        Some(e) => is_video_extension(e),
        None => false,
    }
}

pub open spec fn is_par2_spec(f: Seq<char>) -> bool {
    is_suffix(".par2"@, ascii_lower_seq(f))
}

fn lower_chars(filename: &str) -> (r: Vec<char>)
    ensures
        r@ == ascii_lower_seq(filename@),
{
    let c = str_chars(filename);
    to_ascii_lowercase(c.as_slice())
}

fn ends_with_str(s: &[char], suffix: &str) -> (r: bool)
    ensures
        r == is_suffix(suffix@, s@),
{
    let p = str_chars(suffix);
    ends_with(s, p.as_slice())
}

fn contains_str(s: &[char], needle: &str) -> (r: bool)
    ensures
        r == contains_seq(s@, needle@),
{
    let p = str_chars(needle);
    contains(s, p.as_slice())
}

fn eq_str(s: &[char], t: &str) -> (r: bool)
    ensures
        r == (s@ == t@),
{
    let p = str_chars(t);
    chars_eq(s, p.as_slice())
}

/// Whether the file is a RAR archive or one of its numbered volumes.
pub fn is_rar_file(filename: &str) -> (r: bool)
    ensures
        r == is_rar_spec(filename@),
{
    let lower = lower_chars(filename);
    if ends_with_str(lower.as_slice(), ".rar") {
        return true;
    }
    regex_is_match("\\.r(\\d+)$", filename) == Some(true)
}

/// Whether the file is a 7-Zip archive or one of its volumes.
pub fn is_7z_file(filename: &str) -> (r: bool)
    ensures
        r == is_7z_spec(filename@),
{
    let lower = lower_chars(filename);
    ends_with_str(lower.as_slice(), ".7z") || contains_str(lower.as_slice(), ".7z.")
}

/// Whether the file is a numbered piece of a split video file.
pub fn is_multipart_mkv(filename: &str) -> (r: bool)
    ensures
        r == is_multipart_mkv_spec(filename@),
{
    let lower = lower_chars(filename);
    let video = contains_str(lower.as_slice(), ".mkv.") || contains_str(lower.as_slice(), ".avi.")
        || contains_str(lower.as_slice(), ".mp4.");
    if !video {
        return false;
    }
    let lower_s = string_from_chars(lower.as_slice());
    regex_is_match("\\.\\d{3}$", lower_s.as_str()) == Some(true)
}

/// Whether the file has a video extension (case-insensitive).
pub fn is_video_file(filename: &str) -> (r: bool)
    ensures
        r == is_video_spec(filename@),
{
    let lower = lower_chars(filename);
    match extension(lower.as_slice()) {
        None => false,
        Some(e) => {
            let e = e.as_slice();
            eq_str(e, "mkv") || eq_str(e, "avi") || eq_str(e, "mp4") || eq_str(e, "wmv") || eq_str(
                e,
                "ts",
            ) || eq_str(e, "m4v") || eq_str(e, "mov") || eq_str(e, "webm")
        },
    }
}

/// Whether the file is a PAR2 recovery file.
pub fn is_par2_file(filename: &str) -> (r: bool)
    ensures
        r == is_par2_spec(filename@),
{
    let lower = lower_chars(filename);
    ends_with_str(lower.as_slice(), ".par2")
}

/// Whether the file is a video or an archive.
pub fn is_important_file_type(filename: &str) -> (r: bool)
    ensures
        r == (is_video_spec(filename@) || is_rar_spec(filename@) || is_7z_spec(filename@)),
{
    is_video_file(filename) || is_rar_file(filename) || is_7z_file(filename)
}

// ---------------------------------------------------------------------------
// Obfuscated names
// ---------------------------------------------------------------------------

pub open spec fn is_hex_digit(c: char) -> bool {
    ('0' <= c && c <= '9') || ('a' <= c && c <= 'f') || ('A' <= c && c <= 'F')
}

pub open spec fn is_dec_digit(c: char) -> bool {
    '0' <= c && c <= '9'
}

/// The stem that the obfuscation test looks at: the path's stem, or the
/// whole name where it has none.
pub open spec fn obfuscation_stem(f: Seq<char>) -> Seq<char> {
    match file_stem_spec(f) {
        Some(s) => s,
        None => f,
    }
}

pub open spec fn is_probably_obfuscated_spec(f: Seq<char>) -> bool {
    let stem = obfuscation_stem(f);
    (stem.len() >= 32 && forall|i: int| 0 <= i < stem.len() ==> is_hex_digit(#[trigger] stem[i]))
        || uuid_parsed(stem) is Some || forall|i: int|
        0 <= i < stem.len() ==> is_dec_digit(#[trigger] stem[i])
}

fn all_hex(s: &[char]) -> (r: bool)
    ensures
        r == forall|i: int| 0 <= i < s@.len() ==> is_hex_digit(#[trigger] s@[i]),
{
    let mut i: usize = 0;
    while i < s.len()
        invariant
            i <= s@.len(),
            forall|k: int| 0 <= k < i ==> is_hex_digit(#[trigger] s@[k]),
        decreases s@.len() - i,
    {
        let c = s[i];
        if !(('0' <= c && c <= '9') || ('a' <= c && c <= 'f') || ('A' <= c && c <= 'F')) {
            return false;
        }
        i += 1;
    }
    true
}

fn all_decimal(s: &[char]) -> (r: bool)
    ensures
        r == forall|i: int| 0 <= i < s@.len() ==> is_dec_digit(#[trigger] s@[i]),
{
    let mut i: usize = 0;
    while i < s.len()
        invariant
            i <= s@.len(),
            forall|k: int| 0 <= k < i ==> is_dec_digit(#[trigger] s@[k]),
        decreases s@.len() - i,
    {
        let c = s[i];
        if !('0' <= c && c <= '9') {
            return false;
        }
        i += 1;
    }
    true
}

/// Whether the name looks machine-made: a long hex hash, a UUID, or only
/// digits.
pub fn is_probably_obfuscated(filename: &str) -> (r: bool)
    ensures
        r == is_probably_obfuscated_spec(filename@),
{
    let f = str_chars(filename);
    let stem = match file_stem(f.as_slice()) {
        Some(s) => s,
        None => f,
    };
    if stem.len() >= 32 && all_hex(stem.as_slice()) {
        return true;
    }
    let stem_s = string_from_chars(stem.as_slice());
    if uuid_try_parse(stem_s.as_str()).is_some() {
        return true;
    }
    all_decimal(stem.as_slice())
}

// ---------------------------------------------------------------------------
// NZB file names
// ---------------------------------------------------------------------------

/// The pattern of a password marker, `{{password}}`.
pub open spec fn password_pattern() -> Seq<char> {
    "\\{\\{(.+?)\\}\\}"@
}

/// The pattern of a password marker with the whitespace around it.
pub open spec fn password_strip_pattern() -> Seq<char> {
    "\\s*\\{\\{.+?\\}\\}\\s*"@
}

/// The password written into an NZB file name as `{{password}}`.
pub open spec fn nzb_password_spec(f: Seq<char>) -> Option<Seq<char>> {
    match regex_capture_group(password_pattern(), f, 1) {
        Some(Some(p)) => Some(p),
        _ => None,
    }
}

/// Extracts the password from an NZB file name, e.g. `release {{password}}.nzb`.
pub fn get_nzb_password(filename: &str) -> (r: Option<String>)
    ensures
        match r {
            Some(p) => nzb_password_spec(filename@) == Some(p@),
            None => nzb_password_spec(filename@) is None,
        },
{
    match regex_capture("\\{\\{(.+?)\\}\\}", filename, 1) {
        Some(Some(p)) => Some(p),
        _ => None,
    }
}

/// `s` with every trailing repetition of `p` removed, as
/// `str::trim_end_matches` does.
pub open spec fn trim_end_matches_spec(s: Seq<char>, p: Seq<char>) -> Seq<char>
    decreases s.len(),
{
    if p.len() > 0 && is_suffix(p, s) {
        trim_end_matches_spec(s.subrange(0, s.len() - p.len()), p)
    } else {
        s
    }
}

pub fn trim_end_matches(s: &[char], p: &[char]) -> (r: Vec<char>)
    ensures
        r@ == trim_end_matches_spec(s@, p@),
{
    let mut end: usize = s.len();
    let ghost target = trim_end_matches_spec(s@, p@);
    assert(s@.subrange(0, s@.len() as int) =~= s@);
    loop
        invariant
            target == trim_end_matches_spec(s@, p@),
            end <= s@.len(),
            trim_end_matches_spec(s@.subrange(0, end as int), p@) == target,
        decreases end,
    {
        let cur = chars_range(s, 0, end);
        if p.len() > 0 && ends_with(cur.as_slice(), p) {
            assert(cur@.subrange(0, cur@.len() - p@.len()) =~= s@.subrange(
                0,
                end - p@.len(),
            ));
            end = end - p.len();
        } else {
            return cur;
        }
    }
}

/// The job name of an NZB file name: the name without `.nzb`, `.gz` and
/// `.nzb` endings (each as often as it repeats), the password marker and the
/// whitespace around it removed, then trimmed.
pub open spec fn job_name_spec(f: Seq<char>) -> Seq<char> {
    let name = trim_end_matches_spec(
        trim_end_matches_spec(trim_end_matches_spec(f, ".nzb"@), ".gz"@),
        ".nzb"@,
    );
    match regex_replaced(password_strip_pattern(), name, ""@) {
        Some(x) => trim_seq(x),
        None => trim_seq(name),
    }
}

/// Extracts the job name from an NZB file name (strips the extension and
/// the password).
pub fn get_job_name(filename: &str) -> (r: String)
    ensures
        r@ == job_name_spec(filename@),
{
    let f = str_chars(filename);
    let nzb = str_chars(".nzb");
    let gz = str_chars(".gz");
    let a = trim_end_matches(f.as_slice(), nzb.as_slice());
    let b = trim_end_matches(a.as_slice(), gz.as_slice());
    let name = trim_end_matches(b.as_slice(), nzb.as_slice());
    let name_s = string_from_chars(name.as_slice());
    match regex_replace_all("\\s*\\{\\{.+?\\}\\}\\s*", name_s.as_str(), "") {
        Some(x) => {
            let xc = str_chars(x.as_str());
            let t = trim(xc.as_slice());
            string_from_chars(t.as_slice())
        },
        None => {
            let t = trim(name.as_slice());
            string_from_chars(t.as_slice())
        },
    }
}

/// Whether the file name matches one of the glob patterns, both taken in
/// ASCII lower case; a pattern that does not compile matches nothing.
pub open spec fn matches_blocklist_spec(f: Seq<char>, patterns: Seq<Seq<char>>) -> bool {
    exists|i: int|
        0 <= i < patterns.len() && glob_match(ascii_lower_seq(#[trigger] patterns[i]), ascii_lower_seq(f))
            == Some(true)
}

pub fn matches_blocklist(filename: &str, patterns: &[String]) -> (r: bool)
    ensures
        r == matches_blocklist_spec(filename@, patterns@.map_values(|p: String| p@)),
{
    let ghost ps = patterns@.map_values(|p: String| p@);
    let lower = lower_chars(filename);
    let lower_s = string_from_chars(lower.as_slice());
    let mut i: usize = 0;
    while i < patterns.len()
        invariant
            i <= patterns@.len(),
            ps == patterns@.map_values(|p: String| p@),
            lower_s@ == ascii_lower_seq(filename@),
            forall|k: int|
                0 <= k < i ==> glob_match(ascii_lower_seq(#[trigger] ps[k]), ascii_lower_seq(filename@))
                    != Some(true),
        decreases patterns@.len() - i,
    {
        let pc = str_chars(patterns[i].as_str());
        let pl = to_ascii_lowercase(pc.as_slice());
        let pl_s = string_from_chars(pl.as_slice());
        assert(ps[i as int] == patterns@[i as int]@);
        if glob_matches(pl_s.as_str(), lower_s.as_str()) == Some(true) {
            return true;
        }
        i += 1;
    }
    false
}

} // verus!
