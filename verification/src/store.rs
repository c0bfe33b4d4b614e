//! Nodes of the WebDAV tree and the path arithmetic of the store.

use vstd::prelude::*;
use vstd::string::StrSliceExecFns;

use crate::bindings::{mime_from_name, mime_of};
use crate::error::DavServerError;
use crate::health::{sub_type_debug_name, sub_type_name, BlobLayout};
use crate::models::{DavItem, ItemSubType, ItemType, QueueItem};
use crate::text::{
    chars_eq, chars_range, ends_with, is_prefix, is_suffix, last_index_of, lemma_no_last_index,
    push_chars, push_str, rfind_char, starts_with, str_chars, str_eq, string_from_chars,
};
use crate::util::{trim_end_matches, trim_end_matches_spec};

verus! {

// ---------------------------------------------------------------------------
// Identifiers as text
// ---------------------------------------------------------------------------

pub open spec fn hex_char(d: nat) -> char {
    if d < 10 {
        (('0' as u32) + d) as char
    } else {
        (('a' as u32) + (d - 10)) as char
    }
}

/// The `i`-th hexadecimal digit of `x`, counted from the most significant.
pub open spec fn nibble(x: u128, i: nat) -> nat {
    ((x >> ((4 * (31 - i)) as u128)) & 15u128) as nat
}

/// The 32 lower-case hexadecimal digits of `x`.
pub open spec fn hex32(x: u128) -> Seq<char> {
    Seq::new(32, |i: int| hex_char(nibble(x, i as nat)))
}

/// A UUID as `uuid::Uuid` displays it: lower-case hexadecimal in groups of
/// 8, 4, 4, 4 and 12 digits joined by hyphens.
pub open spec fn uuid_text(x: u128) -> Seq<char> {
    let h = hex32(x);
    h.subrange(0, 8) + seq!['-'] + h.subrange(8, 12) + seq!['-'] + h.subrange(12, 16) + seq!['-'] + h.subrange(
        16,
        20,
    ) + seq!['-'] + h.subrange(20, 32)
}

proof fn lemma_nibbles_determine(x: u128, y: u128)
    by (bit_vector)
    requires
        (x >> 124u128) & 15u128 == (y >> 124u128) & 15u128,
        (x >> 120u128) & 15u128 == (y >> 120u128) & 15u128,
        (x >> 116u128) & 15u128 == (y >> 116u128) & 15u128,
        (x >> 112u128) & 15u128 == (y >> 112u128) & 15u128,
        (x >> 108u128) & 15u128 == (y >> 108u128) & 15u128,
        (x >> 104u128) & 15u128 == (y >> 104u128) & 15u128,
        (x >> 100u128) & 15u128 == (y >> 100u128) & 15u128,
        (x >> 96u128) & 15u128 == (y >> 96u128) & 15u128,
        (x >> 92u128) & 15u128 == (y >> 92u128) & 15u128,
        (x >> 88u128) & 15u128 == (y >> 88u128) & 15u128,
        (x >> 84u128) & 15u128 == (y >> 84u128) & 15u128,
        (x >> 80u128) & 15u128 == (y >> 80u128) & 15u128,
        (x >> 76u128) & 15u128 == (y >> 76u128) & 15u128,
        (x >> 72u128) & 15u128 == (y >> 72u128) & 15u128,
        (x >> 68u128) & 15u128 == (y >> 68u128) & 15u128,
        (x >> 64u128) & 15u128 == (y >> 64u128) & 15u128,
        (x >> 60u128) & 15u128 == (y >> 60u128) & 15u128,
        (x >> 56u128) & 15u128 == (y >> 56u128) & 15u128,
        (x >> 52u128) & 15u128 == (y >> 52u128) & 15u128,
        (x >> 48u128) & 15u128 == (y >> 48u128) & 15u128,
        (x >> 44u128) & 15u128 == (y >> 44u128) & 15u128,
        (x >> 40u128) & 15u128 == (y >> 40u128) & 15u128,
        (x >> 36u128) & 15u128 == (y >> 36u128) & 15u128,
        (x >> 32u128) & 15u128 == (y >> 32u128) & 15u128,
        (x >> 28u128) & 15u128 == (y >> 28u128) & 15u128,
        (x >> 24u128) & 15u128 == (y >> 24u128) & 15u128,
        (x >> 20u128) & 15u128 == (y >> 20u128) & 15u128,
        (x >> 16u128) & 15u128 == (y >> 16u128) & 15u128,
        (x >> 12u128) & 15u128 == (y >> 12u128) & 15u128,
        (x >> 8u128) & 15u128 == (y >> 8u128) & 15u128,
        (x >> 4u128) & 15u128 == (y >> 4u128) & 15u128,
        (x >> 0u128) & 15u128 == (y >> 0u128) & 15u128,
    ensures
        x == y,
{
}

proof fn lemma_hex_char_injective(a: nat, b: nat)
    requires
        a < 16,
        b < 16,
        hex_char(a) == hex_char(b),
    ensures
        a == b,
{
}

proof fn lemma_nibble_bound(x: u128, i: nat)
    requires
        i < 32,
    ensures
        nibble(x, i) < 16,
{
    let s = (4 * (31 - i)) as u128;
    assert((x >> s) & 15u128 < 16) by (bit_vector);
}

/// Distinct identifiers have distinct texts: the text of an identifier
/// determines it.
pub proof fn lemma_uuid_text_injective(x: u128, y: u128)
    requires
        uuid_text(x) == uuid_text(y),
    ensures
        x == y,
{
    let hx = hex32(x);
    let hy = hex32(y);
    assert forall|j: nat| j < 32 implies #[trigger] nibble(x, j) == nibble(y, j) by {
        let i = j as int;
        let k = if i < 8 {
            i
        } else if i < 12 {
            i + 1
        } else if i < 16 {
            i + 2
        } else if i < 20 {
            i + 3
        } else {
            i + 4
        };
        assert(uuid_text(x)[k] == hx[i]);
        assert(uuid_text(y)[k] == hy[i]);
        lemma_nibble_bound(x, j);
        lemma_nibble_bound(y, j);
        lemma_hex_char_injective(nibble(x, j), nibble(y, j));
    }
    assert(nibble(x, 0) == nibble(y, 0));
    assert(nibble(x, 1) == nibble(y, 1));
    assert(nibble(x, 2) == nibble(y, 2));
    assert(nibble(x, 3) == nibble(y, 3));
    assert(nibble(x, 4) == nibble(y, 4));
    assert(nibble(x, 5) == nibble(y, 5));
    assert(nibble(x, 6) == nibble(y, 6));
    assert(nibble(x, 7) == nibble(y, 7));
    assert(nibble(x, 8) == nibble(y, 8));
    assert(nibble(x, 9) == nibble(y, 9));
    assert(nibble(x, 10) == nibble(y, 10));
    assert(nibble(x, 11) == nibble(y, 11));
    assert(nibble(x, 12) == nibble(y, 12));
    assert(nibble(x, 13) == nibble(y, 13));
    assert(nibble(x, 14) == nibble(y, 14));
    assert(nibble(x, 15) == nibble(y, 15));
    assert(nibble(x, 16) == nibble(y, 16));
    assert(nibble(x, 17) == nibble(y, 17));
    assert(nibble(x, 18) == nibble(y, 18));
    assert(nibble(x, 19) == nibble(y, 19));
    assert(nibble(x, 20) == nibble(y, 20));
    assert(nibble(x, 21) == nibble(y, 21));
    assert(nibble(x, 22) == nibble(y, 22));
    assert(nibble(x, 23) == nibble(y, 23));
    assert(nibble(x, 24) == nibble(y, 24));
    assert(nibble(x, 25) == nibble(y, 25));
    assert(nibble(x, 26) == nibble(y, 26));
    assert(nibble(x, 27) == nibble(y, 27));
    assert(nibble(x, 28) == nibble(y, 28));
    assert(nibble(x, 29) == nibble(y, 29));
    assert(nibble(x, 30) == nibble(y, 30));
    assert(nibble(x, 31) == nibble(y, 31));
    lemma_nibbles_determine(x, y);
}

fn hex_digit(x: u128, i: usize) -> (c: char)
    requires
        i < 32,
    ensures
        c == hex_char(nibble(x, i as nat)),
{
    let shift: u128 = (4 * (31 - i)) as u128;
    let d128 = (x >> shift) & 15u128;
    assert(d128 < 16) by (bit_vector)
        requires
            d128 == (x >> shift) & 15u128,
    ;
    let d = d128 as u32;
    if d < 10 {
        (((('0' as u32) + d) as u8) as char)
    } else {
        (((('a' as u32) + (d - 10)) as u8) as char)
    }
}

/// The text of a UUID, as `uuid::Uuid` displays it.
pub fn uuid_to_chars(x: u128) -> (r: Vec<char>)
    ensures
        r@ == uuid_text(x),
{
    let mut h: Vec<char> = Vec::new();
    let mut i: usize = 0;
    while i < 32
        invariant
            i <= 32,
            h@ == hex32(x).subrange(0, i as int),
        decreases 32 - i,
    {
        h.push(hex_digit(x, i));
        i += 1;
        assert(h@ =~= hex32(x).subrange(0, i as int));
    }
    assert(h@ =~= hex32(x));
    let mut r = chars_range(h.as_slice(), 0, 8);
    r.push('-');
    let p2 = chars_range(h.as_slice(), 8, 12);
    push_chars(&mut r, p2.as_slice());
    r.push('-');
    let p3 = chars_range(h.as_slice(), 12, 16);
    push_chars(&mut r, p3.as_slice());
    r.push('-');
    let p4 = chars_range(h.as_slice(), 16, 20);
    push_chars(&mut r, p4.as_slice());
    r.push('-');
    let p5 = chars_range(h.as_slice(), 20, 32);
    push_chars(&mut r, p5.as_slice());
    assert(r@ =~= uuid_text(x));
    r
}

pub fn uuid_to_string(x: u128) -> (r: String)
    ensures
        r@ == uuid_text(x),
{
    let v = uuid_to_chars(x);
    string_from_chars(v.as_slice())
}

// ---------------------------------------------------------------------------
// Paths
// ---------------------------------------------------------------------------

/// What removing trailing repetitions of a pattern leaves is a prefix.
pub proof fn lemma_trim_end_matches_prefix(s: Seq<char>, p: Seq<char>)
    ensures
        trim_end_matches_spec(s, p).len() <= s.len(),
        trim_end_matches_spec(s, p) == s.subrange(0, trim_end_matches_spec(s, p).len() as int),
    decreases s.len(),
{
    if p.len() > 0 && is_suffix(p, s) {
        let s2 = s.subrange(0, s.len() - p.len());
        lemma_trim_end_matches_prefix(s2, p);
        let r = trim_end_matches_spec(s2, p);
        assert(s.subrange(0, r.len() as int) =~= s2.subrange(0, r.len() as int));
    } else {
        assert(s.subrange(0, s.len() as int) =~= s);
    }
}

/// A path split into its parent (which keeps its trailing `/`) and the last
/// name, trailing slashes of the path ignored; a path without `/` has the
/// parent `/`.
pub open spec fn split_path_spec(p: Seq<char>) -> (Seq<char>, Seq<char>) {
    let t = trim_end_matches_spec(p, "/"@);
    match last_index_of(t, '/') {
        Some(pos) => (p.subrange(0, pos + 1), t.subrange(pos + 1, t.len() as int)),
        None => (seq!['/'], t),
    }
}

/// Splits a path into `(parent_path, name)`.
pub fn split_path(path: &str) -> (r: (&str, &str))
    ensures
        (r.0@, r.1@) == split_path_spec(path@),
{
    let pc = str_chars(path);
    let slash = str_chars("/");
    let t = trim_end_matches(pc.as_slice(), slash.as_slice());
    proof {
        lemma_trim_end_matches_prefix(path@, "/"@);
    }
    match rfind_char(t.as_slice(), '/') {
        Some(pos) => {
            assert(pos < t.len());
            let parent = path.substring_char(0, pos + 1);
            let name = path.substring_char(pos + 1, t.len());
            assert(name@ =~= t@.subrange(pos + 1, t@.len() as int));
            (parent, name)
        },
        None => {
            let name = path.substring_char(0, t.len());
            proof {
                reveal_strlit("/");
            }
            ("/", name)
        },
    }
}

/// The parent part of a split path ends with `/`, the name holds no `/`,
/// and where the path holds a `/` before its trailing slashes, parent and
/// name together give the path without them.
pub proof fn lemma_split_path(p: Seq<char>)
    ensures
        is_suffix(seq!['/'], split_path_spec(p).0),
        forall|i: int|
            0 <= i < split_path_spec(p).1.len() ==> #[trigger] split_path_spec(p).1[i] != '/',
        last_index_of(trim_end_matches_spec(p, "/"@), '/') is Some ==> split_path_spec(p).0
            + split_path_spec(p).1 == trim_end_matches_spec(p, "/"@),
{
    lemma_trim_end_matches_prefix(p, "/"@);
    let t = trim_end_matches_spec(p, "/"@);
    let (a, b) = split_path_spec(p);
    match last_index_of(t, '/') {
        Some(pos) => {
            assert(t[pos] == '/');
            assert(p[pos] == t[pos]);
            assert(a.subrange(a.len() - 1, a.len() as int) =~= seq!['/']);
            assert forall|i: int| 0 <= i < b.len() implies #[trigger] b[i] != '/' by {
                assert(b[i] == t[pos + 1 + i]);
            }
            assert(a + b =~= t);
        },
        None => {
            lemma_no_last_index(t, '/');
            assert(seq!['/'].subrange(0, 1) =~= seq!['/']);
            assert forall|i: int| 0 <= i < b.len() implies #[trigger] b[i] != '/' by {
                assert(b[i] == t[i]);
            }
        },
    }
}

/// What removing trailing slashes takes away is slashes only.
proof fn lemma_trimmed_slashes(s: Seq<char>)
    ensures
        forall|k: int|
            trim_end_matches_spec(s, "/"@).len() <= k < s.len() ==> #[trigger] s[k] == '/',
    decreases s.len(),
{
    reveal_strlit("/");
    lemma_trim_end_matches_prefix(s, "/"@);
    if is_suffix("/"@, s) {
        let s2 = s.subrange(0, s.len() - 1);
        lemma_trimmed_slashes(s2);
        lemma_trim_end_matches_prefix(s2, "/"@);
        assert forall|k: int|
            trim_end_matches_spec(s, "/"@).len() <= k < s.len() implies #[trigger] s[k] == '/' by {
            if k < s.len() - 1 {
                assert(s[k] == s2[k]);
            } else {
                assert(s.subrange(s.len() - 1, s.len() as int)[0] == s[k]);
            }
        }
    }
}

/// For a path that starts with `/`: the path is the parent, then the name,
/// then nothing but slashes.
pub proof fn lemma_split_path_rest(p: Seq<char>)
    requires
        p.len() > 0,
        p[0] == '/',
    ensures
        (split_path_spec(p).0 + split_path_spec(p).1).len() <= p.len(),
        p.subrange(0, (split_path_spec(p).0 + split_path_spec(p).1).len() as int)
            == split_path_spec(p).0 + split_path_spec(p).1,
        forall|k: int|
            (split_path_spec(p).0 + split_path_spec(p).1).len() <= k < p.len() ==> #[trigger] p[k]
                == '/',
{
    lemma_split_path(p);
    lemma_trim_end_matches_prefix(p, "/"@);
    lemma_trimmed_slashes(p);
    let t = trim_end_matches_spec(p, "/"@);
    let (a, b) = split_path_spec(p);
    match last_index_of(t, '/') {
        Some(pos) => {
            assert(a + b == t);
        },
        None => {
            lemma_no_last_index(t, '/');
            if t.len() > 0 {
                assert(t[0] == p[0]);
            }
            assert(t.len() == 0);
            assert(a + b =~= seq!['/']);
            assert(p.subrange(0, 1) =~= seq!['/']);
        },
    }
}

// ---------------------------------------------------------------------------
// Nodes
// ---------------------------------------------------------------------------

/// A node of the WebDAV tree: an item with what PROPFIND reports of it.
#[derive(Debug, Clone)]
pub struct DavNode {
    pub item: DavItem,
    pub is_collection: bool,
    pub content_type: String,
    pub etag: String,
}

/// The content type that a node reports.
pub open spec fn node_content_type(item: DavItem) -> Seq<char> {
    if item.item_type == ItemType::Directory {
        "httpd/unix-directory"@
    } else {
        mime_of(item.name@)
    }
}

/// The entity tag of an item: its identifier in double quotes.
pub open spec fn etag_of(id: u128) -> Seq<char> {
    seq!['"'] + uuid_text(id) + seq!['"']
}

impl DavNode {
    /// The node for an item: directories are collections of type
    /// `httpd/unix-directory`; files get the MIME type of their name.
    pub fn from_item(item: DavItem) -> (r: DavNode)
        ensures
            r.item == item,
            r.is_collection == (item.item_type == ItemType::Directory),
            r.content_type@ == node_content_type(item),
            r.etag@ == etag_of(item.id),
    {
        let is_collection = item.item_type == ItemType::Directory;
        let content_type = if is_collection {
            let c = str_chars("httpd/unix-directory");
            string_from_chars(c.as_slice())
        } else {
            mime_from_name(item.name.as_str())
        };
        let mut e: Vec<char> = Vec::new();
        e.push('"');
        let u = uuid_to_chars(item.id);
        push_chars(&mut e, u.as_slice());
        e.push('"');
        assert(e@ =~= etag_of(item.id));
        let etag = string_from_chars(e.as_slice());
        DavNode { item, is_collection, content_type, etag }
    }
}

/// The path under which a queued NZB shows in `/nzbs/`.
pub open spec fn queue_item_path(file_name: Seq<char>) -> Seq<char> {
    "/nzbs/"@ + file_name
}

/// Builds the virtual item that shows a queued NZB under `/nzbs/`.
pub fn queue_item_to_dav_item(qi: &QueueItem) -> (r: DavItem)
    ensures
        r.id == qi.id,
        r.id_prefix@ == "q"@,
        r.created_at == qi.created_at,
        r.parent_id is None,
        r.name == qi.file_name,
        r.file_size == Some(qi.nzb_file_size),
        r.item_type == ItemType::UsenetFile,
        r.sub_type == ItemSubType::NzbFile,
        r.path@ == queue_item_path(qi.file_name@),
        r.release_date is None,
        r.last_health_check is None,
        r.next_health_check is None,
        r.history_item_id is None,
        r.file_blob_id is None,
        r.nzb_blob_id == Some(qi.id),
{
    let mut p = str_chars("/nzbs/");
    let f = str_chars(qi.file_name.as_str());
    push_chars(&mut p, f.as_slice());
    let q = str_chars("q");
    DavItem {
        id: qi.id,
        id_prefix: string_from_chars(q.as_slice()),
        created_at: qi.created_at,
        parent_id: None,
        name: qi.file_name.clone(),
        file_size: Some(qi.nzb_file_size),
        item_type: ItemType::UsenetFile,
        sub_type: ItemSubType::NzbFile,
        path: string_from_chars(p.as_slice()),
        release_date: None,
        last_health_check: None,
        next_health_check: None,
        history_item_id: None,
        file_blob_id: None,
        nzb_blob_id: Some(qi.id),
    }
}

// ---------------------------------------------------------------------------
// Steps of the store's operations
// ---------------------------------------------------------------------------

/// The file name of a queued NZB that a path names: `/nzbs/` followed by a
/// non-empty name without `/`.
pub open spec fn virtual_nzb_name_spec(p: Seq<char>) -> Option<Seq<char>> {
    if is_prefix("/nzbs/"@, p) && p.len() > 6 && (forall|i: int| 6 <= i < p.len() ==> p[i] != '/') {
        Some(p.subrange(6, p.len() as int))
    } else {
        None
    }
}

/// The queued NZB that a path under `/nzbs/` names, if it names one.
pub fn virtual_nzb_name(path: &str) -> (r: Option<String>)
    ensures
        match r {
            Some(n) => virtual_nzb_name_spec(path@) == Some(n@),
            None => virtual_nzb_name_spec(path@) is None,
        },
{
    let pc = str_chars(path);
    let prefix = str_chars("/nzbs/");
    proof {
        reveal_strlit("/nzbs/");
    }
    if !starts_with(pc.as_slice(), prefix.as_slice()) || pc.len() <= 6 {
        return None;
    }
    let mut i: usize = 6;
    while i < pc.len()
        invariant
            6 <= i <= pc@.len(),
            pc@ == path@,
            forall|j: int| 6 <= j < i ==> pc@[j] != '/',
        decreases pc@.len() - i,
    {
        if pc[i] == '/' {
            return None;
        }
        i += 1;
    }
    Some(string_from_chars(chars_range(pc.as_slice(), 6, pc.len()).as_slice()))
}

/// The path under which a queued NZB is listed in `/nzbs/` resolves back to
/// that NZB's file name, where the name is not empty and holds no `/`.
pub proof fn lemma_queued_nzb_path_resolves(file_name: Seq<char>)
    requires
        file_name.len() > 0,
        forall|i: int| 0 <= i < file_name.len() ==> file_name[i] != '/',
    ensures
        virtual_nzb_name_spec(queue_item_path(file_name)) == Some(file_name),
{
    reveal_strlit("/nzbs/");
    let p = queue_item_path(file_name);
    assert(p.subrange(0, 6) =~= "/nzbs/"@);
    assert(p.subrange(6, p.len() as int) =~= file_name);
    assert forall|i: int| 6 <= i < p.len() implies p[i] != '/' by {
        assert(p[i] == file_name[i - 6]);
    }
}

/// The position of the first queued NZB with the given file name.
pub fn find_queue_item(queue: &[QueueItem], file_name: &str) -> (r: Option<usize>)
    ensures
        match r {
            Some(i) => i < queue@.len() && queue@[i as int].file_name@ == file_name@ && forall|j: int|
                0 <= j < i ==> (#[trigger] queue@[j]).file_name@ != file_name@,
            None => forall|j: int| 0 <= j < queue@.len() ==> (#[trigger] queue@[j]).file_name@ != file_name@,
        },
{
    let mut i: usize = 0;
    while i < queue.len()
        invariant
            i <= queue@.len(),
            forall|j: int| 0 <= j < i ==> (#[trigger] queue@[j]).file_name@ != file_name@,
        decreases queue@.len() - i,
    {
        if str_eq(queue[i].file_name.as_str(), file_name) {
            return Some(i);
        }
        i += 1;
    }
    None
}

/// The path with a `/` added, where it does not end with one (directories
/// are stored with a trailing slash).
pub fn with_trailing_slash(path: &str) -> (r: Option<String>)
    ensures
        match r {
            Some(p) => !is_suffix(seq!['/'], path@) && p@ == path@.push('/'),
            None => is_suffix(seq!['/'], path@),
        },
{
    let mut pc = str_chars(path);
    let mut slash: Vec<char> = Vec::new();
    slash.push('/');
    if ends_with(pc.as_slice(), slash.as_slice()) {
        None
    } else {
        pc.push('/');
        Some(string_from_chars(pc.as_slice()))
    }
}

/// The directory path whose children are listed: the path with a trailing
/// `/`.
pub fn children_dir_path(path: &str) -> (r: String)
    ensures
        r@ == if is_suffix(seq!['/'], path@) {
            path@
        } else {
            path@.push('/')
        },
{
    match with_trailing_slash(path) {
        Some(p) => p,
        None => path.to_owned(),
    }
}

/// Whether a listed directory also shows the queued NZBs: it is `/nzbs`,
/// trailing slashes aside.
pub fn lists_queue_items(dir_path: &str) -> (r: bool)
    ensures
        r == (trim_end_matches_spec(dir_path@, "/"@) == "/nzbs"@),
{
    let d = str_chars(dir_path);
    let slash = str_chars("/");
    let t = trim_end_matches(d.as_slice(), slash.as_slice());
    let n = str_chars("/nzbs");
    chars_eq(t.as_slice(), n.as_slice())
}

/// The one-character prefix stored with an item: the first character of
/// its name, or `_`.
pub open spec fn id_prefix_spec(name: Seq<char>) -> Seq<char> {
    if name.len() > 0 {
        seq![name[0]]
    } else {
        seq!['_']
    }
}

pub fn id_prefix_of(name: &str) -> (r: String)
    ensures
        r@ == id_prefix_spec(name@),
{
    let c = str_chars(name);
    let mut v: Vec<char> = Vec::new();
    if c.len() > 0 {
        v.push(c[0]);
    } else {
        v.push('_');
    }
    assert(v@ =~= id_prefix_spec(name@));
    string_from_chars(v.as_slice())
}

fn message(prefix: &str, rest: &str) -> (r: String)
    ensures
        r@ == prefix@ + rest@,
{
    let mut c = str_chars(prefix);
    push_str(&mut c, rest);
    string_from_chars(c.as_slice())
}

/// The parent under which a new item goes: an error where it does not
/// exist, or, for a collection, where it is no collection itself.
pub fn parent_for_new_item(parent_path: &str, parent: Option<&DavItem>, need_collection: bool) -> (r: Result<u128, DavServerError>)
    ensures
        match parent {
            None => r matches Err(DavServerError::Conflict(m)) && m@ == "parent not found: "@ + parent_path@,
            Some(p) => if need_collection && p.item_type != ItemType::Directory {
                r matches Err(DavServerError::Conflict(m)) && m@ == "parent is not a collection"@
            } else {
                r == Ok::<u128, DavServerError>(p.id)
            },
        },
{
    match parent {
        None => Err(DavServerError::Conflict(message("parent not found: ", parent_path))),
        Some(p) => {
            if need_collection && p.item_type != ItemType::Directory {
                Err(DavServerError::Conflict("parent is not a collection".to_owned()))
            } else {
                Ok(p.id)
            }
        },
    }
}

/// The parent of a move or copy destination, or the error where it does
/// not exist.
pub fn destination_parent(parent_path: &str, parent: Option<&DavItem>) -> (r: Result<u128, DavServerError>)
    ensures
        match parent {
            None => r matches Err(DavServerError::Conflict(m)) && m@ == "dest parent not found: "@
                + parent_path@,
            Some(p) => r == Ok::<u128, DavServerError>(p.id),
        },
{
    match parent {
        None => Err(DavServerError::Conflict(message("dest parent not found: ", parent_path))),
        Some(p) => Ok(p.id),
    }
}

/// The error of a collection that already exists.
pub fn collection_exists_error() -> (r: DavServerError)
    ensures
        r matches DavServerError::MethodNotAllowed(m) && m@ == "collection already exists"@,
{
    DavServerError::MethodNotAllowed("collection already exists".to_owned())
}

/// The error of a path that names nothing.
pub fn path_not_found_error(path: &str) -> (r: DavServerError)
    ensures
        r matches DavServerError::NotFound(m) && m@ == path@,
{
    DavServerError::NotFound(path.to_owned())
}

/// Whether `r` is the new, empty collection at `path` under the parent
/// `parent_id`, with the id `id`, created at `now`.
pub open spec fn is_new_collection(r: DavItem, path: Seq<char>, parent_id: u128, id: u128, now: i64) -> bool {
    &&& r.id == id
    &&& r.id_prefix@ == id_prefix_spec(split_path_spec(path).1)
    &&& r.created_at == now
    &&& r.parent_id == Some(parent_id)
    &&& r.name@ == split_path_spec(path).1
    &&& r.file_size is None
    &&& r.item_type == ItemType::Directory
    &&& r.sub_type == ItemSubType::Directory
    &&& r.path@ == path
    &&& r.release_date is None
    &&& r.last_health_check is None
    &&& r.next_health_check is None
    &&& r.history_item_id is None
    &&& r.file_blob_id is None
    &&& r.nzb_blob_id is None
}

/// A new, empty collection at `path` under the parent `parent_id`, with
/// the id `id`, created at `now`.
pub fn new_collection_item(path: &str, parent_id: u128, id: u128, now: i64) -> (r: DavItem)
    ensures
        is_new_collection(r, path@, parent_id, id, now),
{
    let (_, name) = split_path(path);
    DavItem {
        id,
        id_prefix: id_prefix_of(name),
        created_at: now,
        parent_id: Some(parent_id),
        name: name.to_owned(),
        file_size: None,
        item_type: ItemType::Directory,
        sub_type: ItemSubType::Directory,
        path: path.to_owned(),
        release_date: None,
        last_health_check: None,
        next_health_check: None,
        history_item_id: None,
        file_blob_id: None,
        nzb_blob_id: None,
    }
}

/// MKCOL at `path`, given the item at its parent path and whether an item
/// already stands at `path`: the parent must exist and be a collection,
/// then the path must be free; the answer is the collection to store.
pub fn mkcol_plan(path: &str, parent: Option<&DavItem>, exists: bool, id: u128, now: i64) -> (r: Result<DavItem, DavServerError>)
    ensures
        match parent {
            None => r matches Err(DavServerError::Conflict(m)) && m@ == "parent not found: "@
                + split_path_spec(path@).0,
            Some(p) => if p.item_type != ItemType::Directory {
                r matches Err(DavServerError::Conflict(m)) && m@ == "parent is not a collection"@
            } else if exists {
                r matches Err(DavServerError::MethodNotAllowed(m)) && m@ == "collection already exists"@
            } else {
                r matches Ok(item) && is_new_collection(item, path@, p.id, id, now)
            },
        },
{
    let (parent_path, _) = split_path(path);
    let parent_id = match parent_for_new_item(parent_path, parent, true) {
        Ok(pid) => pid,
        Err(e) => return Err(e),
    };
    if exists {
        return Err(collection_exists_error());
    }
    Ok(new_collection_item(path, parent_id, id, now))
}

/// A stored NZB file of `size` bytes at `path` under the parent
/// `parent_id`, whose content is the blob `blob_id`.
pub fn new_nzb_item(path: &str, parent_id: u128, size: usize, blob_id: u128, id: u128, now: i64) -> (r: DavItem)
    ensures
        r.id == id,
        r.id_prefix@ == id_prefix_spec(split_path_spec(path@).1),
        r.created_at == now,
        r.parent_id == Some(parent_id),
        r.name@ == split_path_spec(path@).1,
        r.file_size == Some(size as i64),
        r.item_type == ItemType::UsenetFile,
        r.sub_type == ItemSubType::NzbFile,
        r.path@ == path@,
        r.release_date is None,
        r.last_health_check is None,
        r.next_health_check is None,
        r.history_item_id is None,
        r.file_blob_id is None,
        r.nzb_blob_id == Some(blob_id),
{
    let (_, name) = split_path(path);
    DavItem {
        id,
        id_prefix: id_prefix_of(name),
        created_at: now,
        parent_id: Some(parent_id),
        name: name.to_owned(),
        file_size: Some(size as i64),
        item_type: ItemType::UsenetFile,
        sub_type: ItemSubType::NzbFile,
        path: path.to_owned(),
        release_date: None,
        last_health_check: None,
        next_health_check: None,
        history_item_id: None,
        file_blob_id: None,
        nzb_blob_id: Some(blob_id),
    }
}

/// A copy of `source` at `to` under the parent `parent_id`: a new id,
/// creation time, name and path; the content (the same blobs) and the rest
/// kept.
pub fn copied_item(source: &DavItem, to: &str, parent_id: u128, id: u128, now: i64) -> (r: DavItem)
    ensures
        r.id == id,
        r.id_prefix@ == id_prefix_spec(split_path_spec(to@).1),
        r.created_at == now,
        r.parent_id == Some(parent_id),
        r.name@ == split_path_spec(to@).1,
        r.path@ == to@,
        r.file_size == source.file_size,
        r.item_type == source.item_type,
        r.sub_type == source.sub_type,
        r.release_date == source.release_date,
        r.last_health_check == source.last_health_check,
        r.next_health_check == source.next_health_check,
        r.history_item_id == source.history_item_id,
        r.file_blob_id == source.file_blob_id,
        r.nzb_blob_id == source.nzb_blob_id,
{
    let (_, name) = split_path(to);
    DavItem {
        id,
        id_prefix: id_prefix_of(name),
        created_at: now,
        parent_id: Some(parent_id),
        name: name.to_owned(),
        file_size: source.file_size,
        item_type: source.item_type,
        sub_type: source.sub_type,
        path: to.to_owned(),
        release_date: source.release_date,
        last_health_check: source.last_health_check,
        next_health_check: source.next_health_check,
        history_item_id: source.history_item_id,
        file_blob_id: source.file_blob_id,
        nzb_blob_id: source.nzb_blob_id,
    }
}

/// The blob that holds a file's segments, or the error of an item without
/// one.
pub fn body_blob_id(item: &DavItem) -> (r: Result<u128, DavServerError>)
    ensures
        match item.file_blob_id {
            Some(b) => r == Ok::<u128, DavServerError>(b),
            None => r matches Err(DavServerError::NotFound(m)) && m@ == "item has no file blob"@,
        },
{
    match item.file_blob_id {
        Some(b) => Ok(b),
        None => Err(DavServerError::NotFound("item has no file blob".to_owned())),
    }
}

/// How the blob of a file of the given role is streamed; other roles
/// cannot be.
pub fn body_layout(sub_type: ItemSubType) -> (r: Result<BlobLayout, DavServerError>)
    ensures
        match sub_type {
            ItemSubType::MultipartFile => r == Ok::<BlobLayout, DavServerError>(BlobLayout::Multipart),
            ItemSubType::NzbFile => r == Ok::<BlobLayout, DavServerError>(BlobLayout::Nzb),
            _ => r matches Err(DavServerError::Other(m)) && m@ == "unsupported sub_type for streaming: "@
                + sub_type_name(sub_type),
        },
{
    match sub_type {
        ItemSubType::MultipartFile => Ok(BlobLayout::Multipart),
        ItemSubType::NzbFile => Ok(BlobLayout::Nzb),
        _ => Err(DavServerError::Other(message("unsupported sub_type for streaming: ", sub_type_debug_name(sub_type)))),
    }
}

/// The error of a blob that does not decode.
pub fn body_decode_error(layout: BlobLayout, error: &str) -> (r: DavServerError)
    ensures
        r matches DavServerError::Other(m) && m@ == match layout {
            BlobLayout::Multipart => "failed to deserialize multipart blob: "@,
            BlobLayout::Nzb => "failed to deserialize nzb blob: "@,
        } + error@,
{
    match layout {
        BlobLayout::Multipart => DavServerError::Other(message("failed to deserialize multipart blob: ", error)),
        BlobLayout::Nzb => DavServerError::Other(message("failed to deserialize nzb blob: ", error)),
    }
}

} // verus!
