//! PROPFIND responses (`DAV:multistatus` XML).
//!
//! The document is laid out as an XML writer with two-space indentation
//! lays it out: every start, end and empty tag on a line of its own,
//! indented by its depth, and text elements on one line.

use vstd::prelude::*;

use crate::bindings::{format_utc, utc_formatted, xml_escape, xml_escape_text};
use crate::store::DavNode;
use vstd::string::StringSliceAdditionalSpecFns;
use crate::text::{
    all_digits, chars_range, decimal, decimal_int, digits_value, ends_with, i64_to_string,
    is_digit, is_suffix, lemma_decimal_digits, push_chars, push_str, str_chars,
    string_from_chars,
};
use crate::util::{trim_end_matches, trim_end_matches_spec};

verus! {

// ---------------------------------------------------------------------------
// Percent-encoding of hrefs
// ---------------------------------------------------------------------------

/// The bytes that an href keeps as they are: ASCII letters and digits and
/// the unreserved and sub-delimiter characters of RFC 3986, `:` and `@`.
pub open spec fn is_path_byte(b: u8) -> bool {
    (48 <= b && b <= 57) || (65 <= b && b <= 90) || (97 <= b && b <= 122) || b == 45 || b == 46
        || b == 95 || b == 126 || b == 33 || b == 36 || b == 38 || b == 39 || b == 40 || b == 41
        || b == 42 || b == 43 || b == 44 || b == 59 || b == 61 || b == 58 || b == 64
}

/// Whether an href keeps the byte as it is.
pub fn is_path_char(byte: u8) -> (r: bool)
    ensures
        r == is_path_byte(byte),
{
    (48 <= byte && byte <= 57) || (65 <= byte && byte <= 90) || (97 <= byte && byte <= 122) || byte
        == 45 || byte == 46 || byte == 95 || byte == 126 || byte == 33 || byte == 36 || byte == 38
        || byte == 39 || byte == 40 || byte == 41 || byte == 42 || byte == 43 || byte == 44 || byte
        == 59 || byte == 61 || byte == 58 || byte == 64
}

pub open spec fn upper_hex(d: nat) -> char {
    if d < 10 {
        (('0' as u32) + d) as char
    } else {
        (('A' as u32) + (d - 10)) as char
    }
}

/// One byte of an href: kept, or written as `%XX` in upper-case hex.
pub open spec fn encode_byte(b: u8) -> Seq<char> {
    if b == 47 || is_path_byte(b) {
        seq![b as char]
    } else {
        seq!['%', upper_hex((b / 16) as nat), upper_hex((b % 16) as nat)]
    }
}

pub open spec fn encode_bytes(bs: Seq<u8>) -> Seq<char>
    decreases bs.len(),
{
    if bs.len() == 0 {
        Seq::empty()
    } else {
        encode_bytes(bs.drop_last()) + encode_byte(bs.last())
    }
}

fn upper_hex_char(d: u8) -> (c: char)
    requires
        d < 16,
    ensures
        c == upper_hex(d as nat),
{
    if d < 10 {
        ((('0' as u32) + (d as u32)) as u8) as char
    } else {
        ((('A' as u32) + ((d - 10) as u32)) as u8) as char
    }
}

/// Percent-encodes the UTF-8 bytes of a path for use in an href; `/` and
/// the path characters stay as they are.
pub fn encode_href_path(path: &str) -> (r: String)
    ensures
        r@ == encode_bytes(path.spec_bytes()),
{
    let bytes = path.as_bytes();
    let mut out: Vec<char> = Vec::new();
    let mut i: usize = 0;
    while i < bytes.len()
        invariant
            i <= bytes@.len(),
            out@ == encode_bytes(bytes@.subrange(0, i as int)),
        decreases bytes@.len() - i,
    {
        let b = bytes[i];
        assert(bytes@.subrange(0, i + 1).drop_last() =~= bytes@.subrange(0, i as int));
        if b == 47 || is_path_char(b) {
            out.push(b as char);
        } else {
            out.push('%');
            out.push(upper_hex_char(b / 16));
            out.push(upper_hex_char(b % 16));
        }
        i += 1;
        assert(out@ =~= encode_bytes(bytes@.subrange(0, i as int)));
    }
    assert(bytes@.subrange(0, bytes@.len() as int) =~= bytes@);
    string_from_chars(out.as_slice())
}

// ---------------------------------------------------------------------------
// The document
// ---------------------------------------------------------------------------

pub open spec fn spaces(n: nat) -> Seq<char> {
    Seq::new(n, |i: int| ' ')
}

/// A line break followed by `n` spaces.
pub open spec fn newline_indent(n: nat) -> Seq<char> {
    seq!['\n'] + spaces(n)
}

/// `<tag>text</tag>` on a line of its own; the text is escaped.
pub open spec fn text_element(indent: nat, tag: Seq<char>, text: Seq<char>) -> Seq<char> {
    newline_indent(indent) + seq!['<'] + tag + seq!['>'] + xml_escape(text) + seq!['<', '/'] + tag
        + seq!['>']
}

/// A tag on a line of its own.
pub open spec fn tag_line(indent: nat, tag: Seq<char>) -> Seq<char> {
    newline_indent(indent) + tag
}

/// The time `secs` written with a chrono format, empty where chrono has no
/// such date.
pub open spec fn date_text(secs: i64, fmt: Seq<char>) -> Seq<char> {
    match utc_formatted(secs, fmt) {
        Some(s) => s,
        None => Seq::empty(),
    }
}

pub open spec fn iso_format() -> Seq<char> {
    "%Y-%m-%dT%H:%M:%SZ"@
}

pub open spec fn http_date_format() -> Seq<char> {
    "%a, %d %b %Y %H:%M:%S GMT"@
}

pub open spec fn resourcetype_xml(is_collection: bool) -> Seq<char> {
    if is_collection {
        tag_line(8, "<D:resourcetype>"@) + tag_line(10, "<D:collection/>"@) + tag_line(
            8,
            "</D:resourcetype>"@,
        )
    } else {
        tag_line(8, "<D:resourcetype/>"@)
    }
}

/// Length and type, reported for files only.
pub open spec fn file_props_xml(node: DavNode) -> Seq<char> {
    if node.is_collection {
        Seq::empty()
    } else {
        (match node.item.file_size {
            Some(size) => text_element(8, "D:getcontentlength"@, decimal_int(size as int)),
            None => Seq::empty(),
        }) + text_element(8, "D:getcontenttype"@, node.content_type@)
    }
}

/// Escaping leaves text without markup characters as it is.
proof fn lemma_escape_plain(t: Seq<char>)
    requires
        forall|i: int|
            0 <= i < t.len() ==> #[trigger] t[i] != '<' && t[i] != '>' && t[i] != '&' && t[i]
                != '\'' && t[i] != '"',
    ensures
        xml_escape(t) == t,
    decreases t.len(),
{
    if t.len() > 0 {
        let u = t.drop_last();
        assert forall|i: int| 0 <= i < u.len() implies #[trigger] u[i] != '<' && u[i] != '>'
            && u[i] != '&' && u[i] != '\'' && u[i] != '"' by {
            assert(u[i] == t[i]);
        }
        lemma_escape_plain(u);
        assert(t[t.len() - 1] == t.last());
        assert(u + seq![t.last()] =~= t);
    }
}

/// A file of `n` bytes reports its length as the decimal number `n`
/// itself, for every size: the properties of a file start with a
/// `getcontentlength` element whose text is the digits of `n` (after a
/// `-` where `n` is negative) and whose value is `n`, followed by the
/// content type.
pub proof fn lemma_content_length_reported(node: DavNode, n: i64)
    requires
        !node.is_collection,
        node.item.file_size == Some(n),
    ensures
        ({
            let t = decimal_int(n as int);
            &&& file_props_xml(node) == newline_indent(8) + seq!['<'] + "D:getcontentlength"@
                + seq!['>'] + t + seq!['<', '/'] + "D:getcontentlength"@ + seq!['>']
                + text_element(8, "D:getcontenttype"@, node.content_type@)
            &&& n >= 0 ==> t.len() > 0 && all_digits(t) && digits_value(t) == n
            &&& n < 0 ==> t.len() > 1 && t[0] == '-' && all_digits(t.drop_first())
                && digits_value(t.drop_first()) == -n
        }),
{
    let t = decimal_int(n as int);
    if n >= 0 {
        lemma_decimal_digits(n as nat);
    } else {
        lemma_decimal_digits((-n) as nat);
        assert(t.drop_first() =~= decimal((-n) as nat));
    }
    assert forall|i: int|
        0 <= i < t.len() implies #[trigger] t[i] != '<' && t[i] != '>' && t[i] != '&' && t[i]
        != '\'' && t[i] != '"' by {
        if n >= 0 {
            assert(is_digit(t[i]));
        } else if i > 0 {
            assert(t[i] == t.drop_first()[i - 1]);
            assert(is_digit(t.drop_first()[i - 1]));
        }
    }
    lemma_escape_plain(t);
}

/// The opening of a `<D:response>` element, up to the display name.
pub open spec fn response_head(node: DavNode, href: Seq<char>) -> Seq<char> {
    tag_line(2, "<D:response>"@) + text_element(4, "D:href"@, href) + tag_line(
        4,
        "<D:propstat>"@,
    ) + tag_line(6, "<D:prop>"@) + text_element(8, "D:displayname"@, node.item.name@)
}

/// The close of a `<D:response>` element, from the entity tag on.
pub open spec fn response_tail(node: DavNode) -> Seq<char> {
    text_element(8, "D:getetag"@, node.etag@) + text_element(
        8,
        "D:creationdate"@,
        date_text(node.item.created_at, iso_format()),
    ) + text_element(8, "D:getlastmodified"@, date_text(node.item.created_at, http_date_format()))
        + tag_line(6, "</D:prop>"@) + text_element(6, "D:status"@, "HTTP/1.1 200 OK"@) + tag_line(
        4,
        "</D:propstat>"@,
    ) + tag_line(2, "</D:response>"@)
}

/// The `<D:response>` element of one node under the given href.
pub open spec fn response_xml(node: DavNode, href: Seq<char>) -> Seq<char> {
    response_head(node, href) + resourcetype_xml(node.is_collection) + file_props_xml(node)
        + response_tail(node)
}

/// The mount prefix of the request: what the request path holds before the
/// first node's filesystem path (trailing slashes of both ignored), or
/// nothing where the request path does not end with it.
pub open spec fn url_prefix(first_path: Seq<char>, base_href: Seq<char>) -> Seq<char> {
    let v = trim_end_matches_spec(first_path, "/"@);
    let r = trim_end_matches_spec(base_href, "/"@);
    if is_suffix(v, r) && r.len() > v.len() {
        r.subrange(0, r.len() - v.len())
    } else {
        Seq::empty()
    }
}

/// The href of the `i`-th node: the request path for the first node, the
/// mount prefix and the node's path for the others.
pub open spec fn node_href(nodes: Seq<DavNode>, base_href: Seq<char>, i: int) -> Seq<char> {
    if i == 0 {
        base_href
    } else {
        url_prefix(nodes[0].item.path@, base_href) + nodes[i].item.path@
    }
}

/// The responses of the first `n` nodes.
pub open spec fn responses_xml(nodes: Seq<DavNode>, base_href: Seq<char>, n: int) -> Seq<char>
    decreases n,
{
    if n <= 0 {
        Seq::empty()
    } else {
        responses_xml(nodes, base_href, n - 1) + response_xml(
            nodes[n - 1],
            encode_bytes(vstd::utf8::encode_utf8(node_href(nodes, base_href, n - 1))),
        )
    }
}

pub open spec fn xml_declaration() -> Seq<char> {
    "<?xml version=\"1.0\" encoding=\"utf-8\"?>"@
}

/// The whole multistatus document for the nodes of a PROPFIND.
pub open spec fn multistatus_spec(nodes: Seq<DavNode>, base_href: Seq<char>) -> Seq<char> {
    xml_declaration() + tag_line(0, "<D:multistatus xmlns:D=\"DAV:\">"@) + responses_xml(
        nodes,
        base_href,
        nodes.len() as int,
    ) + tag_line(0, "</D:multistatus>"@)
}

fn push_indent(out: &mut Vec<char>, n: usize)
    ensures
        final(out)@ == old(out)@ + newline_indent(n as nat),
{
    let ghost start = old(out)@;
    out.push('\n');
    let mut i: usize = 0;
    while i < n
        invariant
            i <= n,
            out@ == start + seq!['\n'] + spaces(i as nat),
        decreases n - i,
    {
        out.push(' ');
        i += 1;
        assert(out@ =~= start + seq!['\n'] + spaces(i as nat));
    }
}

fn push_tag_line(out: &mut Vec<char>, n: usize, tag: &str)
    ensures
        final(out)@ == old(out)@ + tag_line(n as nat, tag@),
{
    push_indent(out, n);
    push_str(out, tag);
    assert(out@ =~= old(out)@ + tag_line(n as nat, tag@));
}

fn push_text_element(out: &mut Vec<char>, n: usize, tag: &str, text: &str)
    ensures
        final(out)@ == old(out)@ + text_element(n as nat, tag@, text@),
{
    push_indent(out, n);
    out.push('<');
    push_str(out, tag);
    out.push('>');
    let esc = xml_escape_text(text);
    push_str(out, esc.as_str());
    out.push('<');
    out.push('/');
    push_str(out, tag);
    out.push('>');
    assert(out@ =~= old(out)@ + text_element(n as nat, tag@, text@));
}

fn date_string(secs: i64, fmt: &str) -> (r: String)
    requires
        fmt@ == iso_format() || fmt@ == http_date_format(),
    ensures
        r@ == date_text(secs, fmt@),
{
    match format_utc(secs, fmt) {
        Some(s) => s,
        None => string_from_chars(Vec::<char>::new().as_slice()),
    }
}

fn push_response_head(out: &mut Vec<char>, node: &DavNode, href: &str)
    ensures
        final(out)@ == old(out)@ + response_head(*node, href@),
{
    push_tag_line(out, 2, "<D:response>");
    push_text_element(out, 4, "D:href", href);
    push_tag_line(out, 4, "<D:propstat>");
    push_tag_line(out, 6, "<D:prop>");
    push_text_element(out, 8, "D:displayname", node.item.name.as_str());
    assert(out@ =~= old(out)@ + response_head(*node, href@));
}

fn push_resourcetype(out: &mut Vec<char>, is_collection: bool)
    ensures
        final(out)@ == old(out)@ + resourcetype_xml(is_collection),
{
    if is_collection {
        push_tag_line(out, 8, "<D:resourcetype>");
        push_tag_line(out, 10, "<D:collection/>");
        push_tag_line(out, 8, "</D:resourcetype>");
    } else {
        push_tag_line(out, 8, "<D:resourcetype/>");
    }
    assert(out@ =~= old(out)@ + resourcetype_xml(is_collection));
}

fn push_file_props(out: &mut Vec<char>, node: &DavNode)
    ensures
        final(out)@ == old(out)@ + file_props_xml(*node),
{
    if !node.is_collection {
        match node.item.file_size {
            Some(size) => {
                let s = i64_to_string(size);
                push_text_element(out, 8, "D:getcontentlength", s.as_str());
            },
            None => {},
        }
        push_text_element(out, 8, "D:getcontenttype", node.content_type.as_str());
    }
    assert(out@ =~= old(out)@ + file_props_xml(*node));
}

fn push_response_tail(out: &mut Vec<char>, node: &DavNode)
    ensures
        final(out)@ == old(out)@ + response_tail(*node),
{
    push_text_element(out, 8, "D:getetag", node.etag.as_str());
    let created = date_string(node.item.created_at, "%Y-%m-%dT%H:%M:%SZ");
    push_text_element(out, 8, "D:creationdate", created.as_str());
    let modified = date_string(node.item.created_at, "%a, %d %b %Y %H:%M:%S GMT");
    push_text_element(out, 8, "D:getlastmodified", modified.as_str());
    push_tag_line(out, 6, "</D:prop>");
    push_text_element(out, 6, "D:status", "HTTP/1.1 200 OK");
    push_tag_line(out, 4, "</D:propstat>");
    push_tag_line(out, 2, "</D:response>");
    assert(out@ =~= old(out)@ + response_tail(*node));
}

fn push_response(out: &mut Vec<char>, node: &DavNode, href: &str)
    ensures
        final(out)@ == old(out)@ + response_xml(*node, href@),
{
    push_response_head(out, node, href);
    push_resourcetype(out, node.is_collection);
    push_file_props(out, node);
    push_response_tail(out, node);
    assert(out@ =~= old(out)@ + response_xml(*node, href@));
}

fn url_prefix_chars(first_path: &str, base_href: &str) -> (r: Vec<char>)
    ensures
        r@ == url_prefix(first_path@, base_href@),
{
    let slash = str_chars("/");
    let fp = str_chars(first_path);
    let bh = str_chars(base_href);
    let v = trim_end_matches(fp.as_slice(), slash.as_slice());
    let r = trim_end_matches(bh.as_slice(), slash.as_slice());
    if ends_with(r.as_slice(), v.as_slice()) && r.len() > v.len() {
        chars_range(r.as_slice(), 0, r.len() - v.len())
    } else {
        Vec::new()
    }
}

/// Generates the `DAV:multistatus` document of a PROPFIND.
///
/// `nodes` holds the target resource first and, for depth 1, its children.
/// `base_href` is the request path; it is the href of the first node, and
/// the mount prefix it holds before the first node's path is put before the
/// paths of the others.
pub fn multistatus_xml(nodes: &[DavNode], base_href: &str) -> (r: String)
    ensures
        r@ == multistatus_spec(nodes@, base_href@),
{
    let mut out: Vec<char> = Vec::new();
    push_str(&mut out, "<?xml version=\"1.0\" encoding=\"utf-8\"?>");
    push_tag_line(&mut out, 0, "<D:multistatus xmlns:D=\"DAV:\">");
    let ghost head = out@;
    let prefix: Vec<char> = if nodes.len() > 0 {
        url_prefix_chars(nodes[0].item.path.as_str(), base_href)
    } else {
        Vec::new()
    };
    let mut i: usize = 0;
    while i < nodes.len()
        invariant
            i <= nodes@.len(),
            nodes@.len() > 0 ==> prefix@ == url_prefix(nodes@[0].item.path@, base_href@),
            out@ == head + responses_xml(nodes@, base_href@, i as int),
        decreases nodes@.len() - i,
    {
        let href: String = if i == 0 {
            let b = str_chars(base_href);
            string_from_chars(b.as_slice())
        } else {
            let mut h = chars_range(prefix.as_slice(), 0, prefix.len());
            let p = str_chars(nodes[i].item.path.as_str());
            push_chars(&mut h, p.as_slice());
            string_from_chars(h.as_slice())
        };
        assert(href@ == node_href(nodes@, base_href@, i as int));
        let encoded = encode_href_path(href.as_str());
        push_response(&mut out, &nodes[i], encoded.as_str());
        i += 1;
        assert(out@ =~= head + responses_xml(nodes@, base_href@, i as int));
    }
    push_tag_line(&mut out, 0, "</D:multistatus>");
    assert(out@ =~= multistatus_spec(nodes@, base_href@));
    string_from_chars(out.as_slice())
}

} // verus!
