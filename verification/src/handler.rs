//! The decisions of the WebDAV request handlers: which answer a request
//! gets, and the header values that go with it.

use vstd::prelude::*;

use crate::bindings::{percent_decode, percent_decoded, uri_path, uri_path_of};
use crate::models::ItemSubType;
use crate::range::{lemma_parse_range_within_file, parse_range, parse_range_spec, ByteRange};
use crate::store::DavNode;
use crate::text::{decimal, push_chars, push_str, str_chars, str_eq, string_from_chars, u64_to_chars};

verus! {

/// The methods that OPTIONS announces.
pub fn allowed_methods() -> (r: &'static str)
    ensures
        r@ == "OPTIONS, GET, HEAD, PUT, DELETE, PROPFIND, MKCOL, MOVE, COPY"@,
{
    "OPTIONS, GET, HEAD, PUT, DELETE, PROPFIND, MKCOL, MOVE, COPY"
}

/// The WebDAV compliance classes that OPTIONS announces.
pub fn dav_compliance() -> (r: &'static str)
    ensures
        r@ == "1, 2"@,
{
    "1, 2"
}

/// The largest request body accepted, in bytes.
pub const MAX_BODY_BYTES: usize = 268435456;

/// Percent-decodes a request path.
pub fn decode_path(path: &str) -> (r: String)
    ensures
        r@ == percent_decoded(path@),
{
    percent_decode(path)
}

/// Whether PROPFIND lists the children too: unless the `Depth` header is
/// `0` (it is `1` where absent).
pub fn lists_children(depth: Option<&str>) -> (r: bool)
    ensures
        r == match depth {
            Some(d) => d@ != "0"@,
            None => true,
        },
{
    match depth {
        Some(d) => !str_eq(d, "0"),
        None => true,
    }
}

/// The path that a `Destination` header names: the path of the URI where
/// the value parses as one, else the value itself, percent-decoded.
pub fn destination_path(header: Option<&str>) -> (r: Option<String>)
    ensures
        match header {
            None => r is None,
            Some(h) => r matches Some(p) && p@ == percent_decoded(
                match uri_path_of(h@) {
                    Some(u) => u,
                    None => h@,
                },
            ),
        },
{
    match header {
        None => None,
        Some(h) => match uri_path(h) {
            Some(u) => Some(percent_decode(u.as_str())),
            None => Some(percent_decode(h)),
        },
    }
}

/// How a GET request for a node is answered.
#[derive(Debug, Clone, Copy, PartialEq, Eq, Structural)]
pub enum GetPlan {
    /// `405`: a collection has no content.
    Collection,
    /// Stream the file's segments from Usenet.
    Stream,
    /// Send the stored NZB document.
    NzbDocument,
    /// `404`: the node has no content.
    NoContent,
}

pub fn get_plan(node: &DavNode) -> (r: GetPlan)
    ensures
        r == if node.is_collection {
            GetPlan::Collection
        } else if node.item.file_blob_id is Some {
            GetPlan::Stream
        } else if node.item.nzb_blob_id is Some {
            GetPlan::NzbDocument
        } else {
            GetPlan::NoContent
        },
{
    if node.is_collection {
        GetPlan::Collection
    } else if node.item.file_blob_id.is_some() {
        GetPlan::Stream
    } else if node.item.nzb_blob_id.is_some() {
        GetPlan::NzbDocument
    } else {
        GetPlan::NoContent
    }
}

/// The status and text of a GET or HEAD that has no content to give.
pub fn refusal(plan: GetPlan, head: bool) -> (r: Option<(u16, &'static str)>)
    ensures
        match plan {
            GetPlan::Collection => r matches Some((s, m)) && s == 405 && m@ == if head {
                "Cannot HEAD a collection"@
            } else {
                "Cannot GET a collection"@
            },
            GetPlan::NoContent => !head ==> (r matches Some((s, m)) && s == 404 && m@
                == "No content available"@),
            _ => true,
        },
        head ==> (plan != GetPlan::Collection <==> r is None),
        !head ==> (r is None <==> (plan == GetPlan::Stream || plan == GetPlan::NzbDocument)),
{
    match plan {
        GetPlan::Collection => if head {
            Some((405, "Cannot HEAD a collection"))
        } else {
            Some((405, "Cannot GET a collection"))
        },
        GetPlan::NoContent => if head {
            None
        } else {
            Some((404, "No content available"))
        },
        _ => None,
    }
}

/// What a streamed GET answers as far as the `Range` header goes.
#[derive(Debug, Clone, Copy, PartialEq, Eq, Structural)]
pub enum RangePlan {
    /// No `Range` header: the whole file, `200`.
    Full,
    /// A `Range` header that does not parse or cannot be met: `416`.
    Unsatisfiable,
    /// The first range of the header, both ends included: `206`.
    Partial { start: u64, end: u64 },
}

pub fn range_plan(header: Option<&str>, file_size: u64) -> (r: RangePlan)
    ensures
        match header {
            None => r == RangePlan::Full,
            Some(h) => match parse_range_spec(h@, file_size) {
                Ok(rs) => r == (RangePlan::Partial { start: rs[0].start, end: rs[0].end }),
                Err(_) => r == RangePlan::Unsatisfiable,
            },
        },
        r matches RangePlan::Partial { start, end } ==> start <= end < file_size,
{
    match header {
        None => RangePlan::Full,
        Some(h) => {
            proof {
                lemma_parse_range_within_file(h@, file_size);
            }
            match parse_range(h, file_size) {
                Ok(v) => {
                    let first: ByteRange = v[0];
                    RangePlan::Partial { start: first.start, end: first.end }
                },
                Err(_) => RangePlan::Unsatisfiable,
            }
        },
    }
}

/// The bytes `data[start..=end]`.
fn byte_range(data: &[u8], start: usize, end: usize) -> (r: Vec<u8>)
    requires
        start <= end < data@.len(),
    ensures
        r@ == data@.subrange(start as int, end + 1),
{
    let mut out: Vec<u8> = Vec::new();
    let mut k = start;
    while k <= end
        invariant
            start <= k <= end + 1,
            end < data@.len(),
            out@ == data@.subrange(start as int, k as int),
        decreases end + 1 - k,
    {
        out.push(data[k]);
        k += 1;
        assert(out@ =~= data@.subrange(start as int, k as int));
    }
    out
}

/// What a GET of a stored NZB document answers, as the streamed files do:
/// the whole document without a `Range` header (`200`), else the bytes of
/// the first range it asks for (`206`), or nothing where it cannot be met
/// (`416`). A request with a `Range` header is never answered with the
/// whole document.
pub fn document_answer(data: &[u8], range: Option<&str>) -> (r: (RangePlan, Vec<u8>))
    ensures
        match range {
            None => r.0 == RangePlan::Full,
            Some(h) => match parse_range_spec(h@, data@.len() as u64) {
                Ok(rs) => r.0 == (RangePlan::Partial { start: rs[0].start, end: rs[0].end }),
                Err(_) => r.0 == RangePlan::Unsatisfiable,
            },
        },
        r.0 == RangePlan::Full ==> r.1@ == data@,
        r.0 == RangePlan::Unsatisfiable ==> r.1@.len() == 0,
        r.0 matches RangePlan::Partial { start, end } ==> start <= end < data@.len() && r.1@
            == data@.subrange(start as int, end + 1),
        range is Some ==> r.0 != RangePlan::Full,
{
    let size = data.len() as u64;
    let plan = range_plan(range, size);
    match plan {
        RangePlan::Full => {
            let mut out: Vec<u8> = Vec::new();
            let mut k: usize = 0;
            while k < data.len()
                invariant
                    k <= data@.len(),
                    out@ == data@.subrange(0, k as int),
                decreases data@.len() - k,
            {
                out.push(data[k]);
                k += 1;
                assert(out@ =~= data@.subrange(0, k as int));
            }
            assert(data@.subrange(0, data@.len() as int) =~= data@);
            (plan, out)
        },
        RangePlan::Unsatisfiable => (plan, Vec::new()),
        RangePlan::Partial { start, end } => {
            let body = byte_range(data, start as usize, end as usize);
            (plan, body)
        },
    }
}

/// The `Content-Range` of a partial answer: `bytes {start}-{end}/{size}`.
pub fn content_range(start: u64, end: u64, file_size: u64) -> (r: String)
    ensures
        r@ == "bytes "@ + decimal(start as nat) + "-"@ + decimal(end as nat) + "/"@ + decimal(
            file_size as nat,
        ),
{
    let mut c = str_chars("bytes ");
    let s = u64_to_chars(start);
    push_chars(&mut c, s.as_slice());
    push_str(&mut c, "-");
    let e = u64_to_chars(end);
    push_chars(&mut c, e.as_slice());
    push_str(&mut c, "/");
    let z = u64_to_chars(file_size);
    push_chars(&mut c, z.as_slice());
    string_from_chars(c.as_slice())
}

/// The `Content-Range` of a `416` answer: `bytes */{size}`.
pub fn unsatisfiable_content_range(file_size: u64) -> (r: String)
    ensures
        r@ == "bytes */"@ + decimal(file_size as nat),
{
    let mut c = str_chars("bytes */");
    let z = u64_to_chars(file_size);
    push_chars(&mut c, z.as_slice());
    string_from_chars(c.as_slice())
}

/// The number of bytes of a partial answer from `start` to `end`, both
/// included.
pub fn content_length(start: u64, end: u64) -> (r: u64)
    requires
        start <= end,
        end - start < u64::MAX,
    ensures
        r == end - start + 1,
{
    end - start + 1
}

/// What could be read of a file's blob for a range request.
#[derive(Debug, Clone, Copy, PartialEq, Eq, Structural)]
pub enum BlobMeta {
    /// There is no blob, it could not be read, or it does not decode as the
    /// file's role requires.
    Unavailable,
    /// A multipart file, encrypted or not.
    Multipart { encrypted: bool },
    /// A plain file.
    Nzb,
}

/// Where the bytes of a partial answer come from.
#[derive(Debug, Clone, Copy, PartialEq, Eq, Structural)]
pub enum RangeSource {
    /// Seek in the stream of the multipart file's parts.
    SeekMultipart,
    /// Start the segment stream at the segment holding the first byte.
    AlignedSegments,
    /// An encrypted file cannot be entered in the middle: the whole file is
    /// sent with `200`.
    WholeFile,
    /// Nothing can serve the range: `416`.
    NotSatisfiable,
}

pub fn range_source(sub_type: ItemSubType, meta: BlobMeta) -> (r: RangeSource)
    ensures
        r == match (sub_type, meta) {
            (ItemSubType::MultipartFile, BlobMeta::Multipart { encrypted }) => if encrypted {
                RangeSource::WholeFile
            } else {
                RangeSource::SeekMultipart
            },
            (ItemSubType::NzbFile, BlobMeta::Nzb) => RangeSource::AlignedSegments,
            _ => RangeSource::NotSatisfiable,
        },
{
    match (sub_type, meta) {
        (ItemSubType::MultipartFile, BlobMeta::Multipart { encrypted }) => if encrypted {
            RangeSource::WholeFile
        } else {
            RangeSource::SeekMultipart
        },
        (ItemSubType::NzbFile, BlobMeta::Nzb) => RangeSource::AlignedSegments,
        _ => RangeSource::NotSatisfiable,
    }
}

} // verus!
