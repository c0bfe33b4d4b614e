//! Access control: the API key of the SABnzbd API and the Basic credentials
//! of the WebDAV server.

use vstd::prelude::*;

use crate::bindings::{
    base64_decode, base64_decoded, percent_decode, percent_decoded, utf8_decode, utf8_decoded,
};
use crate::range::{split_chars, split_seq};
use crate::text::{
    chars_range, find_char, first_index_of, is_prefix, starts_with, str_chars, str_eq,
    string_from_chars, trim, trim_seq,
};

verus! {

/// Whether a piece of a query string carries the key: it reads
/// `apikey=` followed by the key, percent-encoded.
pub open spec fn piece_has_key(piece: Seq<char>, key: Seq<char>) -> bool {
    is_prefix("apikey="@, piece) && percent_decoded(piece.subrange(7, piece.len() as int)) == key
}

/// Whether some `&`-separated piece of the query carries the key.
pub open spec fn query_has_key(query: Seq<char>, key: Seq<char>) -> bool {
    exists|i: int|
        0 <= i < split_seq(query, '&').len() && piece_has_key(#[trigger] split_seq(query, '&')[i], key)
}

/// Whether a request may use the API: no key is configured, or the query
/// string or the `X-Api-Key` header carries it.
pub open spec fn api_key_allows_spec(
    expected: Option<Seq<char>>,
    query: Option<Seq<char>>,
    header: Option<Seq<char>>,
) -> bool {
    match expected {
        None => true,
        Some(k) => (match query {
            Some(q) => query_has_key(q, k),
            None => false,
        }) || header == Some(k),
    }
}

/// The API key may come in the `X-Api-Key` header or in the query string:
/// with a key configured, a request whose header carries the key is
/// allowed whatever its query string holds, one whose query carries it is
/// allowed whatever its header holds, and one that carries it in neither
/// place is refused; without a key every request is allowed.
pub proof fn lemma_api_key_places(
    k: Seq<char>,
    query: Option<Seq<char>>,
    header: Option<Seq<char>>,
    q: Seq<char>,
)
    ensures
        api_key_allows_spec(Some(k), query, Some(k)),
        query_has_key(q, k) ==> api_key_allows_spec(Some(k), Some(q), header),
        header != Some(k) && !(query matches Some(q2) && query_has_key(q2, k))
            ==> !api_key_allows_spec(Some(k), query, header),
        api_key_allows_spec(None, query, header),
{
}

pub open spec fn opt_view(s: Option<&str>) -> Option<Seq<char>> {
    match s {
        Some(x) => Some(x@),
        None => None,
    }
}

/// Decides whether a request may use the API, from the configured key, the
/// request's query string and its `X-Api-Key` header (where it is text).
pub fn api_key_allows(expected: Option<&str>, query: Option<&str>, header: Option<&str>) -> (r: bool)
    ensures
        r == api_key_allows_spec(opt_view(expected), opt_view(query), opt_view(header)),
{
    let key = match expected {
        None => return true,
        Some(k) => k,
    };
    if let Some(q) = query {
        let qc = str_chars(q);
        let pieces = split_chars(qc.as_slice(), '&');
        let prefix = str_chars("apikey=");
        let ghost sp = split_seq(q@, '&');
        let mut i: usize = 0;
        while i < pieces.len()
            invariant
                i <= pieces@.len(),
                pieces@.len() == sp.len(),
                sp == split_seq(q@, '&'),
                opt_view(expected) == Some(key@),
                opt_view(query) == Some(q@),
                prefix@ == "apikey="@,
                forall|k: int| 0 <= k < pieces@.len() ==> #[trigger] pieces@[k]@ == sp[k],
                forall|j: int| 0 <= j < i ==> !piece_has_key(#[trigger] sp[j], key@),
            decreases pieces@.len() - i,
        {
            let p = pieces[i].as_slice();
            if starts_with(p, prefix.as_slice()) {
                proof {
                    reveal_strlit("apikey=");
                }
                let rest = string_from_chars(chars_range(p, 7, p.len()).as_slice());
                let decoded = percent_decode(rest.as_str());
                if str_eq(decoded.as_str(), key) {
                    assert(piece_has_key(split_seq(q@, '&')[i as int], key@));
                    assert(query_has_key(q@, key@));
                    return true;
                }
            }
            i += 1;
        }
    }
    match header {
        Some(h) => str_eq(h, key),
        None => false,
    }
}

/// The answer to a WebDAV request as far as credentials go.
#[derive(Debug, Clone, Copy, PartialEq, Eq, Structural)]
pub enum AuthDecision {
    /// The request may go on.
    Allow,
    /// `401 Unauthorized`, asking for Basic credentials.
    Unauthorized,
    /// `400 Bad Request`: the credentials do not decode.
    BadRequest,
}

/// Whether `given` meets an expectation that may be absent.
pub open spec fn meets(expected: Option<Seq<char>>, given: Seq<char>) -> bool {
    match expected {
        None => true,
        Some(e) => e == given,
    }
}

/// The decision on Basic credentials: with neither user nor password
/// configured every request may go on; else the `Authorization` header
/// must read `Basic ` and the base64 of `user:password` (split at the first
/// colon), whose parts match those configured.
pub open spec fn basic_auth_spec(
    user: Option<Seq<char>>,
    pass: Option<Seq<char>>,
    header: Option<Seq<char>>,
) -> AuthDecision {
    if user is None && pass is None {
        AuthDecision::Allow
    } else {
        match header {
            None => AuthDecision::Unauthorized,
            Some(h) => if !is_prefix("Basic "@, h) {
                AuthDecision::Unauthorized
            } else {
                match base64_decoded(trim_seq(h.subrange(6, h.len() as int))) {
                    None => AuthDecision::BadRequest,
                    Some(bytes) => match utf8_decoded(bytes) {
                        None => AuthDecision::BadRequest,
                        Some(text) => match first_index_of(text, ':') {
                            None => AuthDecision::Unauthorized,
                            Some(c) => if meets(user, text.subrange(0, c)) && meets(
                                pass,
                                text.subrange(c + 1, text.len() as int),
                            ) {
                                AuthDecision::Allow
                            } else {
                                AuthDecision::Unauthorized
                            },
                        },
                    },
                }
            },
        }
    }
}

fn meets_exec(expected: Option<&str>, given: &[char]) -> (r: bool)
    ensures
        r == meets(opt_view(expected), given@),
{
    match expected {
        None => true,
        Some(e) => {
            let ec = str_chars(e);
            crate::text::chars_eq(ec.as_slice(), given)
        },
    }
}

/// Decides a WebDAV request from the configured user and password and the
/// request's `Authorization` header (where it is text).
pub fn basic_auth_decision(user: Option<&str>, pass: Option<&str>, header: Option<&str>) -> (r: AuthDecision)
    ensures
        r == basic_auth_spec(opt_view(user), opt_view(pass), opt_view(header)),
{
    if user.is_none() && pass.is_none() {
        return AuthDecision::Allow;
    }
    let h = match header {
        None => return AuthDecision::Unauthorized,
        Some(h) => h,
    };
    let hc = str_chars(h);
    let prefix = str_chars("Basic ");
    if !starts_with(hc.as_slice(), prefix.as_slice()) {
        return AuthDecision::Unauthorized;
    }
    proof {
        reveal_strlit("Basic ");
    }
    let encoded = trim(chars_range(hc.as_slice(), 6, hc.len()).as_slice());
    let encoded_s = string_from_chars(encoded.as_slice());
    let bytes = match base64_decode(encoded_s.as_str()) {
        None => return AuthDecision::BadRequest,
        Some(b) => b,
    };
    let text = match utf8_decode(bytes) {
        None => return AuthDecision::BadRequest,
        Some(t) => t,
    };
    let tc = str_chars(text.as_str());
    match find_char(tc.as_slice(), ':') {
        None => AuthDecision::Unauthorized,
        Some(c) => {
            let n = tc.len();
            assert(c < n);
            let u = chars_range(tc.as_slice(), 0, c);
            let p = chars_range(tc.as_slice(), c + 1, n);
            if meets_exec(user, u.as_slice()) && meets_exec(pass, p.as_slice()) {
                AuthDecision::Allow
            } else {
                AuthDecision::Unauthorized
            }
        },
    }
}

} // verus!
