//! The decisions behind the four routes: the fixed bodies of the info and
//! status routes, building the outbound URLs (with the path parameter
//! percent-encoded), and turning a fetch's outcome into the reply's status
//! and body. The fetch itself is I/O and happens outside the library.

use vstd::prelude::*;
use crate::detail::detail_extract;
use crate::detail::detail_ok;
use crate::detail::spec_detail_name;
use crate::detail::spec_detail_poster;
use crate::detail::spec_detail_synopsis;
use crate::json::detail_json;
use crate::json::detail_to_json;
use crate::json::search_json;
use crate::json::search_to_json;
use crate::search::search_extract;
use crate::search::search_ids;
use crate::search::search_ok;
use crate::text::push_char;

verus! {

/// The UTF-8 bytes of a character, as `char::encode_utf8` writes them.
pub uninterp spec fn utf8_of(c: char) -> Seq<u8>;

/// Relies on `char::encode_utf8`: the UTF-8 bytes of the character, between
/// one and four of them; a character below 128 is its own single byte.
#[verifier::external_body]
fn char_utf8(c: char) -> (r: Vec<u8>)
    ensures
        r@ == utf8_of(c),
        1 <= r@.len() <= 4,
        (c as u32) < 128 ==> r@ == seq![(c as u32) as u8],
{
    let mut buf = [0u8; 4];
    c.encode_utf8(&mut buf).as_bytes().to_vec()
}

/// The uppercase hexadecimal digit for `n`.
pub open spec fn hex_up(n: int) -> char {
    if n == 0 {
        '0'
    } else if n == 1 {
        '1'
    } else if n == 2 {
        '2'
    } else if n == 3 {
        '3'
    } else if n == 4 {
        '4'
    } else if n == 5 {
        '5'
    } else if n == 6 {
        '6'
    } else if n == 7 {
        '7'
    } else if n == 8 {
        '8'
    } else if n == 9 {
        '9'
    } else if n == 10 {
        'A'
    } else if n == 11 {
        'B'
    } else if n == 12 {
        'C'
    } else if n == 13 {
        'D'
    } else if n == 14 {
        'E'
    } else {
        'F'
    }
}

/// Whether a character stands for itself in a URL: the unreserved set of
/// letters, digits, `-`, `.`, `_` and `~`.
pub open spec fn unreserved(c: char) -> bool {
    let u = c as u32;
    (48 <= u && u <= 57) || (65 <= u && u <= 90) || (97 <= u && u <= 122) || u == 45 || u == 46
        || u == 95 || u == 126
}

/// The percent escapes of the first `i` bytes, concatenated.
pub open spec fn pct_upto(bs: Seq<u8>, i: int) -> Seq<char>
    decreases i,
{
    if i <= 0 {
        Seq::empty()
    } else {
        pct_upto(bs, i - 1) + seq![
            '%',
            hex_up(bs[i - 1] as int / 16),
            hex_up(bs[i - 1] as int % 16),
        ]
    }
}

/// How one character appears in an encoded URL component: itself if
/// unreserved, else each of its UTF-8 bytes percent-escaped.
pub open spec fn enc_char(c: char) -> Seq<char> {
    if unreserved(c) {
        seq![c]
    } else {
        pct_upto(utf8_of(c), utf8_of(c).len() as int)
    }
}

/// The encodings of the first `i` characters of `s`, concatenated.
pub open spec fn enc_upto(s: Seq<char>, i: int) -> Seq<char>
    decreases i,
{
    if i <= 0 {
        Seq::empty()
    } else {
        enc_upto(s, i - 1) + enc_char(s[i - 1])
    }
}

/// `s` percent-encoded for use as a URL component.
pub open spec fn query_encode(s: Seq<char>) -> Seq<char> {
    enc_upto(s, s.len() as int)
}

/// The uppercase hexadecimal digit for `n`.
fn hex_up_digit(n: u8) -> (c: char)
    requires
        n < 16,
    ensures
        c == hex_up(n as int),
{
    if n == 0 {
        '0'
    } else if n == 1 {
        '1'
    } else if n == 2 {
        '2'
    } else if n == 3 {
        '3'
    } else if n == 4 {
        '4'
    } else if n == 5 {
        '5'
    } else if n == 6 {
        '6'
    } else if n == 7 {
        '7'
    } else if n == 8 {
        '8'
    } else if n == 9 {
        '9'
    } else if n == 10 {
        'A'
    } else if n == 11 {
        'B'
    } else if n == 12 {
        'C'
    } else if n == 13 {
        'D'
    } else if n == 14 {
        'E'
    } else {
        'F'
    }
}

/// Percent-encodes `s` for use as a URL component: unreserved characters
/// stand for themselves, every other character becomes the percent escapes
/// of its UTF-8 bytes.
pub fn url_encode(s: &str) -> (r: String)
    ensures
        r@ == query_encode(s@),
{
    let n: usize = s.unicode_len();
    let mut out = String::new();
    let mut i: usize = 0;
    proof {
        assert(out@ + enc_upto(s@, 0) =~= out@);
    }
    while i < n
        invariant
            0 <= i <= n,
            n == s@.len(),
            out@ == enc_upto(s@, i as int),
        decreases n - i,
    {
        let ghost before = out@;
        let c = s.get_char(i);
        let u = c as u32;
        if (48 <= u && u <= 57) || (65 <= u && u <= 90) || (97 <= u && u <= 122) || u == 45 || u
            == 46 || u == 95 || u == 126 {
            push_char(&mut out, c);
            proof {
                assert(unreserved(c));
                assert(before.push(c) =~= before + enc_char(c));
            }
        } else {
            let bs = char_utf8(c);
            let m = bs.len();
            let mut k: usize = 0;
            proof {
                assert(!unreserved(c));
                assert(before + pct_upto(bs@, 0) =~= before);
            }
            while k < m
                invariant
                    0 <= k <= m,
                    m == bs@.len(),
                    out@ == before + pct_upto(bs@, k as int),
                decreases m - k,
            {
                let ghost inner_before = out@;
                let b = bs[k];
                push_char(&mut out, '%');
                let d1 = hex_up_digit(b / 16);
                push_char(&mut out, d1);
                let d2 = hex_up_digit(b % 16);
                push_char(&mut out, d2);
                proof {
                    assert(out@ =~= inner_before + seq![
                        '%',
                        hex_up(bs@[k as int] as int / 16),
                        hex_up(bs@[k as int] as int % 16),
                    ]);
                    assert(pct_upto(bs@, k + 1) == pct_upto(bs@, k as int) + seq![
                        '%',
                        hex_up(bs@[k as int] as int / 16),
                        hex_up(bs@[k as int] as int % 16),
                    ]);
                    assert(out@ =~= before + pct_upto(bs@, k + 1));
                }
                k = k + 1;
            }
            proof {
                assert(out@ =~= before + enc_char(c));
            }
        }
        proof {
            assert(enc_upto(s@, i + 1) == enc_upto(s@, i as int) + enc_char(s@[i as int]));
            assert(out@ =~= enc_upto(s@, i + 1));
        }
        i = i + 1;
    }
    out
}

/// What came of the one outbound fetch a route makes. The fetch itself is
/// done outside the library; only its outcome is handed in.
pub enum FetchOutcome {
    /// The upstream answered with a success status; the body is its text.
    Success(String),
    /// The upstream answered with the given non-success status.
    HttpFailure(u16),
    /// The request itself failed: resolution, connection or timeout.
    Transport,
}

/// A route's reply: the HTTP status to answer with, and the body.
pub struct RouteReply {
    pub status: u16,
    pub body: String,
}

/// The body answered when the upstream's status was not a success.
pub open spec fn fallback_body() -> Seq<char> {
    "Something went wrong!"@
}

/// The body answered when the page's markup did not extract.
pub open spec fn extract_failed_body() -> Seq<char> {
    "{\"error\":\"upstream format changed\"}"@
}

/// The body answered when the fetch itself failed.
pub open spec fn fetch_failed_body() -> Seq<char> {
    "{\"error\":\"upstream fetch failed\"}"@
}

/// The fixed informational string of the info route.
pub fn info() -> (r: String)
    ensures
        r@ == "This is definitely a string with important info"@,
{
    String::from_str("This is definitely a string with important info")
}

/// The fixed body of the status route.
pub fn get_status() -> (r: String)
    ensures
        r@ == "{\"status\":\"UP\"}"@,
{
    String::from_str("{\"status\":\"UP\"}")
}

/// The search URL for a title keyword: the fixed base with the encoded
/// keyword appended.
pub fn search_url(name: &str) -> (r: String)
    ensures
        r@ == "https://zoro.to/search?keyword="@ + query_encode(name@),
{
    let mut out = String::from_str("https://zoro.to/search?keyword=");
    let e = url_encode(name);
    out.append(e.as_str());
    out
}

/// The detail URL for a title's identifier.
pub fn detail_url(anime_id: &str) -> (r: String)
    ensures
        r@ == "https://zoro.to/"@ + query_encode(anime_id@) + "?ref=search"@,
{
    let mut out = String::from_str("https://zoro.to/");
    let e = url_encode(anime_id);
    out.append(e.as_str());
    out.append("?ref=search");
    proof {
        assert(out@ =~= "https://zoro.to/"@ + query_encode(anime_id@) + "?ref=search"@);
    }
    out
}

/// The search route's reply for a fetch's outcome: on a success status the
/// page is extracted and answered as JSON, or reported as an upstream format
/// failure; a non-success status keeps its code with the fixed fallback
/// body; a failed fetch is a bad-gateway reply.
pub fn search_route(outcome: FetchOutcome) -> (r: RouteReply)
    ensures
        outcome matches FetchOutcome::Success(b) ==> ({
            &&& search_ok(b@) ==> r.status == 200 && r.body@ == search_json(search_ids(b@))
            &&& !search_ok(b@) ==> r.status == 502 && r.body@ == extract_failed_body()
        }),
        outcome matches FetchOutcome::HttpFailure(s) ==> r.status == s && r.body@
            == fallback_body(),
        outcome is Transport ==> r.status == 502 && r.body@ == fetch_failed_body(),
{
    match outcome {
        FetchOutcome::Success(body) => match search_extract(body.as_str()) {
            Ok(sr) => RouteReply { status: 200, body: search_to_json(&sr) },
            Err(_) => RouteReply {
                status: 502,
                body: String::from_str("{\"error\":\"upstream format changed\"}"),
            },
        },
        FetchOutcome::HttpFailure(s) => RouteReply {
            status: s,
            body: String::from_str("Something went wrong!"),
        },
        FetchOutcome::Transport => RouteReply {
            status: 502,
            body: String::from_str("{\"error\":\"upstream fetch failed\"}"),
        },
    }
}

/// The detail route's reply for a fetch's outcome, under the same branching
/// as the search route.
pub fn detail_route(outcome: FetchOutcome) -> (r: RouteReply)
    ensures
        outcome matches FetchOutcome::Success(b) ==> ({
            &&& detail_ok(b@) ==> r.status == 200 && r.body@ == detail_json(
                spec_detail_name(b@),
                spec_detail_synopsis(b@),
                spec_detail_poster(b@),
            )
            &&& !detail_ok(b@) ==> r.status == 502 && r.body@ == extract_failed_body()
        }),
        outcome matches FetchOutcome::HttpFailure(s) ==> r.status == s && r.body@
            == fallback_body(),
        outcome is Transport ==> r.status == 502 && r.body@ == fetch_failed_body(),
{
    match outcome {
        FetchOutcome::Success(body) => match detail_extract(body.as_str()) {
            Ok(d) => RouteReply { status: 200, body: detail_to_json(&d) },
            Err(_) => RouteReply {
                status: 502,
                body: String::from_str("{\"error\":\"upstream format changed\"}"),
            },
        },
        FetchOutcome::HttpFailure(s) => RouteReply {
            status: s,
            body: String::from_str("Something went wrong!"),
        },
        FetchOutcome::Transport => RouteReply {
            status: 502,
            body: String::from_str("{\"error\":\"upstream fetch failed\"}"),
        },
    }
}

} // verus!
