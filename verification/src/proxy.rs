//! Decisions of the forwarding path: which headers pass the proxy in either
//! direction, how the header map is logged, and which response bytes are
//! logged (gzip bodies are logged decompressed), and how a body is put into
//! the log (as JSON where it parses, else as text).
use vstd::prelude::*;
use crate::text::{has_substring, to_chars, contains_chars};

verus! {

/// `c` with ASCII upper-case letters folded to lower case, as a code point.
pub open spec fn ascii_fold(c: char) -> u32 {
    if 'A' <= c && c <= 'Z' {
        (c as u32 + 32) as u32
    } else {
        c as u32
    }
}

/// The two strings are equal when ASCII letters are compared without regard
/// to case (`str::eq_ignore_ascii_case`).
pub open spec fn same_ignoring_ascii_case(a: Seq<char>, b: Seq<char>) -> bool {
    a.len() == b.len() && forall|i: int| 0 <= i < a.len() ==> ascii_fold(#[trigger] a[i])
        == ascii_fold(b[i])
}

fn fold_char(c: char) -> (r: u32)
    ensures
        r == ascii_fold(c),
{
    if 'A' <= c && c <= 'Z' {
        (c as u32) + 32
    } else {
        c as u32
    }
}

/// Whether the strings are equal ignoring the case of ASCII letters.
pub fn eq_ignore_ascii_case(a: &str, b: &str) -> (r: bool)
    ensures
        r == same_ignoring_ascii_case(a@, b@),
{
    let va = to_chars(a);
    let vb = to_chars(b);
    if va.len() != vb.len() {
        return false;
    }
    let mut i: usize = 0;
    while i < va.len()
        invariant
            va@ == a@,
            vb@ == b@,
            va@.len() == vb@.len(),
            0 <= i <= va@.len(),
            forall|j: int| 0 <= j < i ==> ascii_fold(#[trigger] va@[j]) == ascii_fold(vb@[j]),
        decreases va@.len() - i,
    {
        if fold_char(va[i]) != fold_char(vb[i]) {
            return false;
        }
        i = i + 1;
    }
    true
}

/// The hop-by-hop headers, which concern one connection and are not passed on.
pub open spec fn hop_by_hop_names() -> Seq<Seq<char>> {
    seq![
        "connection"@,
        "keep-alive"@,
        "proxy-authenticate"@,
        "proxy-authorization"@,
        "proxy-connection"@,
        "te"@,
        "trailer"@,
        "transfer-encoding"@,
        "upgrade"@,
    ]
}

/// `name` is one of the hop-by-hop headers, in any ASCII case.
pub open spec fn is_hop_by_hop_spec(name: Seq<char>) -> bool {
    exists|i: int|
        0 <= i < hop_by_hop_names().len() && same_ignoring_ascii_case(
            #[trigger] hop_by_hop_names()[i],
            name,
        )
}

/// Whether `name` is a hop-by-hop header.
pub fn is_hop_by_hop(name: &str) -> (r: bool)
    ensures
        r == is_hop_by_hop_spec(name@),
{
    let r = eq_ignore_ascii_case("connection", name) || eq_ignore_ascii_case("keep-alive", name)
        || eq_ignore_ascii_case("proxy-authenticate", name) || eq_ignore_ascii_case(
        "proxy-authorization",
        name,
    ) || eq_ignore_ascii_case("proxy-connection", name) || eq_ignore_ascii_case("te", name)
        || eq_ignore_ascii_case("trailer", name) || eq_ignore_ascii_case(
        "transfer-encoding",
        name,
    ) || eq_ignore_ascii_case("upgrade", name);
    proof {
        let ghost hops = hop_by_hop_names();
        assert(hops[0] == "connection"@);
        assert(hops[1] == "keep-alive"@);
        assert(hops[2] == "proxy-authenticate"@);
        assert(hops[3] == "proxy-authorization"@);
        assert(hops[4] == "proxy-connection"@);
        assert(hops[5] == "te"@);
        assert(hops[6] == "trailer"@);
        assert(hops[7] == "transfer-encoding"@);
        assert(hops[8] == "upgrade"@);
        if is_hop_by_hop_spec(name@) {
            let i = choose|i: int|
                0 <= i < hop_by_hop_names().len() && same_ignoring_ascii_case(
                    #[trigger] hop_by_hop_names()[i],
                    name@,
                );
            assert(r);
        }
        if r {
            if same_ignoring_ascii_case("connection"@, name@) {
                assert(same_ignoring_ascii_case(hops[0], name@));
            } else if same_ignoring_ascii_case("keep-alive"@, name@) {
                assert(same_ignoring_ascii_case(hops[1], name@));
            } else if same_ignoring_ascii_case("proxy-authenticate"@, name@) {
                assert(same_ignoring_ascii_case(hops[2], name@));
            } else if same_ignoring_ascii_case("proxy-authorization"@, name@) {
                assert(same_ignoring_ascii_case(hops[3], name@));
            } else if same_ignoring_ascii_case("proxy-connection"@, name@) {
                assert(same_ignoring_ascii_case(hops[4], name@));
            } else if same_ignoring_ascii_case("te"@, name@) {
                assert(same_ignoring_ascii_case(hops[5], name@));
            } else if same_ignoring_ascii_case("trailer"@, name@) {
                assert(same_ignoring_ascii_case(hops[6], name@));
            } else if same_ignoring_ascii_case("transfer-encoding"@, name@) {
                assert(same_ignoring_ascii_case(hops[7], name@));
            } else {
                assert(same_ignoring_ascii_case(hops[8], name@));
            }
        }
    }
    r
}

/// A request header passes upstream unless it is `host`, `content-length`
/// or hop-by-hop (names compared without regard to ASCII case).
pub open spec fn forwards_request_header(name: Seq<char>) -> bool {
    !same_ignoring_ascii_case(name, "host"@) && !same_ignoring_ascii_case(name, "content-length"@)
        && !is_hop_by_hop_spec(name)
}

/// A response header passes back to the client unless it is
/// `content-length` or hop-by-hop.
pub open spec fn forwards_response_header(name: Seq<char>) -> bool {
    !same_ignoring_ascii_case(name, "content-length"@) && !is_hop_by_hop_spec(name)
}

/// Whether a request header named `name` is forwarded upstream.
pub fn forward_request_header(name: &str) -> (r: bool)
    ensures
        r == forwards_request_header(name@),
{
    !eq_ignore_ascii_case(name, "host") && !eq_ignore_ascii_case(name, "content-length")
        && !is_hop_by_hop(name)
}

/// Whether a response header named `name` is passed back to the client.
pub fn forward_response_header(name: &str) -> (r: bool)
    ensures
        r == forwards_response_header(name@),
{
    !eq_ignore_ascii_case(name, "content-length") && !is_hop_by_hop(name)
}

/// No hop-by-hop header passes the proxy in either direction.
pub proof fn hop_by_hop_headers_stop_at_proxy(name: Seq<char>)
    requires
        is_hop_by_hop_spec(name),
    ensures
        !forwards_request_header(name),
        !forwards_response_header(name),
{
}

/// The client gets every response header except `content-length` and the
/// hop-by-hop headers (names compared without regard to ASCII case), and
/// upstream the proxy passes exactly the same headers except `host`.
pub proof fn response_headers_pass_unless_excluded(name: Seq<char>)
    ensures
        forwards_response_header(name) <==> (!same_ignoring_ascii_case(name, "content-length"@) && !same_ignoring_ascii_case(name, "connection"@) && !same_ignoring_ascii_case(name, "keep-alive"@) && !same_ignoring_ascii_case(name, "proxy-authenticate"@) && !same_ignoring_ascii_case(name, "proxy-authorization"@) && !same_ignoring_ascii_case(name, "proxy-connection"@) && !same_ignoring_ascii_case(name, "te"@) && !same_ignoring_ascii_case(name, "trailer"@) && !same_ignoring_ascii_case(name, "transfer-encoding"@) && !same_ignoring_ascii_case(name, "upgrade"@)),
        forwards_request_header(name) <==> (forwards_response_header(name)
            && !same_ignoring_ascii_case(name, "host"@)),
{
    let hops = hop_by_hop_names();
    assert(hops[0] == "connection"@);
    assert(hops[1] == "keep-alive"@);
    assert(hops[2] == "proxy-authenticate"@);
    assert(hops[3] == "proxy-authorization"@);
    assert(hops[4] == "proxy-connection"@);
    assert(hops[5] == "te"@);
    assert(hops[6] == "trailer"@);
    assert(hops[7] == "transfer-encoding"@);
    assert(hops[8] == "upgrade"@);
    if is_hop_by_hop_spec(name) {
        let i = choose|i: int|
            0 <= i < hop_by_hop_names().len() && same_ignoring_ascii_case(
                #[trigger] hop_by_hop_names()[i],
                name,
            );
        lemma_same_ignoring_symmetric(hops[i], name);
    }
    if same_ignoring_ascii_case(name, "connection"@) {
        lemma_same_ignoring_symmetric(name, "connection"@);
        assert(same_ignoring_ascii_case(hops[0], name));
    }
    if same_ignoring_ascii_case(name, "keep-alive"@) {
        lemma_same_ignoring_symmetric(name, "keep-alive"@);
        assert(same_ignoring_ascii_case(hops[1], name));
    }
    if same_ignoring_ascii_case(name, "proxy-authenticate"@) {
        lemma_same_ignoring_symmetric(name, "proxy-authenticate"@);
        assert(same_ignoring_ascii_case(hops[2], name));
    }
    if same_ignoring_ascii_case(name, "proxy-authorization"@) {
        lemma_same_ignoring_symmetric(name, "proxy-authorization"@);
        assert(same_ignoring_ascii_case(hops[3], name));
    }
    if same_ignoring_ascii_case(name, "proxy-connection"@) {
        lemma_same_ignoring_symmetric(name, "proxy-connection"@);
        assert(same_ignoring_ascii_case(hops[4], name));
    }
    if same_ignoring_ascii_case(name, "te"@) {
        lemma_same_ignoring_symmetric(name, "te"@);
        assert(same_ignoring_ascii_case(hops[5], name));
    }
    if same_ignoring_ascii_case(name, "trailer"@) {
        lemma_same_ignoring_symmetric(name, "trailer"@);
        assert(same_ignoring_ascii_case(hops[6], name));
    }
    if same_ignoring_ascii_case(name, "transfer-encoding"@) {
        lemma_same_ignoring_symmetric(name, "transfer-encoding"@);
        assert(same_ignoring_ascii_case(hops[7], name));
    }
    if same_ignoring_ascii_case(name, "upgrade"@) {
        lemma_same_ignoring_symmetric(name, "upgrade"@);
        assert(same_ignoring_ascii_case(hops[8], name));
    }
}

/// Comparing without regard to ASCII case is symmetric.
proof fn lemma_same_ignoring_symmetric(a: Seq<char>, b: Seq<char>)
    requires
        same_ignoring_ascii_case(a, b),
    ensures
        same_ignoring_ascii_case(b, a),
{
    assert forall|i: int| 0 <= i < b.len() implies ascii_fold(#[trigger] b[i]) == ascii_fold(a[i]) by {
        assert(ascii_fold(a[i]) == ascii_fold(b[i]));
    }
}

/// The client's `Authorization` header is passed upstream as received: the
/// proxy forwards credentials, it does not hold them back.
pub proof fn authorization_is_forwarded()
    ensures
        forwards_request_header("authorization"@),
        forwards_request_header("Authorization"@),
{
    reveal_strlit("authorization");
    reveal_strlit("Authorization");
    reveal_strlit("host");
    reveal_strlit("content-length");
    reveal_strlit("connection");
    reveal_strlit("keep-alive");
    reveal_strlit("proxy-authenticate");
    reveal_strlit("proxy-authorization");
    reveal_strlit("proxy-connection");
    reveal_strlit("te");
    reveal_strlit("trailer");
    reveal_strlit("transfer-encoding");
    reveal_strlit("upgrade");
    assert forall|i: int| 0 <= i < hop_by_hop_names().len() implies (#[trigger] hop_by_hop_names()[i]).len()
        != 13 by {
    }
}

/// The response body is gzip-encoded when its `Content-Encoding` value is
/// readable text that contains `gzip`.
pub open spec fn is_gzip_spec(content_encoding: Option<Seq<char>>) -> bool {
    match content_encoding {
        Some(ce) => has_substring(ce, "gzip"@),
        None => false,
    }
}

/// Whether the response body is gzip-encoded, given the text of its
/// `Content-Encoding` header (`None` when absent or not readable text).
pub fn is_gzip_encoded(content_encoding: Option<&str>) -> (r: bool)
    ensures
        r == is_gzip_spec(
            match content_encoding {
                Some(s) => Some(s@),
                None => None,
            },
        ),
{
    match content_encoding {
        Some(ce) => {
            let v = to_chars(ce);
            let g = to_chars("gzip");
            contains_chars(&v, &g)
        },
        None => false,
    }
}

/// What decompressing `bytes` as a gzip stream gives, or `None` where the
/// stream is not valid gzip.
pub uninterp spec fn gunzipped(bytes: Seq<u8>) -> Option<Seq<u8>>;

/// Calls `flate2::read::GzDecoder::new` over the bytes and reads the decoder
/// to its end; the outcome is named `gunzipped`. A read that fails yields
/// `None`, and whatever it had decoded is dropped.
#[verifier::external_body]
fn gunzip(bytes: &[u8]) -> (r: Option<Vec<u8>>)
    ensures
        r is None <==> gunzipped(bytes@) is None,
        r matches Some(d) ==> gunzipped(bytes@) == Some(d@),
{
    let mut out: Vec<u8> = Vec::new();
    let mut decoder = flate2::read::GzDecoder::new(std::io::Cursor::new(bytes));
    match std::io::Read::read_to_end(&mut decoder, &mut out) {
        Ok(_) => Some(out),
        Err(_) => None,
    }
}

/// The bytes of a response that go into the log: gzip bodies decompressed
/// where that succeeds, all other bodies as received.
pub open spec fn logged_body_spec(body: Seq<u8>, gzip: bool) -> Seq<u8> {
    if gzip {
        match gunzipped(body) {
            Some(d) => d,
            None => body,
        }
    } else {
        body
    }
}

/// The response bytes to log.
pub fn logged_body(body: &Vec<u8>, gzip: bool) -> (r: Vec<u8>)
    ensures
        r@ == logged_body_spec(body@, gzip),
{
    if gzip {
        match gunzip(body.as_slice()) {
            Some(d) => d,
            None => body.clone(),
        }
    } else {
        body.clone()
    }
}

#[verifier::external_type_specification]
#[verifier::external_body]
pub struct ExJsonValue(serde_json::Value);

/// The JSON value that `serde_json::from_slice` reads from `bytes`, or
/// `None` where the bytes are not one JSON value.
pub uninterp spec fn json_of(bytes: Seq<u8>) -> Option<serde_json::Value>;

/// Calls `serde_json::from_slice` for a `serde_json::Value`. Its outcome,
/// the parsed value or none, is named `json_of`; which byte strings parse
/// and what the value holds are not stated.
#[verifier::external_body]
fn parse_json(bytes: &[u8]) -> (r: Option<serde_json::Value>)
    ensures
        r == json_of(bytes@),
{
    serde_json::from_slice(bytes).ok()
}

/// The text `String::from_utf8_lossy` makes of `bytes`: each invalid UTF-8
/// sequence replaced by U+FFFD.
pub uninterp spec fn lossy_text(bytes: Seq<u8>) -> Seq<char>;

/// Calls `String::from_utf8_lossy` and takes the result as an owned string.
/// Its text is named `lossy_text`; for valid UTF-8 it is the decoded text,
/// as the documentation of `from_utf8_lossy` says.
#[verifier::external_body]
fn utf8_lossy(bytes: &[u8]) -> (r: String)
    ensures
        r@ == lossy_text(bytes@),
        vstd::utf8::valid_utf8(bytes@) ==> r@ == vstd::utf8::decode_utf8(bytes@),
{
    String::from_utf8_lossy(bytes).into_owned()
}

/// A body as it goes into the log.
pub enum LoggedBody {
    /// The body parsed as JSON.
    Json(serde_json::Value),
    /// The body did not parse as JSON: its text, invalid UTF-8 replaced.
    Text(String),
}

/// A body for the log: its JSON value where the bytes parse as JSON, else
/// its text.
pub fn body_for_log(bytes: &[u8]) -> (r: LoggedBody)
    ensures
        r is Json <==> json_of(bytes@) is Some,
        r matches LoggedBody::Json(v) ==> json_of(bytes@) == Some(v),
        r matches LoggedBody::Text(t) ==> t@ == lossy_text(bytes@),
        r matches LoggedBody::Text(t) ==> (vstd::utf8::valid_utf8(bytes@) ==> t@
            == vstd::utf8::decode_utf8(bytes@)),
{
    match parse_json(bytes) {
        Some(v) => LoggedBody::Json(v),
        None => LoggedBody::Text(utf8_lossy(bytes)),
    }
}

} // verus!
