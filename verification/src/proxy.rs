//! Decisions made by the processing-stages proxy.

use vstd::prelude::*;
use vstd::string::*;
use crate::text::str_equals;

verus! {

/// The header names that the outbound HTTP client sets by itself.
pub open spec fn is_client_added_header(name: Seq<char>) -> bool {
    name == "host"@ || name == "content-length"@ || name == "accept-encoding"@ || name == "date"@
}

/// Whether the outbound client adds the header named `hn` on its own, so that
/// the proxy must not copy it from the incoming request.
pub fn client_added_header(hn: &str) -> (b: bool)
    ensures
        b == is_client_added_header(hn@),
        b <==> (hn@ == "host"@ || hn@ == "content-length"@ || hn@ == "accept-encoding"@ || hn@
            == "date"@),
{
    str_equals(hn, "host") || str_equals(hn, "content-length") || str_equals(hn, "accept-encoding")
        || str_equals(hn, "date")
}

/// The headers of an incoming request that the proxy copies onto its
/// outbound request: all but those the client sets itself, in order.
pub open spec fn forwarded_headers<V>(headers: Seq<(String, V)>) -> Seq<(String, V)>
    decreases headers.len(),
{
    if headers.len() == 0 {
        Seq::empty()
    } else {
        forwarded_headers(headers.drop_last()) + if is_client_added_header(headers.last().0@) {
            Seq::empty()
        } else {
            seq![headers.last()]
        }
    }
}

/// Keeps the headers that the proxy copies onto its outbound request.
pub fn headers_to_forward<V>(headers: Vec<(String, V)>) -> (r: Vec<(String, V)>)
    ensures
        r@ == forwarded_headers(headers@),
        r@ == headers@.filter(|h: (String, V)| !withheld_header_names().contains(h.0@)),
{
    let ghost all = headers@;
    let n = headers.len();
    let mut rest = headers;
    let mut kept: Vec<(String, V)> = Vec::new();
    let mut taken: Vec<(String, V)> = Vec::new();
    // `rest` is consumed from its end, so the headers are gathered in reverse.
    while rest.len() > 0
        invariant
            all == rest@ + taken@.reverse(),
        decreases rest@.len(),
    {
        let h = rest.pop().unwrap();
        taken.push(h);
        assert(all =~= rest@ + taken@.reverse());
    }
    assert(taken@.reverse() =~= all);
    let ghost order = all;
    let mut i: usize = 0;
    while taken.len() > 0
        invariant
            i <= order.len(),
            order.len() == n,
            taken@.len() + i == order.len(),
            taken@.reverse() == order.subrange(i as int, order.len() as int),
            kept@ == forwarded_headers(order.take(i as int)),
        decreases taken@.len(),
    {
        let ghost before = taken@;
        let h = taken.pop().unwrap();
        assert(before.reverse()[0] == before.last());
        assert(h == order[i as int]);
        assert(order.take(i + 1).drop_last() =~= order.take(i as int));
        assert(order.take(i + 1).last() == h);
        assert(taken@.reverse() =~= before.reverse().drop_first());
        assert(taken@.reverse() =~= order.subrange(i + 1, order.len() as int));
        if !client_added_header(h.0.as_str()) {
            kept.push(h);
        }
        assert(kept@ =~= forwarded_headers(order.take(i + 1)));
        i = i + 1;
    }
    assert(order.take(order.len() as int) =~= order);
    proof {
        lemma_withheld_headers_are_four(Seq::empty(), all);
    }
    kept
}

/// The proxy copies no header that the client sets itself, and copies every
/// other header, keeping their order.
pub proof fn lemma_forwarded_headers_exact<V>(headers: Seq<(String, V)>)
    ensures
        forall|i: int|
            0 <= i < forwarded_headers(headers).len() ==> !is_client_added_header(
                #[trigger] forwarded_headers(headers)[i].0@,
            ),
        forwarded_headers(headers) == headers.filter(
            |h: (String, V)| !is_client_added_header(h.0@),
        ),
    decreases headers.len(),
{
    reveal_with_fuel(Seq::filter, 1);
    if headers.len() > 0 {
        lemma_forwarded_headers_exact(headers.drop_last());
        let f = |h: (String, V)| !is_client_added_header(h.0@);
        assert(headers.drop_last().filter(f) == forwarded_headers(headers.drop_last()));
    } else {
        assert(headers.filter(|h: (String, V)| !is_client_added_header(h.0@)) =~= Seq::empty());
    }
}

/// The names of the headers that the proxy never copies.
pub open spec fn withheld_header_names() -> Set<Seq<char>> {
    set!["host"@, "content-length"@, "accept-encoding"@, "date"@]
}

/// The proxy withholds exactly the headers `host`, `content-length`,
/// `accept-encoding` and `date`: a header is left out if and only if its
/// name is one of these four, every other header (such as `user-agent`) is
/// copied, in order, and a request that carries none of the four has all its
/// headers copied unchanged.
pub proof fn lemma_withheld_headers_are_four<V>(name: Seq<char>, headers: Seq<(String, V)>)
    ensures
        is_client_added_header(name) <==> withheld_header_names().contains(name),
        forwarded_headers(headers) == headers.filter(
            |h: (String, V)| !withheld_header_names().contains(h.0@),
        ),
        (forall|i: int|
            0 <= i < headers.len() ==> !withheld_header_names().contains(#[trigger] headers[i].0@))
            ==> forwarded_headers(headers) == headers,
{
    assert forall|n: Seq<char>| is_client_added_header(n) <==> withheld_header_names().contains(
        n,
    ) by {}
    lemma_forwarded_headers_exact(headers);
    let f = |h: (String, V)| !is_client_added_header(h.0@);
    let g = |h: (String, V)| !withheld_header_names().contains(h.0@);
    assert(f =~= g);
    if forall|i: int|
        0 <= i < headers.len() ==> !withheld_header_names().contains(#[trigger] headers[i].0@) {
        lemma_all_forwarded(headers);
    }
}

proof fn lemma_all_forwarded<V>(headers: Seq<(String, V)>)
    requires
        forall|i: int| 0 <= i < headers.len() ==> !is_client_added_header(#[trigger] headers[i].0@),
    ensures
        forwarded_headers(headers) == headers,
    decreases headers.len(),
{
    if headers.len() > 0 {
        assert forall|i: int| 0 <= i < headers.drop_last().len() implies !is_client_added_header(
            #[trigger] headers.drop_last()[i].0@,
        ) by {
            assert(headers.drop_last()[i] == headers[i]);
        }
        lemma_all_forwarded(headers.drop_last());
        assert(!is_client_added_header(headers[headers.len() - 1].0@));
        assert(headers.drop_last() + seq![headers.last()] =~= headers);
    }
}

/// Where the proxy sends a request: to the URI written in the query string
/// when there is one, else to the request's own URI.
#[derive(Debug, Clone, Copy, PartialEq, Eq, Structural)]
pub enum ProxyTarget {
    QueryUri,
    RequestUri,
}

/// Chooses where the proxy sends a request with the query string `query`.
pub fn proxy_target(query: &str) -> (t: ProxyTarget)
    ensures
        t == (if query@.len() == 0 {
            ProxyTarget::RequestUri
        } else {
            ProxyTarget::QueryUri
        }),
{
    if !query.is_empty() {
        ProxyTarget::QueryUri
    } else {
        ProxyTarget::RequestUri
    }
}

/// The parts from which the processing-stages interpreter's URI is rebuilt.
#[derive(Debug, Clone)]
pub struct UriParts {
    pub scheme: String,
    pub path_and_query: String,
    pub authority: String,
}

/// The parts of a request's URI, where a missing scheme is `https`, a
/// missing path and query is empty, and a missing authority is `127.0.0.1`.
pub fn uri_parts_or_defaults(
    scheme: Option<&str>,
    path_and_query: Option<&str>,
    authority: Option<&str>,
) -> (r: UriParts)
    ensures
        r.scheme@ == match scheme {
            Some(s) => s@,
            None => "https"@,
        },
        r.path_and_query@ == match path_and_query {
            Some(p) => p@,
            None => ""@,
        },
        r.authority@ == match authority {
            Some(a) => a@,
            None => "127.0.0.1"@,
        },
{
    UriParts {
        scheme: match scheme {
            Some(s) => s.to_owned(),
            None => "https".to_owned(),
        },
        path_and_query: match path_and_query {
            Some(p) => p.to_owned(),
            None => "".to_owned(),
        },
        authority: match authority {
            Some(a) => a.to_owned(),
            None => "127.0.0.1".to_owned(),
        },
    }
}

/// Why the processing-stages interpreter could not change a request or a
/// response.
#[derive(Debug, Clone, Copy, PartialEq, Eq, Structural)]
pub enum StageEditError {
    /// The new value is not valid.
    BadValue,
    /// The change does not apply to a request (or to a response).
    InvalidMode,
}

/// The HTTP status code type of actix-web (that of the `http` crate), carried
/// as an opaque value.
#[verifier::external_type_specification]
#[verifier::external_body]
pub struct ExStatusCode(actix_web::http::StatusCode);

/// What `StatusCode::from_u16` returns for a code that it accepts.
pub uninterp spec fn status_code_of(code: u16) -> actix_web::http::StatusCode;

/// Calls `http::StatusCode::from_u16`. Claimed: it accepts exactly the codes
/// from 100 to 999, and the status it returns depends on the code alone (the
/// name `status_code_of`); its error, which carries nothing, becomes `None`.
#[verifier::external_body]
fn status_from_u16(code: u16) -> (r: Option<actix_web::http::StatusCode>)
    ensures
        r is Some <==> 100 <= code < 1000,
        r matches Some(s) ==> s == status_code_of(code),
{
    actix_web::http::StatusCode::from_u16(code).ok()
}

/// The status that a response is given when the interpreter sets it to
/// `code`; a code outside 100 to 999 is a bad value.
pub fn response_status(code: u16) -> (r: Result<actix_web::http::StatusCode, StageEditError>)
    ensures
        100 <= code < 1000 ==> r == Ok::<actix_web::http::StatusCode, StageEditError>(
            status_code_of(code),
        ),
        !(100 <= code < 1000) ==> r == Err::<actix_web::http::StatusCode, StageEditError>(
            StageEditError::BadValue,
        ),
{
    match status_from_u16(code) {
        Some(s) => Ok(s),
        None => Err(StageEditError::BadValue),
    }
}

} // verus!
