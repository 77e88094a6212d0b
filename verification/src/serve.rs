//! What the MEL evaluation server makes of a request: the types and values
//! of the `req` variable that expressions see, and the reply to an evaluation.

use vstd::prelude::*;
use vstd::string::*;
use vstd::utf8::is_ascii_chars;

verus! {

/// `c`, with `-` replaced by `_`.
pub open spec fn underscore_for_dash(c: char) -> char {
    if c == '-' {
        '_'
    } else {
        c
    }
}

/// What `str::to_lowercase` returns for a text.
pub uninterp spec fn lowercase(s: Seq<char>) -> Seq<char>;

/// `c` in lower case, for an ASCII letter; any other character unchanged.
pub open spec fn ascii_lowercase(c: char) -> char {
    if 'A' <= c && c <= 'Z' {
        ((c as u32) + 32) as char
    } else {
        c
    }
}

/// Calls `str::to_lowercase`. Claimed: what it returns depends on the text
/// alone (the name `lowercase`), and an ASCII text comes back with each
/// letter `A`..`Z` in lower case and every other character unchanged (the
/// Unicode lower case of an ASCII character); the mapping of other
/// characters is left unstated.
#[verifier::external_body]
fn to_lowercase(s: &str) -> (r: String)
    ensures
        r@ == lowercase(s@),
        is_ascii_chars(s@) ==> r@ == s@.map_values(|c: char| ascii_lowercase(c)),
{
    s.to_lowercase()
}

/// The name under which MEL expressions see a header: the header's name with
/// `-` replaced by `_`, in lower case.
pub open spec fn field_name_of_header(header: Seq<char>) -> Seq<char> {
    lowercase(header.map_values(|c: char| underscore_for_dash(c)))
}

/// `header.replace("-", "_").to_lowercase()`.
pub fn mel_field_name(header: &str) -> (r: String)
    ensures
        r@ == field_name_of_header(header@),
        is_ascii_chars(header@) ==> r@ == header@.map_values(
            |c: char| ascii_lowercase(underscore_for_dash(c)),
        ),
{
    let n = header.unicode_len();
    let mut replaced = String::new();
    let mut i: usize = 0;
    while i < n
        invariant
            n == header@.len(),
            i <= n,
            replaced@ == header@.take(i as int).map_values(|c: char| underscore_for_dash(c)),
        decreases n - i,
    {
        let c = header.get_char(i);
        if c == '-' {
            replaced.append("_");
        } else {
            replaced.append(header.substring_char(i, i + 1));
        }
        proof {
            reveal_strlit("_");
        }
        assert(replaced@ =~= header@.take(i + 1).map_values(|c: char| underscore_for_dash(c)));
        i = i + 1;
    }
    assert(header@.take(n as int) =~= header@);
    let r = to_lowercase(replaced.as_str());
    proof {
        if is_ascii_chars(header@) {
            assert(is_ascii_chars(replaced@)) by {
                assert forall|i: int| 0 <= i < replaced@.len() implies #[trigger] replaced@[i]
                    as u32 <= 0x7f by {
                    assert(header@[i] as u32 <= 0x7f);
                }
            }
            assert(r@ =~= header@.map_values(|c: char| ascii_lowercase(underscore_for_dash(c))));
        }
    }
    r
}

/// The kinds of the fields of the request variable.
#[derive(Debug, Clone, PartialEq, Eq)]
pub enum MelFieldKind {
    Text,
    Integer,
    IpAddress,
    /// A field that holds the record type with this name.
    Record(String),
}

/// The kind of a field, as contracts speak of it.
pub enum FieldKind {
    Text,
    Integer,
    IpAddress,
    Record(Seq<char>),
}

impl View for MelFieldKind {
    type V = FieldKind;

    open spec fn view(&self) -> FieldKind {
        match self {
            MelFieldKind::Text => FieldKind::Text,
            MelFieldKind::Integer => FieldKind::Integer,
            MelFieldKind::IpAddress => FieldKind::IpAddress,
            MelFieldKind::Record(n) => FieldKind::Record(n@),
        }
    }
}

/// A field of a record type.
#[derive(Debug, Clone)]
pub struct MelFieldDecl {
    pub name: String,
    pub kind: MelFieldKind,
}

/// A record type: its name and its fields, in the order they are declared.
#[derive(Debug, Clone)]
pub struct MelStructDecl {
    pub name: String,
    pub fields: Vec<MelFieldDecl>,
}

/// The fields of a record type, as (name, kind) pairs.
pub open spec fn decl_fields(d: MelStructDecl) -> Seq<(Seq<char>, FieldKind)> {
    d.fields@.map_values(|f: MelFieldDecl| (f.name@, f.kind@))
}

fn field(name: &str, kind: MelFieldKind) -> (f: MelFieldDecl)
    ensures
        f.name@ == name@,
        f.kind == kind,
{
    MelFieldDecl { name: name.to_owned(), kind }
}

/// A header of a request: its name, and its value when that is text
/// (visible ASCII).
#[derive(Debug, Clone)]
pub struct RequestHeader {
    pub name: String,
    pub value: Option<String>,
}

/// The type `h` of the request's headers: one text field per header.
pub fn header_type_from_req(headers: &Vec<RequestHeader>) -> (d: MelStructDecl)
    ensures
        d.name@ == "h"@,
        d.fields@.len() == headers@.len(),
        forall|i: int|
            0 <= i < headers@.len() ==> #[trigger] d.fields@[i].name@ == field_name_of_header(
                headers@[i].name@,
            ) && d.fields@[i].kind == MelFieldKind::Text,
{
    let mut fields: Vec<MelFieldDecl> = Vec::new();
    let mut i: usize = 0;
    while i < headers.len()
        invariant
            i <= headers@.len(),
            fields@.len() == i,
            forall|j: int|
                0 <= j < i ==> #[trigger] fields@[j].name@ == field_name_of_header(
                    headers@[j].name@,
                ) && fields@[j].kind == MelFieldKind::Text,
        decreases headers@.len() - i,
    {
        let name = mel_field_name(headers[i].name.as_str());
        fields.push(MelFieldDecl { name, kind: MelFieldKind::Text });
        i = i + 1;
    }
    MelStructDecl { name: "h".to_owned(), fields }
}

/// The type `uri` of the request's URI: its path and its query.
pub fn uri_type() -> (d: MelStructDecl)
    ensures
        d.name@ == "uri"@,
        decl_fields(d) == seq![("path"@, FieldKind::Text), ("query"@, FieldKind::Text)],
{
    let mut fields: Vec<MelFieldDecl> = Vec::new();
    fields.push(field("path", MelFieldKind::Text));
    fields.push(field("query", MelFieldKind::Text));
    let d = MelStructDecl { name: "uri".to_owned(), fields };
    assert(decl_fields(d) =~= seq![("path"@, FieldKind::Text), ("query"@, FieldKind::Text)]);
    d
}

/// The fields of the type `req` of the request, given the names of its header
/// and URI types.
pub open spec fn req_fields(header_type: Seq<char>, uri_type: Seq<char>) -> Seq<
    (Seq<char>, FieldKind),
> {
    seq![
        ("h"@, FieldKind::Record(header_type)),
        ("uri"@, FieldKind::Record(uri_type)),
        ("method"@, FieldKind::Text),
        ("scheme"@, FieldKind::Text),
        ("clientip"@, FieldKind::IpAddress),
        ("clientport"@, FieldKind::Integer),
    ]
}

/// The type `req` of the request: its headers, its URI, its method and
/// scheme, and the client's address and port.
pub fn req_type(header_type: &MelStructDecl, uri_type: &MelStructDecl) -> (d: MelStructDecl)
    ensures
        d.name@ == "req"@,
        decl_fields(d) =~= req_fields(header_type.name@, uri_type.name@),
{
    let mut fields: Vec<MelFieldDecl> = Vec::new();
    fields.push(field("h", MelFieldKind::Record(header_type.name.clone())));
    fields.push(field("uri", MelFieldKind::Record(uri_type.name.clone())));
    fields.push(field("method", MelFieldKind::Text));
    fields.push(field("scheme", MelFieldKind::Text));
    fields.push(field("clientip", MelFieldKind::IpAddress));
    fields.push(field("clientport", MelFieldKind::Integer));
    let d = MelStructDecl { name: "req".to_owned(), fields };
    assert(decl_fields(d) =~= req_fields(header_type.name@, uri_type.name@));
    d
}

/// The values of the record `h`: for each header whose value is text, in
/// order, its field name and its value.
pub open spec fn header_value_fields(headers: Seq<RequestHeader>) -> Seq<(Seq<char>, Seq<char>)>
    decreases headers.len(),
{
    if headers.len() == 0 {
        Seq::empty()
    } else {
        let h = headers.last();
        header_value_fields(headers.drop_last()) + match h.value {
            Some(v) => seq![(field_name_of_header(h.name@), v@)],
            None => Seq::empty(),
        }
    }
}

/// The address of the client that sent a request, by its octets.
#[derive(Debug, Clone, Copy, PartialEq, Eq)]
pub enum ClientAddress {
    V4([u8; 4]),
    V6([u8; 16]),
}

/// The values that the request variable `req` holds.
#[derive(Debug, Clone)]
pub struct RequestValues {
    /// The fields of `h`: name and value.
    pub headers: Vec<(String, String)>,
    pub path: String,
    pub query: String,
    pub method: String,
    pub scheme: String,
    pub client_ip: ClientAddress,
    pub client_port: i64,
}

pub open spec fn pairs_view(v: Seq<(String, String)>) -> Seq<(Seq<char>, Seq<char>)> {
    v.map_values(|p: (String, String)| (p.0@, p.1@))
}

/// The values of the request variable `req`: a missing query is empty and a
/// missing scheme is `http`.
pub fn value_scope_from_req(
    headers: &Vec<RequestHeader>,
    path: &str,
    query: Option<&str>,
    method: &str,
    scheme: Option<&str>,
    client_ip: ClientAddress,
    client_port: u16,
) -> (r: RequestValues)
    ensures
        pairs_view(r.headers@) == header_value_fields(headers@),
        r.headers@.map_values(|p: (String, String)| p.1@) == headers@.filter(
            |h: RequestHeader| h.value is Some,
        ).map_values(|h: RequestHeader| h.value.unwrap()@),
        r.headers@.map_values(|p: (String, String)| p.0@) == headers@.filter(
            |h: RequestHeader| h.value is Some,
        ).map_values(|h: RequestHeader| field_name_of_header(h.name@)),
        r.path@ == path@,
        r.query@ == match query {
            Some(q) => q@,
            None => Seq::empty(),
        },
        r.method@ == method@,
        r.scheme@ == match scheme {
            Some(s) => s@,
            None => "http"@,
        },
        r.client_ip == client_ip,
        r.client_port == client_port as i64,
{
    let mut values: Vec<(String, String)> = Vec::new();
    let mut i: usize = 0;
    while i < headers.len()
        invariant
            i <= headers@.len(),
            pairs_view(values@) == header_value_fields(headers@.take(i as int)),
        decreases headers@.len() - i,
    {
        let ghost before = values@;
        assert(headers@.take(i + 1).drop_last() =~= headers@.take(i as int));
        match &headers[i].value {
            Some(v) => {
                let name = mel_field_name(headers[i].name.as_str());
                values.push((name, v.clone()));
                assert(pairs_view(values@) =~= pairs_view(before) + seq![
                    (field_name_of_header(headers@[i as int].name@), v@),
                ]);
            },
            None => {
                assert(pairs_view(values@) =~= pairs_view(before) + Seq::empty());
            },
        }
        i = i + 1;
    }
    assert(headers@.take(headers@.len() as int) =~= headers@);
    proof {
        lemma_header_values_verbatim(headers@);
        assert(values@.map_values(|p: (String, String)| p.1@) =~= pairs_view(values@).map_values(
            |q: (Seq<char>, Seq<char>)| q.1,
        ));
        assert(values@.map_values(|p: (String, String)| p.0@) =~= pairs_view(values@).map_values(
            |q: (Seq<char>, Seq<char>)| q.0,
        ));
    }
    let query = match query {
        Some(q) => q.to_owned(),
        None => String::new(),
    };
    let scheme = match scheme {
        Some(s) => s.to_owned(),
        None => "http".to_owned(),
    };
    RequestValues {
        headers: values,
        path: path.to_owned(),
        query,
        method: method.to_owned(),
        scheme,
        client_ip,
        client_port: client_port as i64,
    }
}

/// The values of `req.h` are the headers' text values, verbatim: taking the
/// headers that carry a text value, in order, the record holds for each one
/// the pair of its MEL field name and its value unchanged, character for
/// character; headers without a text value contribute nothing.
pub proof fn lemma_header_values_verbatim(headers: Seq<RequestHeader>)
    ensures
        header_value_fields(headers).map_values(|q: (Seq<char>, Seq<char>)| q.1) == headers.filter(
            |h: RequestHeader| h.value is Some,
        ).map_values(|h: RequestHeader| h.value.unwrap()@),
        header_value_fields(headers).map_values(|q: (Seq<char>, Seq<char>)| q.0) == headers.filter(
            |h: RequestHeader| h.value is Some,
        ).map_values(|h: RequestHeader| field_name_of_header(h.name@)),
        header_value_fields(headers).len() == headers.filter(
            |h: RequestHeader| h.value is Some,
        ).len(),
    decreases headers.len(),
{
    reveal_with_fuel(Seq::filter, 1);
    let has_text = |h: RequestHeader| h.value is Some;
    let value_of = |h: RequestHeader| h.value.unwrap()@;
    let name_of = |h: RequestHeader| field_name_of_header(h.name@);
    let snd = |q: (Seq<char>, Seq<char>)| q.1;
    let fst = |q: (Seq<char>, Seq<char>)| q.0;
    if headers.len() == 0 {
        assert(headers.filter(has_text) =~= Seq::empty());
        assert(header_value_fields(headers).map_values(snd) =~= Seq::empty());
        assert(header_value_fields(headers).map_values(fst) =~= Seq::empty());
        assert(headers.filter(has_text).map_values(value_of) =~= Seq::empty());
        assert(headers.filter(has_text).map_values(name_of) =~= Seq::empty());
    } else {
        let prefix = headers.drop_last();
        lemma_header_values_verbatim(prefix);
        let h = headers.last();
        let kept = prefix.filter(has_text);
        let fields = header_value_fields(prefix);
        if h.value is Some {
            assert(headers.filter(has_text) == kept.push(h));
            assert(header_value_fields(headers) =~= fields.push(
                (field_name_of_header(h.name@), h.value.unwrap()@),
            ));
            assert(header_value_fields(headers).map_values(snd) =~= fields.map_values(snd).push(
                h.value.unwrap()@,
            ));
            assert(kept.push(h).map_values(value_of) =~= kept.map_values(value_of).push(
                h.value.unwrap()@,
            ));
            assert(header_value_fields(headers).map_values(fst) =~= fields.map_values(fst).push(
                field_name_of_header(h.name@),
            ));
            assert(kept.push(h).map_values(name_of) =~= kept.map_values(name_of).push(
                field_name_of_header(h.name@),
            ));
        } else {
            assert(headers.filter(has_text) == kept);
            assert(header_value_fields(headers) =~= fields);
        }
    }
}

proof fn lemma_header_values_are_declared(headers: Seq<RequestHeader>, k: int)
    requires
        0 <= k < header_value_fields(headers).len(),
    ensures
        exists|i: int|
            0 <= i < headers.len() && headers[i].value is Some && #[trigger] field_name_of_header(
                headers[i].name@,
            ) == header_value_fields(headers)[k].0,
    decreases headers.len(),
{
    let prefix = header_value_fields(headers.drop_last());
    if k < prefix.len() {
        lemma_header_values_are_declared(headers.drop_last(), k);
        let i = choose|i: int|
            0 <= i < headers.drop_last().len() && headers.drop_last()[i].value is Some
                && #[trigger] field_name_of_header(headers.drop_last()[i].name@) == prefix[k].0;
        assert(headers[i] == headers.drop_last()[i]);
    } else {
        let last = headers.len() - 1;
        assert(headers[last] == headers.last());
    }
}

/// Every header value that `req.h` holds is declared, as text, by the type
/// `h` made from the same headers: filling in the values never mistypes one.
pub proof fn lemma_header_values_fit_header_type(headers: Seq<RequestHeader>, h: MelStructDecl, k: int)
    requires
        h.fields@.len() == headers.len(),
        forall|i: int|
            0 <= i < headers.len() ==> #[trigger] h.fields@[i].name@ == field_name_of_header(
                headers[i].name@,
            ) && h.fields@[i].kind == MelFieldKind::Text,
        0 <= k < header_value_fields(headers).len(),
    ensures
        exists|j: int|
            0 <= j < h.fields@.len() && #[trigger] h.fields@[j].name@ == header_value_fields(
                headers,
            )[k].0 && h.fields@[j].kind == MelFieldKind::Text,
{
    lemma_header_values_are_declared(headers, k);
    let i = choose|i: int|
        0 <= i < headers.len() && headers[i].value is Some && #[trigger] field_name_of_header(
            headers[i].name@,
        ) == header_value_fields(headers)[k].0;
    assert(h.fields@[i].name@ == header_value_fields(headers)[k].0);
}

/// Whether the record type `d` declares a text field named `name`.
pub open spec fn declares_text_field(d: MelStructDecl, name: Seq<char>) -> bool {
    exists|j: int|
        0 <= j < d.fields@.len() && #[trigger] d.fields@[j].name@ == name && d.fields@[j].kind
            == MelFieldKind::Text
}

/// The fields of the record `req` in the values of a request, each with the
/// kind of value it holds: the records of the headers and of the URI, text,
/// the client's address, and an integer.
pub open spec fn request_value_kinds(v: RequestValues) -> Seq<(Seq<char>, FieldKind)> {
    seq![
        ("h"@, FieldKind::Record("h"@)),
        ("uri"@, FieldKind::Record("uri"@)),
        ("method"@, FieldKind::Text),
        ("scheme"@, FieldKind::Text),
        ("clientip"@, FieldKind::IpAddress),
        ("clientport"@, FieldKind::Integer),
    ]
}

/// The fields of the record `uri` in the values of a request, each with the
/// kind of value it holds.
pub open spec fn uri_value_kinds(v: RequestValues) -> Seq<(Seq<char>, FieldKind)> {
    seq![("path"@, FieldKind::Text), ("query"@, FieldKind::Text)]
}

/// Every value of `req` has the kind that the type `req` declares for its
/// field: `req_type(header_type_from_req(headers), uri_type())` declares,
/// field by field and in order, the kinds of the values that
/// `value_scope_from_req(headers, ..)` holds; `uri` declares the kinds of
/// the URI's values; `h` declares, as text, the field of every header value;
/// and the port lies in 0..=65535.
pub proof fn lemma_request_values_fit_req_type(
    headers: Seq<RequestHeader>,
    h: MelStructDecl,
    u: MelStructDecl,
    req: MelStructDecl,
    v: RequestValues,
)
    requires
        h.name@ == "h"@,
        h.fields@.len() == headers.len(),
        forall|i: int|
            0 <= i < headers.len() ==> #[trigger] h.fields@[i].name@ == field_name_of_header(
                headers[i].name@,
            ) && h.fields@[i].kind == MelFieldKind::Text,
        u.name@ == "uri"@,
        decl_fields(u) == seq![("path"@, FieldKind::Text), ("query"@, FieldKind::Text)],
        decl_fields(req) == req_fields(h.name@, u.name@),
        pairs_view(v.headers@) == header_value_fields(headers),
        0 <= v.client_port <= u16::MAX,
    ensures
        decl_fields(req) == request_value_kinds(v),
        decl_fields(u) == uri_value_kinds(v),
        forall|k: int|
            0 <= k < v.headers@.len() ==> #[trigger] declares_text_field(h, v.headers@[k].0@),
        0 <= v.client_port <= 65535,
{
    assert(decl_fields(req) =~= request_value_kinds(v));
    assert forall|k: int| 0 <= k < v.headers@.len() implies #[trigger] declares_text_field(
        h,
        v.headers@[k].0@,
    ) by {
        assert(pairs_view(v.headers@)[k] == (v.headers@[k].0@, v.headers@[k].1@));
        lemma_header_values_fit_header_type(headers, h, k);
    }
}

/// What evaluating an expression posted to the server gave.
#[derive(Debug, Clone)]
pub enum MelEvaluation {
    /// The expression did not compile; the text describes why.
    CompileFailed(String),
    /// The expression did not pass the analysis; the text describes why.
    AnalysisFailed(String),
    /// The expression was evaluated, to a value (shown as text) or to none.
    Evaluated(Option<String>),
    /// The interpreter failed; the text describes why.
    EvaluationFailed(String),
}

/// The server's answer to an evaluation.
#[derive(Debug, Clone)]
pub enum MelReply {
    /// The expression's value, sent with the interpreter's log.
    Value(String),
    /// A "bad request" answer with this message.
    BadRequest(String),
}

/// The message sent when an expression evaluates to no value.
pub open spec fn no_value_message() -> Seq<char> {
    "After successful evaluation, the expression produced no value"@
}

/// The answer to an evaluation: the value when there is one, else a bad
/// request that says why there is none.
pub fn mel_reply(evaluation: MelEvaluation) -> (r: MelReply)
    ensures
        match evaluation {
            MelEvaluation::Evaluated(Some(v)) => r == MelReply::Value(v),
            MelEvaluation::Evaluated(None) => r matches MelReply::BadRequest(m) && m@
                == no_value_message(),
            MelEvaluation::CompileFailed(m) => r == MelReply::BadRequest(m),
            MelEvaluation::AnalysisFailed(m) => r == MelReply::BadRequest(m),
            MelEvaluation::EvaluationFailed(m) => r == MelReply::BadRequest(m),
        },
{
    match evaluation {
        MelEvaluation::Evaluated(Some(v)) => MelReply::Value(v),
        MelEvaluation::Evaluated(None) => MelReply::BadRequest(
            "After successful evaluation, the expression produced no value".to_owned(),
        ),
        MelEvaluation::CompileFailed(m) => MelReply::BadRequest(m),
        MelEvaluation::AnalysisFailed(m) => MelReply::BadRequest(m),
        MelEvaluation::EvaluationFailed(m) => MelReply::BadRequest(m),
    }
}

} // verus!
