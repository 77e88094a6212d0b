use brooks_cli::proxy::{
    client_added_header, headers_to_forward, proxy_target, response_status,
    uri_parts_or_defaults, ProxyTarget, StageEditError,
};
use brooks_cli::text::str_equals;
use brooks_cli::serve::{
    header_type_from_req, mel_field_name, mel_reply, req_type, uri_type, value_scope_from_req,
    ClientAddress, MelEvaluation, MelFieldKind, MelReply, RequestHeader,
};

#[test]
fn client_sets_host_length_encoding_and_date() {
    for h in ["host", "content-length", "accept-encoding", "date"] {
        assert!(client_added_header(h));
    }
    for h in ["Host", "accept", "delete-me", "", "dates", "x-host"] {
        assert!(!client_added_header(h));
    }
}

#[test]
fn strings_compare_by_characters() {
    assert!(str_equals("abc", "abc"));
    assert!(!str_equals("abc", "abd"));
    assert!(!str_equals("abc", "ab"));
    assert!(str_equals("", ""));
}

#[test]
fn forwarded_headers_skip_client_headers_in_order() {
    let headers = vec![
        ("host".to_string(), 1),
        ("delete-me".to_string(), 2),
        ("date".to_string(), 3),
        ("accept".to_string(), 4),
        ("content-length".to_string(), 5),
        ("accept".to_string(), 6),
    ];
    let kept = headers_to_forward(headers);
    assert_eq!(
        kept,
        vec![("delete-me".to_string(), 2), ("accept".to_string(), 4), ("accept".to_string(), 6)]
    );
    assert!(headers_to_forward(Vec::<(String, u8)>::new()).is_empty());
}

#[test]
fn proxy_target_follows_query() {
    assert_eq!(proxy_target(""), ProxyTarget::RequestUri);
    assert_eq!(proxy_target("http://www.example.com"), ProxyTarget::QueryUri);
}

#[test]
fn uri_parts_take_defaults() {
    let p = uri_parts_or_defaults(None, None, None);
    assert_eq!((p.scheme.as_str(), p.path_and_query.as_str(), p.authority.as_str()), ("https", "", "127.0.0.1"));
    let p = uri_parts_or_defaults(Some("http"), Some("/proxy/?a=b"), Some("example.com:80"));
    assert_eq!(
        (p.scheme.as_str(), p.path_and_query.as_str(), p.authority.as_str()),
        ("http", "/proxy/?a=b", "example.com:80")
    );
}

#[test]
fn response_status_accepts_three_digit_codes() {
    assert_eq!(response_status(200), Ok(actix_web::http::StatusCode::OK));
    assert_eq!(response_status(100).map(|s| s.as_u16()), Ok(100));
    assert_eq!(response_status(999).map(|s| s.as_u16()), Ok(999));
    assert_eq!(response_status(99), Err(StageEditError::BadValue));
    assert_eq!(response_status(1000), Err(StageEditError::BadValue));
    assert_eq!(response_status(0), Err(StageEditError::BadValue));
}

#[test]
fn header_names_become_field_names() {
    assert_eq!(mel_field_name("x-forwarded-for"), "x_forwarded_for");
    assert_eq!(mel_field_name("Content-Type"), "content_type");
    assert_eq!(mel_field_name("accept"), "accept");
    assert_eq!(mel_field_name("X-Forwarded-For"), "x_forwarded_for");
    assert_eq!(mel_field_name("É-x"), "é_x");
}

fn header(name: &str, value: Option<&str>) -> RequestHeader {
    RequestHeader { name: name.to_string(), value: value.map(|v| v.to_string()) }
}

#[test]
fn request_types_describe_the_request() {
    let headers = vec![header("user-agent", Some("curl")), header("x-bin", None)];
    let h = header_type_from_req(&headers);
    assert_eq!(h.name, "h");
    let names: Vec<&str> = h.fields.iter().map(|f| f.name.as_str()).collect();
    assert_eq!(names, vec!["user_agent", "x_bin"]);
    assert!(h.fields.iter().all(|f| f.kind == MelFieldKind::Text));

    let u = uri_type();
    assert_eq!(u.name, "uri");
    let names: Vec<&str> = u.fields.iter().map(|f| f.name.as_str()).collect();
    assert_eq!(names, vec!["path", "query"]);

    let r = req_type(&h, &u);
    assert_eq!(r.name, "req");
    let fields: Vec<(&str, MelFieldKind)> =
        r.fields.iter().map(|f| (f.name.as_str(), f.kind.clone())).collect();
    assert_eq!(
        fields,
        vec![
            ("h", MelFieldKind::Record("h".to_string())),
            ("uri", MelFieldKind::Record("uri".to_string())),
            ("method", MelFieldKind::Text),
            ("scheme", MelFieldKind::Text),
            ("clientip", MelFieldKind::IpAddress),
            ("clientport", MelFieldKind::Integer),
        ]
    );
}

#[test]
fn request_values_fill_the_types() {
    let headers = vec![
        header("user-agent", Some("curl")),
        header("x-bin", None),
        header("Accept", Some("*/*")),
    ];
    let v = value_scope_from_req(&headers, "/a/b", None, "POST", None, ClientAddress::V4([127, 0, 0, 1]), 4242);
    assert_eq!(
        v.headers,
        vec![
            ("user_agent".to_string(), "curl".to_string()),
            ("accept".to_string(), "*/*".to_string())
        ]
    );
    assert_eq!(v.path, "/a/b");
    assert_eq!(v.query, "");
    assert_eq!(v.method, "POST");
    assert_eq!(v.scheme, "http");
    assert_eq!(v.client_port, 4242);
    assert_eq!(v.client_ip, ClientAddress::V4([127, 0, 0, 1]));
    let v = value_scope_from_req(&headers, "/", Some("x=1"), "GET", Some("https"), ClientAddress::V6([0; 16]), 1);
    assert_eq!(v.client_ip, ClientAddress::V6([0; 16]));
    assert_eq!(v.query, "x=1");
    assert_eq!(v.scheme, "https");

    let h = header_type_from_req(&headers);
    for (name, _) in &v.headers {
        assert!(h.fields.iter().any(|f| &f.name == name));
    }
}

#[test]
fn mel_replies() {
    match mel_reply(MelEvaluation::Evaluated(Some("9".into()))) {
        MelReply::Value(v) => assert_eq!(v, "9"),
        _ => panic!(),
    }
    match mel_reply(MelEvaluation::Evaluated(None)) {
        MelReply::BadRequest(m) => {
            assert_eq!(m, "After successful evaluation, the expression produced no value")
        }
        _ => panic!(),
    }
    match mel_reply(MelEvaluation::CompileFailed("c".into())) {
        MelReply::BadRequest(m) => assert_eq!(m, "c"),
        _ => panic!(),
    }
    match mel_reply(MelEvaluation::AnalysisFailed("a".into())) {
        MelReply::BadRequest(m) => assert_eq!(m, "a"),
        _ => panic!(),
    }
    match mel_reply(MelEvaluation::EvaluationFailed("e".into())) {
        MelReply::BadRequest(m) => assert_eq!(m, "e"),
        _ => panic!(),
    }
}

#[test]
fn forwarded_for_request_scope() {
    let headers = vec![header("x-forwarded-for", Some("1.2.3.4"))];
    let v = value_scope_from_req(&headers, "/a/b", None, "GET", None, ClientAddress::V4([10, 0, 0, 1]), 8080);
    assert_eq!(v.headers, vec![("x_forwarded_for".to_string(), "1.2.3.4".to_string())]);
    assert_eq!(v.path, "/a/b");
    assert_eq!(v.query, "");
    assert_eq!(v.method, "GET");
    assert_eq!(v.scheme, "http");
    assert_eq!(v.client_ip, ClientAddress::V4([10, 0, 0, 1]));
    assert_eq!(v.client_port, 8080);
    let h = header_type_from_req(&headers);
    let r = req_type(&h, &uri_type());
    let kinds: Vec<(&str, MelFieldKind)> =
        r.fields.iter().map(|f| (f.name.as_str(), f.kind.clone())).collect();
    assert_eq!(kinds[4], ("clientip", MelFieldKind::IpAddress));
    assert_eq!(kinds[5], ("clientport", MelFieldKind::Integer));
}
