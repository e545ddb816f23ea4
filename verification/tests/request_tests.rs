use rusty_bits::client::build_client;
use rusty_bits::config::{Config, ValueSource};
use rusty_bits::errors::RqError;
use rusty_bits::method::{parse_method, Method};
use rusty_bits::request::{
    build_request, form_candidates, file_refs, Auth, Body, FileInputs, FileRead, FormPart,
};
use rusty_bits::response::{render_body, render_mode, should_dump, should_send, RenderMode};

fn no_files() -> FileInputs {
    FileInputs { reads: vec![], existing: vec![] }
}

#[test]
fn unknown_method_token_resolves_to_get() {
    assert_eq!(parse_method("PUR"), Method::Get);
    assert_eq!(parse_method(""), Method::Get);
    assert_eq!(parse_method("get"), Method::Get);
    assert_eq!(parse_method("dElEtE"), Method::Delete);
    assert_eq!(parse_method("POST"), Method::Post);
    assert_eq!(parse_method("head"), Method::Head);
    assert_eq!(parse_method("Put"), Method::Put);
    assert_eq!(parse_method("patch"), Method::Patch);
}

#[test]
fn plain_get_request() {
    let cfg = Config::new(String::from("https://example.com"));
    let req = build_request(&cfg, &no_files()).unwrap();
    assert_eq!(req.method, Method::Get);
    assert_eq!(req.url, "https://example.com/");
    assert_eq!(req.headers.len(), 0);
    assert!(req.auth.is_none());
    assert_eq!(req.body, Body::Empty);
    assert!(req.timeout_seconds.is_none());
}

#[test]
fn invalid_url_is_rejected() {
    let cfg = Config::new(String::from("no scheme at all"));
    match build_request(&cfg, &no_files()) {
        Err(RqError::InvalidUrl(u)) => assert_eq!(u, "no scheme at all"),
        other => panic!("expected InvalidUrl, got {:?}", other),
    }
}

#[test]
fn later_header_overrides_earlier() {
    let mut cfg = Config::new(String::from("https://example.com"));
    cfg.headers = vec![
        ValueSource::Literal(String::from("Accept=text/plain")),
        ValueSource::Literal(String::from("Accept=application/json")),
    ];
    let req = build_request(&cfg, &no_files()).unwrap();
    assert_eq!(req.headers.len(), 1);
    assert_eq!(req.headers.get("Accept").unwrap(), "application/json");
}

#[test]
fn file_header_then_inline_overrides() {
    let mut cfg = Config::new(String::from("https://example.com"));
    cfg.headers = vec![
        ValueSource::FileRef(String::from("h.json")),
        ValueSource::Literal(String::from("A=9")),
    ];
    let files = FileInputs {
        reads: vec![FileRead {
            path: String::from("h.json"),
            contents: Some(String::from("{\"A\": \"3\", \"B\": \"4\"}")),
        }],
        existing: vec![],
    };
    let req = build_request(&cfg, &files).unwrap();
    assert_eq!(req.headers.get("A").unwrap(), "9");
    assert_eq!(req.headers.get("B").unwrap(), "4");
    assert_eq!(req.headers.len(), 2);
}

#[test]
fn header_keys_match_case_sensitively() {
    let mut cfg = Config::new(String::from("https://example.com"));
    cfg.headers = vec![
        ValueSource::Literal(String::from("Accept=text/plain")),
        ValueSource::Literal(String::from("accept=application/json")),
    ];
    let req = build_request(&cfg, &no_files()).unwrap();
    assert_eq!(req.headers.len(), 2);
    assert_eq!(req.headers.get("Accept").unwrap(), "text/plain");
    assert_eq!(req.headers.get("accept").unwrap(), "application/json");
}

#[test]
fn header_value_splits_on_first_equals() {
    let mut cfg = Config::new(String::from("https://example.com"));
    cfg.headers = vec![ValueSource::Literal(String::from("A=b=c"))];
    let req = build_request(&cfg, &no_files()).unwrap();
    assert_eq!(req.headers.get("A").unwrap(), "b=c");
}

#[test]
fn header_without_equals_is_malformed() {
    let mut cfg = Config::new(String::from("https://example.com"));
    cfg.headers = vec![ValueSource::Literal(String::from("NoSeparator"))];
    match build_request(&cfg, &no_files()) {
        Err(RqError::MalformedHeader(h)) => assert_eq!(h, "NoSeparator"),
        other => panic!("expected MalformedHeader, got {:?}", other),
    }
}

#[test]
fn non_string_header_value_fails() {
    let mut cfg = Config::new(String::from("https://example.com"));
    cfg.headers = vec![ValueSource::FileRef(String::from("h.json"))];
    let files = FileInputs {
        reads: vec![FileRead {
            path: String::from("h.json"),
            contents: Some(String::from("{\"A\": 5}")),
        }],
        existing: vec![],
    };
    match build_request(&cfg, &files) {
        Err(RqError::BadHeaderValue(k)) => assert_eq!(k, "A"),
        other => panic!("expected BadHeaderValue, got {:?}", other),
    }
}

#[test]
fn unreadable_header_file_fails() {
    let mut cfg = Config::new(String::from("https://example.com"));
    cfg.headers = vec![ValueSource::FileRef(String::from("gone.json"))];
    match build_request(&cfg, &no_files()) {
        Err(RqError::HeaderFileError(p)) => assert_eq!(p, "gone.json"),
        other => panic!("expected HeaderFileError, got {:?}", other),
    }
}

#[test]
fn cookies_become_the_cookie_header() {
    let mut cfg = Config::new(String::from("https://example.com"));
    cfg.cookies = Some(ValueSource::Literal(String::from("foo=bar; chocolate=chip")));
    let req = build_request(&cfg, &no_files()).unwrap();
    assert_eq!(req.headers.get("Cookie").unwrap(), "foo=bar; chocolate=chip");
}

#[test]
fn cookie_file_text_is_used_verbatim() {
    let mut cfg = Config::new(String::from("https://example.com"));
    cfg.cookies = Some(ValueSource::FileRef(String::from("c.txt")));
    let files = FileInputs {
        reads: vec![FileRead {
            path: String::from("c.txt"),
            contents: Some(String::from("{\"not\": \"parsed\"}")),
        }],
        existing: vec![],
    };
    let req = build_request(&cfg, &files).unwrap();
    assert_eq!(req.headers.get("Cookie").unwrap(), "{\"not\": \"parsed\"}");
}

#[test]
fn missing_body_file_fails_with_file_not_found() {
    let mut cfg = Config::new(String::from("https://example.com"));
    cfg.data = Some(ValueSource::FileRef(String::from("missing_file")));
    match build_request(&cfg, &no_files()) {
        Err(RqError::FileNotFound(p)) => assert_eq!(p, "missing_file"),
        other => panic!("expected FileNotFound, got {:?}", other),
    }
}

#[test]
fn existing_body_file_is_streamed() {
    let mut cfg = Config::new(String::from("https://example.com"));
    cfg.data = Some(ValueSource::FileRef(String::from("payload.bin")));
    let files = FileInputs { reads: vec![], existing: vec![String::from("payload.bin")] };
    let req = build_request(&cfg, &files).unwrap();
    assert_eq!(req.body, Body::FileStream(String::from("payload.bin")));
}

#[test]
fn inline_data_becomes_text_body() {
    let mut cfg = Config::new(String::from("https://example.com"));
    cfg.data = Some(ValueSource::Literal(String::from("{\"my\": \"json\"}")));
    let req = build_request(&cfg, &no_files()).unwrap();
    assert_eq!(req.body, Body::Text(String::from("{\"my\": \"json\"}")));
}

#[test]
fn bearer_overrides_basic() {
    let mut cfg = Config::new(String::from("https://example.com"));
    cfg.basic = Some(String::from("alice:secret"));
    cfg.bearer = Some(String::from("tok123"));
    let req = build_request(&cfg, &no_files()).unwrap();
    assert_eq!(req.auth, Some(Auth::Bearer(String::from("tok123"))));
}

#[test]
fn basic_auth_splits_on_first_colon() {
    let mut cfg = Config::new(String::from("https://example.com"));
    cfg.basic = Some(String::from("alice:sec:ret"));
    let req = build_request(&cfg, &no_files()).unwrap();
    assert_eq!(
        req.auth,
        Some(Auth::Basic { user: String::from("alice"), pass: String::from("sec:ret") })
    );
}

#[test]
fn basic_auth_without_colon_is_malformed() {
    let mut cfg = Config::new(String::from("https://example.com"));
    cfg.basic = Some(String::from("alice"));
    cfg.bearer = Some(String::from("tok123"));
    match build_request(&cfg, &no_files()) {
        Err(RqError::MalformedAuth(b)) => assert_eq!(b, "alice"),
        other => panic!("expected MalformedAuth, got {:?}", other),
    }
}

#[test]
fn form_replaces_body_and_splits_parts() {
    let mut cfg = Config::new(String::from("https://example.com"));
    cfg.data = Some(ValueSource::Literal(String::from("discarded")));
    cfg.form = Some(String::from("{\"file\":\"/tmp/exists.txt\",\"note\":\"hello\"}"));
    let files = FileInputs { reads: vec![], existing: vec![String::from("/tmp/exists.txt")] };
    let req = build_request(&cfg, &files).unwrap();
    assert_eq!(
        req.body,
        Body::Multipart(vec![
            FormPart::FilePart {
                name: String::from("file"),
                path: String::from("/tmp/exists.txt"),
            },
            FormPart::TextPart { name: String::from("note"), value: String::from("hello") },
        ])
    );
}

#[test]
fn form_that_is_not_json_fails() {
    let mut cfg = Config::new(String::from("https://example.com"));
    cfg.form = Some(String::from("not json"));
    match build_request(&cfg, &no_files()) {
        Err(RqError::BadFormData(f)) => assert_eq!(f, "not json"),
        other => panic!("expected BadFormData, got {:?}", other),
    }
}

#[test]
fn non_object_form_yields_empty_multipart() {
    let mut cfg = Config::new(String::from("https://example.com"));
    cfg.data = Some(ValueSource::Literal(String::from("discarded")));
    cfg.form = Some(String::from("[1, 2]"));
    let req = build_request(&cfg, &no_files()).unwrap();
    assert_eq!(req.body, Body::Multipart(vec![]));
}

#[test]
fn non_string_form_values_are_skipped() {
    let mut cfg = Config::new(String::from("https://example.com"));
    cfg.form = Some(String::from("{\"n\": 5, \"note\":\"hello\"}"));
    let req = build_request(&cfg, &no_files()).unwrap();
    assert_eq!(
        req.body,
        Body::Multipart(vec![FormPart::TextPart {
            name: String::from("note"),
            value: String::from("hello"),
        }])
    );
}

#[test]
fn form_candidates_lists_string_fields() {
    let c = form_candidates("{\"a\":\"x\",\"b\":5}");
    assert_eq!(c, vec![(String::from("a"), String::from("x"))]);
    assert_eq!(form_candidates("not json"), vec![]);
}

#[test]
fn file_refs_lists_referenced_paths() {
    let mut cfg = Config::new(String::from("https://example.com"));
    cfg.headers = vec![
        ValueSource::Literal(String::from("A=1")),
        ValueSource::FileRef(String::from("h.json")),
    ];
    cfg.cookies = Some(ValueSource::FileRef(String::from("c.txt")));
    assert_eq!(file_refs(&cfg), vec![String::from("h.json"), String::from("c.txt")]);
}

#[test]
fn timeout_is_carried_on_the_request() {
    let mut cfg = Config::new(String::from("https://example.com"));
    cfg.timeout_seconds = Some(7);
    let req = build_request(&cfg, &no_files()).unwrap();
    assert_eq!(req.timeout_seconds, Some(7));
}

#[test]
fn client_uses_default_user_agent() {
    let cfg = Config::new(String::from("https://example.com"));
    let c = build_client(&cfg).unwrap();
    assert_eq!(c.user_agent, "github.com/davemolk/rusty-bits/rq");
    assert!(c.follow_redirects);
    assert!(!c.http2_only);
    assert!(c.proxy.is_none());
}

#[test]
fn client_rejects_unparsable_proxy() {
    let mut cfg = Config::new(String::from("https://example.com"));
    cfg.proxy = Some(String::from("not a proxy"));
    match build_client(&cfg) {
        Err(RqError::ConfigError(p)) => assert_eq!(p, "not a proxy"),
        other => panic!("expected ConfigError, got {:?}", other),
    }
}

#[test]
fn client_normalizes_the_proxy_url() {
    let mut cfg = Config::new(String::from("https://example.com"));
    cfg.proxy = Some(String::from("http://proxy.example.com:8080"));
    cfg.user_agent = Some(String::from("me"));
    let c = build_client(&cfg).unwrap();
    assert_eq!(c.proxy.as_deref(), Some("http://proxy.example.com:8080/"));
    assert_eq!(c.user_agent, "me");
}

#[test]
fn debug_mode_never_sends() {
    let mut cfg = Config::new(String::from("https://example.com"));
    cfg.debug = true;
    assert!(!should_send(&cfg));
    assert!(should_dump(&cfg));
    let req = build_request(&cfg, &no_files()).unwrap();
    let lines = rusty_bits::response::dump_lines(&req);
    assert_eq!(lines, vec![String::from("GET"), String::from("https://example.com/")]);
}

#[test]
fn dump_lines_show_headers_and_timeout() {
    let mut cfg = Config::new(String::from("https://example.com"));
    cfg.headers = vec![ValueSource::Literal(String::from("Accept=text/plain"))];
    cfg.timeout_seconds = Some(30);
    let req = build_request(&cfg, &no_files()).unwrap();
    let lines = rusty_bits::response::dump_lines(&req);
    assert_eq!(
        lines,
        vec![
            String::from("GET"),
            String::from("https://example.com/"),
            String::from("Accept: text/plain"),
            String::from("timeout: 30s"),
        ]
    );
}

#[test]
fn download_mode_wins_over_pretty_print() {
    let mut cfg = Config::new(String::from("https://example.com"));
    cfg.download = Some(String::from("/tmp/out.bin"));
    cfg.pretty_print = true;
    assert_eq!(render_mode(&cfg), RenderMode::Download(String::from("/tmp/out.bin")));
    cfg.download = None;
    assert_eq!(render_mode(&cfg), RenderMode::Pretty);
    cfg.pretty_print = false;
    assert_eq!(render_mode(&cfg), RenderMode::Raw);
}

#[test]
fn pretty_print_keeps_semantic_content() {
    let body = "{\"b\": [1, 2], \"a\": 1}";
    let out = render_body(true, body);
    assert_eq!(out, "{\n  \"a\": 1,\n  \"b\": [\n    1,\n    2\n  ]\n}");
    let before: serde_json::Value = serde_json::from_str(body).unwrap();
    let after: serde_json::Value = serde_json::from_str(&out).unwrap();
    assert_eq!(before, after);
}

#[test]
fn pretty_print_falls_back_to_raw_text() {
    assert_eq!(render_body(true, "plain text, no json"), "plain text, no json");
    assert_eq!(render_body(false, "{\"a\":1}"), "{\"a\":1}");
}

#[test]
fn non_success_status_is_detected() {
    assert!(rusty_bits::response::status_is_success(200));
    assert!(rusty_bits::response::status_is_success(204));
    assert!(!rusty_bits::response::status_is_success(199));
    assert!(!rusty_bits::response::status_is_success(301));
    assert!(!rusty_bits::response::status_is_success(404));
}
