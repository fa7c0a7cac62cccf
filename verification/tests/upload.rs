use package_registry::error::ErrorKind;
use package_registry::upload::{
    features_from_header, has_plain_structure, judge_headers, parse_new_headers, Dependency,
    Readings, UploadHeaders, User,
};

fn headers() -> UploadHeaders {
    UploadHeaders {
        auth: Some("token".to_string()),
        name: Some("Foo".to_string()),
        vers: Some("1.0.0".to_string()),
        features: Some("{}".to_string()),
        deps: Some(Vec::new()),
        content_length: Some(10),
        content_type: Some("application/x-tar".to_string()),
        content_encoding: Some("gzip".to_string()),
    }
}

fn fault(h: UploadHeaders, account: Option<User>, max: u64) -> (ErrorKind, String) {
    let e = parse_new_headers(h, account, max).unwrap_err();
    (e.kind(), e.message())
}

#[test]
fn good_headers_announce_the_package_in_lower_case() {
    let mut h = headers();
    h.features = Some("{\"std\": [\"alloc\", \"core\"], \"default\": []}".to_string());
    h.deps = Some(vec![Dependency { name: "bar".to_string(), req: ">= 0.1".to_string(), features: vec![] }]);
    let (pkg, user) = parse_new_headers(h, Some(User { id: 7 }), 10).unwrap();
    assert_eq!(user, User { id: 7 });
    assert_eq!(pkg.name, "foo");
    assert_eq!(pkg.vers, "1.0.0");
    assert_eq!(pkg.cksum, "");
    assert_eq!(pkg.deps.len(), 1);
    assert_eq!(pkg.deps[0].name, "bar");
    assert_eq!(pkg.deps[0].req, ">= 0.1");
    assert_eq!(
        pkg.features,
        vec![
            ("default".to_string(), Vec::<String>::new()),
            ("std".to_string(), vec!["alloc".to_string(), "core".to_string()]),
        ]
    );
}

#[test]
fn x_gzip_is_taken_as_gzip() {
    let mut h = headers();
    h.content_encoding = Some("x-gzip".to_string());
    assert!(parse_new_headers(h, Some(User { id: 1 }), 10).is_ok());
}

#[test]
fn each_missing_header_is_named() {
    let mut h = headers();
    h.auth = None;
    assert_eq!(fault(h, Some(User { id: 1 }), 10), (ErrorKind::InvalidRequest, "missing header: X-Cargo-Auth".to_string()));
    let mut h = headers();
    h.name = None;
    assert_eq!(fault(h, Some(User { id: 1 }), 10), (ErrorKind::InvalidRequest, "missing header: X-Cargo-Pkg-Name".to_string()));
    let mut h = headers();
    h.vers = None;
    assert_eq!(fault(h, Some(User { id: 1 }), 10), (ErrorKind::InvalidRequest, "missing header: X-Cargo-Pkg-Version".to_string()));
    let mut h = headers();
    h.features = None;
    assert_eq!(fault(h, Some(User { id: 1 }), 10), (ErrorKind::InvalidRequest, "missing header: X-Cargo-Pkg-Feature".to_string()));
    let mut h = headers();
    h.content_length = None;
    assert_eq!(fault(h, Some(User { id: 1 }), 10), (ErrorKind::InvalidRequest, "missing header: Content-Length".to_string()));
    let mut h = headers();
    h.content_type = None;
    assert_eq!(fault(h, Some(User { id: 1 }), 10), (ErrorKind::InvalidRequest, "missing header: Content-Type".to_string()));
    let mut h = headers();
    h.content_encoding = None;
    assert_eq!(fault(h, Some(User { id: 1 }), 10), (ErrorKind::InvalidRequest, "missing header: Content-Encoding".to_string()));
}

#[test]
fn a_malformed_feature_header_is_an_invalid_request() {
    for text in ["", "{", "[]", "{\"a\": 1}", "{\"a\": [1]}", "{\"a\": \"b\"}", "null", "{\"a\": [[\"b\"]]}", "{\"a\": [\"b\"]} x"] {
        let mut h = headers();
        h.features = Some(text.to_string());
        assert_eq!(
            fault(h, Some(User { id: 1 }), 10),
            (ErrorKind::InvalidRequest, "malformed feature header".to_string()),
            "{}",
            text
        );
    }
}

#[test]
fn an_upload_over_the_limit_is_refused_with_the_limit() {
    let mut h = headers();
    h.content_length = Some(11);
    assert_eq!(fault(h, Some(User { id: 1 }), 10), (ErrorKind::ValidationFailed, "max upload size is: 10".to_string()));
    let mut h = headers();
    h.content_length = Some(10);
    assert!(parse_new_headers(h, Some(User { id: 1 }), 10).is_ok());
}

#[test]
fn content_type_and_encoding_must_be_tar_and_gzip() {
    let mut h = headers();
    h.content_type = Some("text/plain".to_string());
    assert_eq!(
        fault(h, Some(User { id: 1 }), 10),
        (ErrorKind::ValidationFailed, "expected `application/x-tar`, found `text/plain`".to_string())
    );
    let mut h = headers();
    h.content_encoding = Some("br".to_string());
    assert_eq!(fault(h, Some(User { id: 1 }), 10), (ErrorKind::ValidationFailed, "expected `gzip`, found `br`".to_string()));
}

#[test]
fn an_unknown_credential_is_refused() {
    assert_eq!(
        fault(headers(), None, 10),
        (ErrorKind::InvalidRequest, "invalid or unknown auth token supplied".to_string())
    );
}

#[test]
fn a_bad_name_or_version_fails_validation() {
    let mut h = headers();
    h.name = Some("Foo Bar".to_string());
    assert_eq!(fault(h, Some(User { id: 1 }), 10), (ErrorKind::ValidationFailed, "invalid package name: `foo bar`".to_string()));
    let mut h = headers();
    h.name = Some("".to_string());
    assert_eq!(fault(h, Some(User { id: 1 }), 10), (ErrorKind::ValidationFailed, "invalid package name: ``".to_string()));
    let mut h = headers();
    h.vers = Some("1.0".to_string());
    assert_eq!(fault(h, Some(User { id: 1 }), 10), (ErrorKind::ValidationFailed, "invalid package version: `1.0`".to_string()));
}

#[test]
fn the_first_failing_check_is_reported() {
    let mut h = headers();
    h.content_length = Some(99);
    h.content_type = Some("text/plain".to_string());
    h.name = Some("!".to_string());
    assert_eq!(fault(h, None, 10), (ErrorKind::ValidationFailed, "max upload size is: 10".to_string()));
    let mut h = headers();
    h.features = Some("nonsense".to_string());
    h.content_length = None;
    assert_eq!(fault(h, None, 10), (ErrorKind::InvalidRequest, "malformed feature header".to_string()));
}

#[test]
fn plain_structure_looks_outside_strings_only() {
    assert!(has_plain_structure(""));
    assert!(has_plain_structure("{}"));
    assert!(has_plain_structure("{\"a\": [\"1e999\", \"[[[[\"],\n\t\"b\": []}"));
    assert!(has_plain_structure("{\"a\\\"[[[\": []}"));
    assert!(has_plain_structure("[[]]"));
    assert!(!has_plain_structure("[[[]]]"));
    assert!(!has_plain_structure("{\"a\": [[\"b\"]]}"));
    assert!(!has_plain_structure("{\"a\": 1}"));
    assert!(!has_plain_structure("1e99999999999999999999"));
    assert!(!has_plain_structure("true"));
    assert!(!has_plain_structure("{\"a\": null}"));
}

#[test]
fn features_are_listed_by_name() {
    let got = features_from_header("{\"z\": [\"y\"], \"a\": [\"c\", \"b\"], \"m\": []}").unwrap();
    assert_eq!(
        got,
        vec![
            ("a".to_string(), vec!["c".to_string(), "b".to_string()]),
            ("m".to_string(), vec![]),
            ("z".to_string(), vec!["y".to_string()]),
        ]
    );
    assert_eq!(features_from_header("{}").unwrap(), vec![]);
    assert!(features_from_header("{\"a\": [\"\\u0041\"]}").unwrap() == vec![("a".to_string(), vec!["A".to_string()])]);
    assert!(features_from_header("{\"a\": 2}").is_none());
    assert!(features_from_header("[[[[[[[[").is_none());
}

#[test]
fn headers_are_judged_by_what_was_read() {
    let good = || Readings {
        features: Some(vec![("std".to_string(), vec![])]),
        name: "foo".to_string(),
        name_valid: true,
        version_valid: true,
    };
    let (pkg, user) = judge_headers(headers(), Some(User { id: 3 }), 10, good()).unwrap();
    assert_eq!(pkg.name, "foo");
    assert_eq!(pkg.vers, "1.0.0");
    assert_eq!(pkg.features, vec![("std".to_string(), vec![])]);
    assert_eq!(pkg.cksum, "");
    assert_eq!(user.id, 3);

    let e = judge_headers(headers(), Some(User { id: 3 }), 10, Readings { features: None, ..good() }).unwrap_err();
    assert_eq!((e.kind(), e.message()), (ErrorKind::InvalidRequest, "malformed feature header".to_string()));
    let e = judge_headers(headers(), Some(User { id: 3 }), 10, Readings { name_valid: false, ..good() }).unwrap_err();
    assert_eq!((e.kind(), e.message()), (ErrorKind::ValidationFailed, "invalid package name: `foo`".to_string()));
    let e = judge_headers(headers(), Some(User { id: 3 }), 10, Readings { version_valid: false, ..good() }).unwrap_err();
    assert_eq!((e.kind(), e.message()), (ErrorKind::ValidationFailed, "invalid package version: `1.0.0`".to_string()));
    let e = judge_headers(headers(), Some(User { id: 3 }), 10, Readings { name_valid: false, version_valid: false, ..good() })
        .unwrap_err();
    assert_eq!(e.message(), "invalid package name: `foo`");
    let mut h = headers();
    h.name = None;
    let e = judge_headers(h, Some(User { id: 3 }), 10, good()).unwrap_err();
    assert_eq!(e.message(), "missing header: X-Cargo-Pkg-Name");
}

#[test]
fn a_dependency_header_that_did_not_parse_is_an_invalid_request() {
    let mut h = headers();
    h.deps = None;
    assert_eq!(fault(h, Some(User { id: 1 }), 10), (ErrorKind::InvalidRequest, "malformed dependency header".to_string()));
    let mut h = headers();
    h.deps = None;
    h.features = Some("nonsense".to_string());
    assert_eq!(fault(h, Some(User { id: 1 }), 10), (ErrorKind::InvalidRequest, "malformed dependency header".to_string()));
    let mut h = headers();
    h.deps = None;
    h.features = None;
    assert_eq!(fault(h, Some(User { id: 1 }), 10), (ErrorKind::InvalidRequest, "missing header: X-Cargo-Pkg-Feature".to_string()));
}

#[test]
fn a_feature_header_beyond_the_length_limit_is_refused() {
    let key = "a".repeat(65_535 - 7);
    let longest = format!("{{\"{}\":[]}}", key);
    assert_eq!(longest.len(), 65_535);
    assert_eq!(features_from_header(&longest).unwrap(), vec![(key, vec![])]);
    let mut h = headers();
    h.features = Some(longest);
    assert!(parse_new_headers(h, Some(User { id: 1 }), 10).is_ok());

    let too_long = format!("{{\"{}\":[]}}", "a".repeat(65_535 - 6));
    assert_eq!(too_long.len(), 65_536);
    assert!(features_from_header(&too_long).is_none());
    // A key that would be cut inside a character never reaches the decoder.
    let cut = format!("{{\"\u{e9}{}\":[]}}", "a".repeat(65_535));
    assert!(has_plain_structure(&cut));
    assert!(features_from_header(&cut).is_none());
    // The bound counts bytes, not characters.
    let wide = format!("{{\"{}\":[]}}", "\u{20ac}".repeat(21_843));
    assert_eq!(wide.len(), 65_536);
    assert!(features_from_header(&wide).is_none());
    let fits = format!("{{\"{}\":[\"{}\"]}}", "\u{20ac}".repeat(8_000), "b".repeat(40_000));
    assert_eq!(features_from_header(&fits).unwrap()[0].1[0].len(), 40_000);
    for text in [too_long, cut, wide] {
        let mut h = headers();
        h.features = Some(text);
        assert_eq!(
            fault(h, Some(User { id: 1 }), 10),
            (ErrorKind::InvalidRequest, "feature header is too long".to_string())
        );
    }
    let mut h = headers();
    h.features = Some("x".repeat(70_000));
    h.deps = None;
    assert_eq!(fault(h, Some(User { id: 1 }), 10), (ErrorKind::InvalidRequest, "malformed dependency header".to_string()));
}

#[test]
fn a_feature_is_named_once() {
    let got = features_from_header("{\"a\": [\"x\"], \"b\": [], \"a\": [\"y\"]}").unwrap();
    assert_eq!(got.len(), 2);
    assert_eq!(got[0].0, "a");
    assert_eq!(got[1].0, "b");
}
