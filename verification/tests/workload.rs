use dstest::workload::{
    parse_openapi, parse_openapi_document,
    default_requests, interval_ms, is_json_text, openapi_requests, pause_after, require_requests,
    HttpReq, Json, WorkloadStats,
};

fn obj(entries: Vec<(&str, Json)>) -> Json {
    Json::Object(entries.into_iter().map(|(k, v)| (k.to_string(), v)).collect())
}

#[test]
fn default_and_required_requests() {
    let d = default_requests();
    assert_eq!(d.len(), 1);
    assert_eq!((d[0].method.as_str(), d[0].path.as_str()), ("GET", "/get"));
    assert_eq!(require_requests(vec![]).err().unwrap(), "requests list is empty");
    assert_eq!(require_requests(default_requests()).unwrap().len(), 1);
}

#[test]
fn openapi_paths_give_requests() {
    let root = obj(vec![
        ("openapi", Json::Str("3.0.0".to_string())),
        (
            "paths",
            obj(vec![
                ("/a", obj(vec![("get", Json::Null), ("parameters", Json::Array(vec![])), ("post", Json::Null)])),
                ("/b", Json::Str("not an object".to_string())),
                ("/c", obj(vec![("Delete", Json::Null), ("trace", Json::Null)])),
            ]),
        ),
    ]);
    let reqs = openapi_requests(&root).unwrap();
    let pairs: Vec<(String, String)> = reqs.iter().map(|r| (r.method.clone(), r.path.clone())).collect();
    assert_eq!(
        pairs,
        vec![
            ("GET".to_string(), "/a".to_string()),
            ("POST".to_string(), "/a".to_string()),
            ("DELETE".to_string(), "/c".to_string()),
        ]
    );
    assert!(reqs.iter().all(|r| r.body.is_none() && r.content_type.is_none()));
}

#[test]
fn openapi_errors() {
    assert_eq!(
        openapi_requests(&obj(vec![("info", Json::Null)])).err().unwrap(),
        "OpenAPI spec missing 'paths'"
    );
    assert_eq!(
        openapi_requests(&Json::Array(vec![])).err().unwrap(),
        "OpenAPI spec missing 'paths'"
    );
    assert_eq!(
        openapi_requests(&obj(vec![("paths", obj(vec![("/x", obj(vec![("summary", Json::Null)]))]))]))
            .err()
            .unwrap(),
        "no HTTP methods found in OpenAPI spec"
    );
}

#[test]
fn json_or_yaml_by_first_character() {
    assert!(is_json_text("  {\"paths\": {}}"));
    assert!(!is_json_text("openapi: 3.0.0\npaths: {}"));
    assert!(!is_json_text(""));
}

#[test]
fn pacing_and_retries() {
    assert_eq!(interval_ms(20), 50);
    assert_eq!(interval_ms(0), 1000);
    assert_eq!(interval_ms(3000), 0);
    assert!(pause_after(0, 3));
    assert!(!pause_after(2, 3));
}

#[test]
fn stats_count_and_break_down_by_method() {
    let reqs = vec![
        HttpReq { method: "GET".to_string(), path: "/a".to_string(), body: None, content_type: None },
        HttpReq { method: "POST".to_string(), path: "/b".to_string(), body: None, content_type: None },
    ];
    let mut s = WorkloadStats::new();
    assert_eq!(s.avg_latency_ms(), 0);
    assert_eq!(s.next_index(2), 0);
    s.record("GET", true, 10);
    assert_eq!(s.next_index(2), 1);
    s.record("POST", false, 30);
    s.record("GET", true, 5);
    assert_eq!((s.total(), s.ok(), s.failed(), s.max_latency_ms()), (3, 2, 1, 30));
    assert_eq!(s.avg_latency_ms(), 15);
    let b = s.breakdown(&reqs);
    assert_eq!(b, vec![("GET /a".to_string(), 2, 0), ("POST /b".to_string(), 0, 1)]);
}

#[test]
fn openapi_json_spec_gives_requests() {
    let spec = r#"  {"openapi": "3.0.0", "paths": {"/users": {"get": {}, "post": {}, "summary": "x"}, "/health": {"head": {}}, "/x": 3}}"#;
    let reqs = parse_openapi(spec).unwrap();
    let pairs: Vec<(String, String)> = reqs.iter().map(|r| (r.method.clone(), r.path.clone())).collect();
    // Members come sorted by key from the reader.
    assert_eq!(
        pairs,
        vec![
            ("HEAD".to_string(), "/health".to_string()),
            ("GET".to_string(), "/users".to_string()),
            ("POST".to_string(), "/users".to_string()),
        ]
    );
    assert!(reqs.iter().all(|r| r.body.is_none() && r.content_type.is_none()));
}

#[test]
fn openapi_yaml_spec_gives_requests() {
    let spec = "openapi: 3.0.0\npaths:\n  /items:\n    delete: {}\n    Patch: {}\n    parameters: []\n";
    let reqs = parse_openapi(spec).unwrap();
    let pairs: Vec<(String, String)> = reqs.iter().map(|r| (r.method.clone(), r.path.clone())).collect();
    assert_eq!(
        pairs,
        vec![("PATCH".to_string(), "/items".to_string()), ("DELETE".to_string(), "/items".to_string())]
    );
}

#[test]
fn openapi_spec_errors() {
    let e = parse_openapi("{ not json").err().unwrap();
    assert!(e.starts_with("invalid OpenAPI JSON: "), "{}", e);
    let e = parse_openapi("paths: [unclosed").err().unwrap();
    assert!(e.starts_with("invalid OpenAPI YAML: "), "{}", e);
    assert_eq!(parse_openapi("{\"openapi\": \"3\"}").err().unwrap(), "OpenAPI spec missing 'paths'");
    assert_eq!(parse_openapi("paths:\n  /a:\n    trace: {}\n").err().unwrap(), "no HTTP methods found in OpenAPI spec");
    match parse_openapi_document("[1, true, null, \"s\", 2.5]").unwrap() {
        Json::Array(items) => assert_eq!(items.len(), 5),
        _ => panic!("an array"),
    }
}
