use openshell::backend::{
    backend_request, build_backend_url, proxy_response, rewrite_body, send_error, set_model,
    AuthHeader, ResolvedRoute, RouterError,
};

fn pairs(v: &[(&str, &str)]) -> Vec<(String, String)> {
    v.iter().map(|(a, b)| (a.to_string(), b.to_string())).collect()
}

fn route(auth: AuthHeader, defaults: &[(&str, &str)]) -> ResolvedRoute {
    ResolvedRoute {
        endpoint: "https://api.example.com/v1/".to_string(),
        api_key: "sk-route".to_string(),
        model: "route/model".to_string(),
        auth,
        default_headers: pairs(defaults),
    }
}

#[test]
fn build_backend_url_dedupes_v1_prefix() {
    assert_eq!(
        build_backend_url("https://api.openai.com/v1", "/v1/chat/completions"),
        "https://api.openai.com/v1/chat/completions"
    );
}

#[test]
fn build_backend_url_preserves_non_versioned_base() {
    assert_eq!(
        build_backend_url("https://api.anthropic.com", "/v1/messages"),
        "https://api.anthropic.com/v1/messages"
    );
}

#[test]
fn build_backend_url_handles_exact_v1_path() {
    assert_eq!(
        build_backend_url("https://api.openai.com/v1", "/v1"),
        "https://api.openai.com/v1"
    );
}

#[test]
fn build_backend_url_trims_slashes_and_keeps_other_paths() {
    assert_eq!(build_backend_url("https://h/v1///", "/v1/models"), "https://h/v1/models");
    assert_eq!(build_backend_url("https://h/v1", "/v10/models"), "https://h/v1/v10/models");
    assert_eq!(build_backend_url("https://h/v1", "/health"), "https://h/v1/health");
    assert_eq!(build_backend_url("https://h/", ""), "https://h");
    assert_eq!(build_backend_url("///", "/x"), "/x");
    assert_eq!(build_backend_url("https://h/v1", "/v1/é"), "https://h/v1/é");
}

#[test]
fn versioned_and_unversioned_endpoints_reach_the_same_url() {
    for path in ["/v1", "/v1/", "/v1/chat/completions"] {
        assert_eq!(
            build_backend_url("https://h/v1", path),
            build_backend_url("https://h", path)
        );
    }
}

#[test]
fn bearer_route_replaces_client_credentials() {
    let r = route(AuthHeader::Bearer, &[("Anthropic-Version", "2023-06-01")]);
    let headers = pairs(&[
        ("Authorization", "Bearer client"),
        ("X-Api-Key", "client"),
        ("Host", "inference.local"),
        ("Content-Type", "application/json"),
        ("accept", "*/*"),
    ]);
    let q = backend_request(&r, "POST", "/v1/messages", &headers, b"plain".to_vec()).unwrap();
    assert_eq!(q.method, "POST");
    assert_eq!(q.url, "https://api.example.com/v1/messages");
    assert_eq!(
        q.headers,
        pairs(&[
            ("authorization", "Bearer sk-route"),
            ("Content-Type", "application/json"),
            ("accept", "*/*"),
            ("Anthropic-Version", "2023-06-01"),
        ])
    );
    assert_eq!(q.body, b"plain".to_vec());
}

#[test]
fn custom_route_uses_its_header() {
    let r = route(AuthHeader::Custom("x-api-key".to_string()), &[]);
    let q = backend_request(&r, "GET", "/v1/models", &pairs(&[("x-api-key", "c")]), Vec::new())
        .unwrap();
    assert_eq!(q.headers, pairs(&[("x-api-key", "sk-route")]));
}

#[test]
fn every_custom_auth_header_is_rewritten() {
    let r = route(AuthHeader::Custom("x-goog-api-key".to_string()), &[]);
    let headers = pairs(&[
        ("X-Goog-Api-Key", "client"),
        ("accept", "*/*"),
        ("x-goog-api-key", "client again"),
        ("Authorization", "Bearer client"),
    ]);
    let q = backend_request(&r, "POST", "/v1/models", &headers, Vec::new()).unwrap();
    assert_eq!(q.headers, pairs(&[("x-goog-api-key", "sk-route"), ("accept", "*/*")]));
}

#[test]
fn default_header_yields_to_the_clients() {
    let r = route(AuthHeader::Bearer, &[("anthropic-version", "2023-06-01"), ("x-b", "1")]);
    let headers = pairs(&[("Anthropic-Version", "2024-01-01"), ("x-a", "2")]);
    let q = backend_request(&r, "POST", "/", &headers, Vec::new()).unwrap();
    assert_eq!(
        q.headers,
        pairs(&[
            ("authorization", "Bearer sk-route"),
            ("Anthropic-Version", "2024-01-01"),
            ("x-a", "2"),
            ("x-b", "1"),
        ])
    );
}

#[test]
fn methods_are_tokens() {
    let r = route(AuthHeader::Bearer, &[]);
    for m in ["GET", "post", "PATCH", "QUERY", "X-CUSTOM", "!#$%&'*+-.^_`|~09azAZ", "A"] {
        assert!(backend_request(&r, m, "/", &Vec::new(), Vec::new()).is_ok(), "{m}");
    }
    let long = "M".repeat(300);
    assert!(backend_request(&r, &long, "/", &Vec::new(), Vec::new()).is_ok());
    for m in ["", "GET ", "G T", "GÉT", "A\n", "a/b", "a:b", "(", "{", "\u{7f}"] {
        match backend_request(&r, m, "/", &Vec::new(), Vec::new()) {
            Err(RouterError::Internal(text)) => {
                assert_eq!(text, format!("invalid HTTP method: {m}"))
            }
            other => panic!("{other:?}"),
        }
    }
}

#[test]
fn every_ascii_character_parses_as_reqwest_does() {
    let r = route(AuthHeader::Bearer, &[]);
    for c in 0u8..128 {
        let m = (c as char).to_string();
        let ours = backend_request(&r, &m, "/", &Vec::new(), Vec::new()).is_ok();
        assert_eq!(ours, m.parse::<reqwest::Method>().is_ok(), "{c}");
        let token = c.is_ascii_alphanumeric() || b"!#$%&'*+-.^_`|~".contains(&c);
        assert_eq!(ours, token, "{c}");
    }
}

#[test]
fn model_is_set_in_json_objects() {
    let sent = rewrite_body(br#"{"model":"client/model","n":1,"a":[1,2]}"#.to_vec(), "route/model");
    let json: serde_json::Value = serde_json::from_slice(&sent).unwrap();
    assert_eq!(json["model"], "route/model");
    assert_eq!(json["n"], 1);
    assert_eq!(json["a"][1], 2);
    assert_eq!(sent, br#"{"a":[1,2],"model":"route/model","n":1}"#.to_vec());
    assert_eq!(rewrite_body(b"{}".to_vec(), "m"), br#"{"model":"m"}"#.to_vec());
    assert_eq!(rewrite_body(b"{}".to_vec(), "q\"\n"), br#"{"model":"q\"\n"}"#.to_vec());
}

#[test]
fn other_json_is_only_compacted() {
    assert_eq!(rewrite_body(b"[ 1, 2 ]".to_vec(), "m"), b"[1,2]".to_vec());
    assert_eq!(rewrite_body(b" \"model\" ".to_vec(), "m"), b"\"model\"".to_vec());
    assert_eq!(rewrite_body(b"null".to_vec(), "m"), b"null".to_vec());
}

#[test]
fn bodies_that_are_no_json_are_kept() {
    for body in [&b""[..], b"hello", b"{", b"{} x", b"\xff\xfe"] {
        assert_eq!(rewrite_body(body.to_vec(), "m"), body.to_vec());
    }
}

#[test]
fn set_model_touches_one_member() {
    let mut v: serde_json::Value =
        serde_json::from_slice(br#"{"model":{"x":1},"temperature":0.5}"#).unwrap();
    set_model(&mut v, "m");
    assert_eq!(v["model"], "m");
    assert_eq!(v["temperature"], 0.5);
    let mut list: serde_json::Value = serde_json::from_slice(b"[1]").unwrap();
    set_model(&mut list, "m");
    assert_eq!(list, serde_json::from_slice::<serde_json::Value>(b"[1]").unwrap());
}

#[test]
fn send_errors_are_classified() {
    match send_error("http://b/", true, true, "slow") {
        RouterError::UpstreamUnavailable(t) => assert_eq!(t, "request to http://b/ timed out"),
        other => panic!("{other:?}"),
    }
    match send_error("http://b/", false, true, "refused") {
        RouterError::UpstreamUnavailable(t) => {
            assert_eq!(t, "failed to connect to http://b/: refused")
        }
        other => panic!("{other:?}"),
    }
    match send_error("http://b/", false, false, "odd") {
        RouterError::Internal(t) => assert_eq!(t, "HTTP request failed: odd"),
        other => panic!("{other:?}"),
    }
}

#[test]
fn responses_are_passed_on() {
    let headers = vec![
        ("content-type".to_string(), Some("text/plain".to_string())),
        ("x-binary".to_string(), None),
    ];
    let r = proxy_response(201, &headers, Ok(vec![1, 2])).unwrap();
    assert_eq!(r.status, 201);
    assert_eq!(r.headers, pairs(&[("content-type", "text/plain"), ("x-binary", "")]));
    assert_eq!(r.body, vec![1, 2]);
    match proxy_response(200, &headers, Err("cut off".to_string())) {
        Err(RouterError::UpstreamProtocol(t)) => {
            assert_eq!(t, "failed to read response body: cut off")
        }
        other => panic!("{other:?}"),
    }
}
