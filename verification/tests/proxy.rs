use openshell::connect::{
    act_on, allow_control_plane, begin_evaluation, connect_log, deny_without_identity_binding,
    evaluate_opa_tcp, header_reply, method_reply, tunnel_rule, BinaryPath, DecisionEngine,
    Evidence, PolicyVerdict, Reply, TunnelAction, TunnelRule,
};
use openshell::proxy::{
    choose_listen_addr, is_control_plane, parse_endpoint_url, parse_target, read_request,
    request_line, AllowedEndpoint, ConnectRequest, HeaderBuffer, HeaderProgress, HeaderStep,
    ListenAddr, ProxyError, MAX_HEADER_BYTES,
};

fn addr(text: &str, port: u16, loopback: bool) -> ListenAddr {
    ListenAddr { text: text.to_string(), port, loopback }
}

fn path(s: &str) -> BinaryPath {
    BinaryPath { raw: s.as_bytes().to_vec(), display: s.to_string() }
}

fn endpoint(host: &str, port: u16) -> AllowedEndpoint {
    AllowedEndpoint { host: host.to_string(), port }
}

#[test]
fn endpoint_urls_are_parsed() {
    let ep = parse_endpoint_url("http://Gateway.Local:8080").unwrap();
    assert_eq!((ep.host.as_str(), ep.port), ("gateway.local", 8080));
    let ep = parse_endpoint_url("https://h:443").unwrap();
    assert_eq!((ep.host.as_str(), ep.port), ("h", 443));
    let ep = parse_endpoint_url("http://[::1]:80").unwrap();
    assert_eq!((ep.host.as_str(), ep.port), ("[::1]", 80));
    for url in ["h:80", "ftp://h:80", "http://h", "http://h:", "http://h:x", "http://h:65536",
        "http://h:80/", "HTTP://h:80"] {
        assert!(parse_endpoint_url(url).is_none(), "{url}");
    }
}

#[test]
fn endpoints_from_urls_are_reachable_by_connect() {
    let eps = vec![parse_endpoint_url("https://Gateway.Local:443").unwrap()];
    let request = "CONNECT GATEWAY.local:443 HTTP/1.1\r\n\r\n";
    match read_request(request).unwrap() {
        ConnectRequest::Tunnel { host, port } => match tunnel_rule(&eps, &host, port) {
            TunnelRule::ControlPlane(d) => {
                assert!(d.allowed);
                assert_eq!(d.matched_policy.as_deref(), Some("control_plane"));
            }
            other => panic!("{other:?}"),
        },
        other => panic!("{other:?}"),
    }
}

#[test]
fn the_bind_address_wins() {
    let a = choose_listen_addr(Some(addr("10.0.0.1:1", 1, false)), Some(addr("x", 2, true)));
    assert_eq!(a.unwrap().port, 1);
    let a = choose_listen_addr(None, Some(addr("127.0.0.1:2", 2, true)));
    assert_eq!(a.unwrap().port, 2);
    let e = choose_listen_addr(None, Some(addr("1.2.3.4:2", 2, false))).unwrap_err();
    assert_eq!(e.message(), "Proxy http_addr must be loopback-only: 1.2.3.4:2");
    let e = choose_listen_addr(None, None).unwrap_err();
    assert_eq!(e.message(), "Proxy policy must set http_addr or provide a bind address");
}

#[test]
fn headers_are_read_piece_by_piece() {
    let mut b = HeaderBuffer::new();
    assert_eq!(b.next_step(), HeaderStep::Read(MAX_HEADER_BYTES));
    assert_eq!(b.feed(b"CONNECT h:1 HTTP/1.1\r\n\r"), HeaderProgress::Incomplete);
    assert_eq!(b.next_step(), HeaderStep::Read(MAX_HEADER_BYTES - 23));
    assert_eq!(b.feed(b"\nmore"), HeaderProgress::Complete);
    assert_eq!(b.request(), "CONNECT h:1 HTTP/1.1\r\n\r\nmore");
    let mut b = HeaderBuffer::new();
    assert_eq!(b.feed(b""), HeaderProgress::Closed);
    assert_eq!(b.feed(&vec![b'x'; MAX_HEADER_BYTES]), HeaderProgress::Incomplete);
    assert_eq!(b.next_step(), HeaderStep::TooLarge);
}

#[test]
fn malformed_bytes_are_replaced() {
    let mut b = HeaderBuffer::new();
    let bytes = b"CONNECT \xffh:1\r\n\r\n";
    assert_eq!(b.feed(bytes), HeaderProgress::Complete);
    assert_eq!(b.request(), String::from_utf8_lossy(bytes));
    assert_eq!(b.request(), "CONNECT \u{fffd}h:1\r\n\r\n");
}

#[test]
fn request_lines_end_at_cr_lf() {
    assert_eq!(request_line("GET / \n x\r\nHost: h\r\n\r\n"), "GET / \n x");
    assert_eq!(request_line("no end"), "no end");
    assert_eq!(request_line("\r\nx"), "");
}

#[test]
fn requests_are_read() {
    assert!(matches!(read_request("GET / HTTP/1.1\r\n\r\n"), Ok(ConnectRequest::OtherMethod)));
    assert!(matches!(read_request("connect h:1\r\n"), Ok(ConnectRequest::OtherMethod)));
    assert!(matches!(read_request("\r\n\r\n"), Ok(ConnectRequest::OtherMethod)));
    assert!(matches!(
        read_request("CONNECT h:1\r\n\r\n"),
        Ok(ConnectRequest::Tunnel { host, port: 1 }) if host == "h"
    ));
    assert!(matches!(
        read_request("CONNECT\r\n\r\n"),
        Err(ProxyError::MissingPort(t)) if t.is_empty()
    ));
}

#[test]
fn targets_are_parsed() {
    assert_eq!(parse_target("Host:443").unwrap(), ("Host".to_string(), 443));
    assert_eq!(parse_target(":0").unwrap(), (String::new(), 0));
    assert_eq!(parse_target("h").unwrap_err().message(), "CONNECT target missing port: h");
    assert_eq!(
        parse_target("a:b:1").unwrap_err().message(),
        "Invalid port in CONNECT target: a:b:1"
    );
}

#[test]
fn the_control_plane_is_allowed_and_nothing_else() {
    let eps = vec![endpoint("gw", 8080)];
    assert!(is_control_plane(&eps, "gw", 8080));
    assert!(!is_control_plane(&eps, "gw", 8081));
    assert!(!is_control_plane(&eps, "GW", 8080));
    match tunnel_rule(&eps, "Example.COM", 443) {
        TunnelRule::Evaluate { host } => assert_eq!(host, "example.com"),
        other => panic!("{other:?}"),
    }
    let d = allow_control_plane();
    let log = connect_log(&d);
    assert_eq!(
        (log.action, log.binary.as_str(), log.binary_pid.as_str(), log.engine),
        ("allow", "-", "-", "control_plane")
    );
    assert_eq!((log.policy.as_str(), log.ancestors.as_str(), log.cmdline.as_str()),
        ("control_plane", "-", "-"));
}

fn evidence() -> Evidence {
    Evidence {
        entrypoint_pid: 10,
        peer: Ok((path("/usr/bin/curl"), 42)),
        binary_hash: Ok("hash".to_string()),
        ancestors: vec![path("/bin/bash"), path("/bin/init")],
        ancestor_checks: vec![Ok(()), Ok(())],
        cmdline_paths: vec![path("/a.sh"), path("/b.sh")],
        verdict: Ok(PolicyVerdict {
            allowed: true,
            matched_policy: Some("web".to_string()),
            reason: "ok".to_string(),
        }),
    }
}

#[test]
fn full_evidence_leaves_it_to_the_engine() {
    let d = evaluate_opa_tcp(evidence());
    assert!(d.allowed);
    assert_eq!(act_on(&d), TunnelAction::Open(Reply::Established));
    let log = connect_log(&d);
    assert_eq!(log.action, "allow");
    assert_eq!(log.binary, "/usr/bin/curl");
    assert_eq!(log.binary_pid, "42");
    assert_eq!(log.ancestors, "/bin/bash -> /bin/init");
    assert_eq!(log.cmdline, "/a.sh, /b.sh");
    assert_eq!((log.engine, log.policy.as_str(), log.reason.as_str()), ("opa", "web", "ok"));
    let mut e = evidence();
    e.verdict = Ok(PolicyVerdict {
        allowed: false,
        matched_policy: None,
        reason: "no rule".to_string(),
    });
    let d = evaluate_opa_tcp(e);
    assert!(!d.allowed);
    assert_eq!(act_on(&d), TunnelAction::Refuse(Reply::Forbidden));
    assert_eq!(connect_log(&d).policy, "-");
}

#[test]
fn a_denial_names_no_policy() {
    let mut e = evidence();
    e.verdict = Ok(PolicyVerdict {
        allowed: false,
        matched_policy: Some("web".to_string()),
        reason: "binary not listed".to_string(),
    });
    let d = evaluate_opa_tcp(e);
    assert!(!d.allowed && d.matched_policy.is_none());
    assert_eq!(d.reason, "binary not listed");
    assert_eq!(connect_log(&d).policy, "-");
}

#[test]
fn every_gap_in_the_evidence_is_a_denial() {
    let mut e = evidence();
    e.entrypoint_pid = 0;
    let d = evaluate_opa_tcp(e);
    assert!(!d.allowed && d.binary.is_none());
    assert_eq!(d.reason, "entrypoint process not yet spawned");
    let mut e = evidence();
    e.peer = Err("gone".to_string());
    let d = evaluate_opa_tcp(e);
    assert!(!d.allowed && d.binary_pid.is_none());
    assert_eq!(d.reason, "failed to resolve peer binary: gone");
    let mut e = evidence();
    e.binary_hash = Err("changed".to_string());
    let d = evaluate_opa_tcp(e);
    assert!(!d.allowed && d.ancestors.is_empty());
    assert_eq!(d.binary_pid, Some(42));
    assert_eq!(d.reason, "binary integrity check failed: changed");
    let mut e = evidence();
    e.ancestor_checks[1] = Err("changed".to_string());
    let d = evaluate_opa_tcp(e);
    assert!(!d.allowed && d.cmdline_paths.is_empty());
    assert_eq!(d.ancestors.len(), 2);
    assert_eq!(d.reason, "ancestor integrity check failed for /bin/init: changed");
    let mut e = evidence();
    e.verdict = Err("broken".to_string());
    let d = evaluate_opa_tcp(e);
    assert!(!d.allowed && d.matched_policy.is_none());
    assert_eq!(d.cmdline_paths.len(), 2);
    assert_eq!(d.reason, "policy evaluation error: broken");
    let d = deny_without_identity_binding();
    assert!(!d.allowed);
    assert_eq!(d.engine, DecisionEngine::Opa);
    assert_eq!(d.reason, "identity binding unavailable on this platform");
}

#[test]
fn the_engine_is_asked_about_everything_found() {
    let lookup = begin_evaluation(10).unwrap();
    let check = lookup.resolved(Ok((path("/x"), 7))).unwrap();
    let walk = check.verified(Ok("h".to_string())).unwrap();
    let stage = walk.collected(vec![path("/p")]);
    assert_eq!(stage.pending().unwrap().display, "/p");
    let stage = stage.verified(Ok(())).unwrap();
    assert!(stage.pending().is_none());
    let walk = stage.complete();
    let known: Vec<String> = walk.exclude().into_iter().map(|p| p.display).collect();
    assert_eq!(known, vec!["/p", "/x"]);
    let query = walk.collected(vec![path("/s")]);
    let input = query.input("h", 443);
    assert_eq!((input.host.as_str(), input.port, input.binary_sha256.as_str()), ("h", 443, "h"));
    assert_eq!(input.binary_path.raw, b"/x".to_vec());
    assert_eq!(input.ancestors.len() + input.cmdline_paths.len(), 2);
    assert!(begin_evaluation(0).is_err());
}

#[test]
fn over_long_headers_are_answered() {
    let mut b = HeaderBuffer::new();
    assert_eq!(header_reply(&b.next_step()), None);
    b.feed(&vec![b'x'; MAX_HEADER_BYTES - 1]);
    assert_eq!(header_reply(&b.next_step()), None);
    b.feed(b"x");
    let reply = header_reply(&b.next_step()).unwrap();
    assert_eq!(reply.head(), "HTTP/1.1 431 Request Header Fields Too Large\r\n\r\n");
}

#[test]
fn other_methods_are_answered() {
    let reply = method_reply(&read_request("GET / HTTP/1.1\r\n\r\n").unwrap()).unwrap();
    assert_eq!(reply.head(), "HTTP/1.1 405 Method Not Allowed\r\n\r\n");
    assert_eq!(method_reply(&read_request("CONNECT h:1\r\n\r\n").unwrap()), None);
}

#[test]
fn replies_are_response_heads() {
    assert_eq!(
        Reply::HeaderTooLarge.head(),
        "HTTP/1.1 431 Request Header Fields Too Large\r\n\r\n"
    );
    assert_eq!(Reply::MethodNotAllowed.head(), "HTTP/1.1 405 Method Not Allowed\r\n\r\n");
    assert_eq!(Reply::Forbidden.head(), "HTTP/1.1 403 Forbidden\r\n\r\n");
    assert_eq!(Reply::Established.head(), "HTTP/1.1 200 Connection Established\r\n\r\n");
}
