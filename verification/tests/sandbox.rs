use openshell::proxy::{parse_endpoint_url, ListenAddr};
use openshell::sandbox::{
    load_policy, needs_engine, needs_namespace, path_steps, prepare_filesystem,
    rego_network_policy, run_sandbox, sandbox_end, split_command, start_steps, wait_limit,
    HostPlatform, Isolation, Namespace, NetworkMode, PathStep, PolicySource, ProxyPolicy,
    SandboxEnd, SandboxError, StartStep, WaitEnd, REGO_POLICY_VERSION,
};

fn some(s: &str) -> Option<String> {
    Some(s.to_string())
}

fn proxied() -> Isolation {
    Isolation::proxied(Ok(Namespace { host_ip: "10.200.0.1".to_string(), fd: Some(7) })).unwrap()
}

fn unproxied() -> Isolation {
    Isolation::without_namespace(NetworkMode::Unproxied, HostPlatform::Linux).unwrap()
}

fn proxied_elsewhere() -> Isolation {
    Isolation::without_namespace(NetworkMode::Proxy, HostPlatform::Other).unwrap()
}

fn policy_at(text: &str, port: u16) -> Option<ProxyPolicy> {
    let listen = ListenAddr { text: text.to_string(), port, loopback: true };
    Some(ProxyPolicy { http_addr: Some(listen) })
}

#[test]
fn commands_are_split() {
    let command = vec!["sh".to_string(), "-c".to_string(), "ls".to_string()];
    let (program, args) = split_command(&command).unwrap();
    assert_eq!(program, "sh");
    assert_eq!(args, vec!["-c", "ls"]);
    assert_eq!(split_command(&Vec::new()).unwrap_err().message(), "No command specified");
}

#[test]
fn rego_files_win_over_grpc() {
    match load_policy(some("id"), some("ep"), some("p"), some("d")).unwrap() {
        PolicySource::Rego { policy_file, data_file } => {
            assert_eq!((policy_file.as_str(), data_file.as_str()), ("p", "d"))
        }
        other => panic!("{other:?}"),
    }
    match load_policy(some("id"), some("ep"), some("p"), None).unwrap() {
        PolicySource::Grpc { endpoint, sandbox_id } => {
            assert_eq!((endpoint.as_str(), sandbox_id.as_str()), ("ep", "id"))
        }
        other => panic!("{other:?}"),
    }
    for (id, ep, p, d) in [
        (None, None, None, None),
        (some("id"), None, some("p"), None),
        (None, some("ep"), None, some("d")),
    ] {
        assert_eq!(
            load_policy(id, ep, p, d).unwrap_err().message(),
            "Sandbox policy required. Provide one of:\n\
             - --rego-policy and --rego-data (or NAVIGATOR_REGO_POLICY and NAVIGATOR_REGO_DATA env vars)\n\
             - --sandbox-id and --navigator-endpoint (or NAVIGATOR_SANDBOX_ID and NAVIGATOR_ENDPOINT env vars)"
        );
    }
}

#[test]
fn rego_policies_use_the_proxy() {
    let p = rego_network_policy();
    assert_eq!(p.mode, NetworkMode::Proxy);
    assert!(p.proxy.unwrap().http_addr.is_none());
    assert!(!needs_engine(0));
    assert!(needs_engine(1));
    assert_eq!(REGO_POLICY_VERSION, 1);
}

#[test]
fn owners_are_looked_up_by_name() {
    for l in [prepare_filesystem(None, None), prepare_filesystem(some(""), some(""))] {
        assert!(l.user.is_none() && l.group.is_none());
        assert_eq!(l.user_id(None).unwrap(), None);
        assert_eq!(l.group_id(None).unwrap(), None);
    }
    let l = prepare_filesystem(some("sandbox"), some(""));
    assert_eq!(l.user.as_deref(), Some("sandbox"));
    assert!(l.group.is_none());
    assert_eq!(l.user_id(Some(1000)).unwrap(), Some(1000));
    assert_eq!(l.group_id(None).unwrap(), None);
    assert_eq!(l.user_id(None).unwrap_err().message(), "Sandbox user not found: sandbox");
    let l = prepare_filesystem(None, some("g"));
    assert_eq!(l.user_id(None).unwrap(), None);
    assert_eq!(l.group_id(Some(5)).unwrap(), Some(5));
    assert_eq!(l.group_id(None).unwrap_err().message(), "Sandbox group not found: g");
}

#[test]
fn paths_are_created_then_given_away() {
    let chown = PathStep::Chown { uid: Some(1), gid: None };
    assert_eq!(path_steps(true, Some(1), None), vec![chown]);
    assert_eq!(path_steps(false, Some(1), None), vec![PathStep::Create, chown]);
    let chown = PathStep::Chown { uid: None, gid: Some(2) };
    assert_eq!(path_steps(false, None, Some(2)), vec![PathStep::Create, chown]);
}

#[test]
fn paths_are_created_without_an_owner_too() {
    assert_eq!(path_steps(false, None, None), vec![PathStep::Create]);
    assert!(path_steps(true, None, None).is_empty());
}

#[test]
fn proxy_mode_takes_a_namespace() {
    assert!(needs_namespace(NetworkMode::Proxy, HostPlatform::Linux));
    assert!(!needs_namespace(NetworkMode::Proxy, HostPlatform::Other));
    assert!(!needs_namespace(NetworkMode::Unproxied, HostPlatform::Linux));
    assert!(Isolation::without_namespace(NetworkMode::Proxy, HostPlatform::Linux).is_none());
    let e = Isolation::proxied(Err("no CAP_NET_ADMIN".to_string())).unwrap_err();
    assert_eq!(
        e.message(),
        "Network namespace creation failed and proxy mode requires isolation. Ensure \
         CAP_NET_ADMIN and CAP_SYS_ADMIN are available and iproute2 is installed. \
         Error: no CAP_NET_ADMIN"
    );
    assert_eq!(proxied().namespace().as_ref().unwrap().fd, Some(7));
    assert!(unproxied().namespace().is_none());
    assert!(proxied_elsewhere().namespace().is_none());
}

#[test]
fn the_proxy_listens_on_the_host_side() {
    let policy = Some(ProxyPolicy { http_addr: None });
    let plan = proxied().proxy_plan(&policy, true, &some("http://Gw:8080")).unwrap().unwrap();
    let bind = plan.bind.unwrap();
    assert_eq!((bind.host_ip.as_str(), bind.port), ("10.200.0.1", 3128));
    assert_eq!(plan.control_plane_endpoints.len(), 1);
    assert_eq!(plan.control_plane_endpoints[0].host, "gw");
    assert_eq!(plan.control_plane_endpoints[0].port, 8080);
    let policy = policy_at("127.0.0.1:9", 9);
    let plan = proxied().proxy_plan(&policy, true, &some("gw")).unwrap().unwrap();
    assert_eq!(plan.bind.unwrap().port, 9);
    assert!(plan.control_plane_endpoints.is_empty());
    assert!(proxied()
        .proxy_plan(&policy, true, &None)
        .unwrap()
        .unwrap()
        .control_plane_endpoints
        .is_empty());
    assert!(matches!(
        proxied().proxy_plan(&None, false, &None),
        Err(SandboxError::NoProxyConfig)
    ));
    assert_eq!(
        SandboxError::NoProxyConfig.message(),
        "Network mode is set to proxy but no proxy configuration was provided"
    );
    assert_eq!(
        proxied().proxy_plan(&policy, false, &None).unwrap_err().message(),
        "Proxy mode requires an OPA engine (--rego-policy and --rego-data)"
    );
    assert!(unproxied().proxy_plan(&None, false, &None).unwrap().is_none());
}

#[test]
fn without_namespaces_the_proxy_is_at_the_policys_address() {
    let policy = policy_at("127.0.0.1:9", 9);
    let plan = proxied_elsewhere().proxy_plan(&policy, true, &some("http://gw:1")).unwrap().unwrap();
    assert!(plan.bind.is_none());
    assert_eq!(plan.control_plane_endpoints.len(), 1);
    assert!(matches!(
        proxied_elsewhere().proxy_plan(&None, true, &None),
        Err(SandboxError::NoProxyConfig)
    ));
    assert!(matches!(
        proxied_elsewhere().proxy_plan(&policy, false, &None),
        Err(SandboxError::NoPolicyEngine)
    ));
    let plan = proxied_elsewhere().ssh_plan(&policy, some("a"), None, 0).unwrap();
    assert_eq!((plan.netns_fd, plan.proxy_url.as_deref()), (None, Some("http://127.0.0.1:9")));
    let policy = Some(ProxyPolicy { http_addr: None });
    let plan = proxied_elsewhere().ssh_plan(&policy, some("a"), None, 0).unwrap();
    assert_eq!(plan.proxy_url, None);
}

#[test]
fn ssh_shells_are_isolated_too() {
    let policy = Some(ProxyPolicy { http_addr: None });
    let plan = proxied().ssh_plan(&policy, some("0.0.0.0:22"), some("s"), 30).unwrap();
    assert_eq!(plan.listen_addr, "0.0.0.0:22");
    assert_eq!((plan.secret.as_str(), plan.skew_secs), ("s", 30));
    assert_eq!(plan.netns_fd, Some(7));
    assert_eq!(plan.proxy_url.as_deref(), Some("http://10.200.0.1:3128"));
    assert!(proxied().ssh_plan(&policy, None, some("s"), 30).is_none());
    let plan = unproxied().ssh_plan(&policy, some("a"), None, 0).unwrap();
    assert_eq!((plan.secret.as_str(), plan.netns_fd, plan.proxy_url), ("", None, None));
}

#[test]
fn isolation_comes_first() {
    assert_eq!(
        start_steps(NetworkMode::Proxy, HostPlatform::Linux, true),
        vec![
            StartStep::PrepareFilesystem,
            StartStep::CreateNamespace,
            StartStep::StartProxy,
            StartStep::StartSsh,
            StartStep::Spawn,
            StartStep::Wait,
        ]
    );
    assert_eq!(
        start_steps(NetworkMode::Unproxied, HostPlatform::Linux, false),
        vec![StartStep::PrepareFilesystem, StartStep::Spawn, StartStep::Wait]
    );
    assert_eq!(
        start_steps(NetworkMode::Proxy, HostPlatform::Other, false),
        vec![
            StartStep::PrepareFilesystem,
            StartStep::StartProxy,
            StartStep::Spawn,
            StartStep::Wait,
        ]
    );
}

#[test]
fn sandboxes_end() {
    assert_eq!(wait_limit(0), None);
    assert_eq!(wait_limit(5), Some(5));
    assert_eq!(sandbox_end(WaitEnd::Exited(3)), SandboxEnd { kill: false, exit_code: 3 });
    assert_eq!(sandbox_end(WaitEnd::TimedOut), SandboxEnd { kill: true, exit_code: 124 });
}

#[test]
fn a_sandbox_needs_a_command_and_a_policy() {
    let command = vec!["bash".to_string(), "-l".to_string()];
    let start = run_sandbox(&command, some("id"), some("ep"), None, None).unwrap();
    assert_eq!(start.program, "bash");
    assert_eq!(start.args, vec!["-l"]);
    assert!(matches!(start.source, PolicySource::Grpc { .. }));
    assert!(matches!(
        run_sandbox(&Vec::new(), None, None, None, None),
        Err(SandboxError::NoCommand)
    ));
    assert!(matches!(
        run_sandbox(&command, some("id"), None, None, some("d")),
        Err(SandboxError::NoPolicySource)
    ));
}

#[test]
fn the_proxy_url_names_the_proxy() {
    let policy = Some(ProxyPolicy { http_addr: None });
    let proxy = proxied().proxy_plan(&policy, true, &None).unwrap().unwrap();
    let ssh = proxied().ssh_plan(&policy, some("a"), None, 0).unwrap();
    let endpoint = parse_endpoint_url(&ssh.proxy_url.unwrap()).unwrap();
    let bind = proxy.bind.unwrap();
    assert_eq!((endpoint.host, endpoint.port), (bind.host_ip, bind.port));
}
