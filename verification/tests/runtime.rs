use std::collections::VecDeque;

use openshell::container_logs::{
    append_log_chunk, capture, flush_partial, format_fetched_logs, format_recent_logs, keep_log,
    push_fetched, push_trimmed_lines, stream_error_line, LogOutput, LogStreams, RECENT_LOG_LINES,
};
use openshell::runtime::{
    after_restart, detect_openshell_workload_kind, is_valid_kubeconfig, kubeconfig_command,
    no_workload_message, node_cleanup, nodes_removed, openshell_workload_exists, probed,
    stale_nodes, stale_nodes_command,
    ContainerState, ExitStep, ExitWait, GatewayFailure, GatewayStep, GatewayWait, HealthStatus,
    KubeconfigFailure, KubeconfigStep, KubeconfigWait, NodeCleanup, RestartStep, WorkloadKind,
    WorkloadSearch,
};

fn strings(v: &[&str]) -> Vec<String> {
    v.iter().map(|s| s.to_string()).collect()
}

#[test]
fn chunks_are_cut_into_lines() {
    let mut partial = String::new();
    assert_eq!(append_log_chunk(&mut partial, "one\r\n\n\r\ntw"), strings(&["one"]));
    assert_eq!(partial, "tw");
    assert_eq!(append_log_chunk(&mut partial, "o\nthree"), strings(&["two"]));
    assert_eq!(partial, "three");
    assert_eq!(append_log_chunk(&mut partial, ""), Vec::<String>::new());
    assert_eq!(flush_partial(&mut partial), Some("three".to_string()));
    assert_eq!(partial, "");
    let mut blank = " \t".to_string();
    assert_eq!(flush_partial(&mut blank), None);
    assert_eq!(blank, "");
}

#[test]
fn lines_do_not_depend_on_the_pieces() {
    let text: Vec<char> = "a\nbé\r\n\n c \n\rd".chars().collect();
    let mut whole = String::new();
    let expected = append_log_chunk(&mut whole, &text.iter().collect::<String>());
    for cut in 0..=text.len() {
        let mut partial = String::new();
        let mut lines =
            append_log_chunk(&mut partial, &text[..cut].iter().collect::<String>());
        lines.extend(append_log_chunk(&mut partial, &text[cut..].iter().collect::<String>()));
        assert_eq!(lines, expected, "{cut}");
        assert_eq!(partial, whole);
    }
    assert_eq!(expected, strings(&["a", "bé", " c "]));
}

#[test]
fn streams_keep_apart() {
    let mut s = LogStreams::new();
    assert!(s.accept(&LogOutput::StdOut(b"out".to_vec())).is_empty());
    assert!(s.accept(&LogOutput::StdErr(b"err".to_vec())).is_empty());
    assert!(s.accept(&LogOutput::Console(b" con ".to_vec())).is_empty());
    assert!(s.accept(&LogOutput::StdIn).is_empty());
    assert_eq!(s.accept(&LogOutput::StdErr(b"or\n\xff\n".to_vec())), strings(&["error", "\u{fffd}"]));
    assert_eq!(s.finish(), strings(&["out", "con"]));
    assert!(s.finish().is_empty());
    assert_eq!(stream_error_line("gone"), "[log stream error] gone");
}

#[test]
fn the_last_lines_are_kept() {
    let mut recent: VecDeque<String> = VecDeque::new();
    assert_eq!(format_recent_logs(&recent), "container logs: none received");
    for i in 0..40 {
        keep_log(&mut recent, format!("l{i}"));
        let first = if i < RECENT_LOG_LINES { 0 } else { i + 1 - RECENT_LOG_LINES };
        assert_eq!(recent.front().unwrap(), &format!("l{first}"));
        assert_eq!(recent.len(), (i + 1).min(15));
    }
    assert!(format_recent_logs(&recent).starts_with("container logs:\n  l25\n  l26\n"));
    assert!(format_recent_logs(&recent).ends_with("\n  l39"));
}

#[test]
fn fetched_logs_are_trimmed() {
    let mut lines = Vec::new();
    assert_eq!(format_fetched_logs(&lines), "container logs: none available");
    push_fetched(&mut lines, &LogOutput::StdOut(b" a \r\n\n b\rc\n".to_vec()));
    push_fetched(&mut lines, &LogOutput::StdIn);
    push_fetched(&mut lines, &LogOutput::Console(b"\xffd".to_vec()));
    assert_eq!(lines, strings(&["a", "b\rc", "\u{fffd}d"]));
    assert_eq!(format_fetched_logs(&lines), "container logs:\n  a\n  b\rc\n  \u{fffd}d");
}

#[test]
fn trimmed_lines_agree_with_std() {
    for t in ["", "\n", "a", "a\n", "a\nb", " a \r\n\r\n b ", "\r\nx\r", "a\rb\n\n\n c"] {
        let mut ours = Vec::new();
        push_trimmed_lines(&mut ours, t);
        let std: Vec<&str> = t.lines().map(str::trim).filter(|l| !l.is_empty()).collect();
        assert_eq!(ours, std, "{t:?}");
    }
}

#[test]
fn output_is_captured() {
    let mut buffer = String::new();
    capture(&mut buffer, &LogOutput::StdOut(b"a\n".to_vec()));
    capture(&mut buffer, &LogOutput::StdIn);
    capture(&mut buffer, &LogOutput::StdErr(b"\xff".to_vec()));
    assert_eq!(buffer, "a\n\u{fffd}");
}

#[test]
fn kubeconfigs_have_a_version_and_clusters() {
    assert!(is_valid_kubeconfig("apiVersion: v1\nclusters:\n- x"));
    assert!(is_valid_kubeconfig("clusters: []\napiVersion: v1"));
    assert!(!is_valid_kubeconfig("apiVersion: v1"));
    assert!(!is_valid_kubeconfig("clusters:"));
    assert!(!is_valid_kubeconfig(""));
    assert_eq!(kubeconfig_command("/k"), strings(&["cat", "/k"]));
}

#[test]
fn the_kubeconfig_is_waited_for() {
    let mut w = KubeconfigWait::new();
    for _ in 0..29 {
        assert!(matches!(w.begin(), KubeconfigStep::Check));
        assert!(matches!(w.checked(None), KubeconfigStep::Ask));
        assert!(matches!(w.asked(None), KubeconfigStep::Wait));
    }
    assert!(matches!(w.begin(), KubeconfigStep::Check));
    match w.asked(Some("apiVersion: v1\nclusters:".to_string())) {
        KubeconfigStep::Done(text) => assert_eq!(text, "apiVersion: v1\nclusters:"),
        other => panic!("{other:?}"),
    }
}

#[test]
fn the_wait_for_the_kubeconfig_ends() {
    let mut w = KubeconfigWait::new();
    for _ in 0..29 {
        assert!(matches!(w.asked(Some("half".to_string())), KubeconfigStep::Wait));
    }
    match w.asked(None) {
        KubeconfigStep::Fail(f) => {
            assert_eq!(f.message("LOGS"), "failed waiting for kubeconfig\nLOGS")
        }
        other => panic!("{other:?}"),
    }
    let mut w = KubeconfigWait::new();
    for _ in 0..30 {
        assert!(matches!(w.asked(Some("half".to_string())), KubeconfigStep::Wait));
    }
    match w.begin() {
        KubeconfigStep::Fail(f) => {
            assert_eq!(f.message("LOGS"), "timed out waiting for kubeconfig\nLOGS")
        }
        other => panic!("{other:?}"),
    }
    match KubeconfigWait::new().checked(Some("exited".to_string())) {
        KubeconfigStep::Fail(f) => {
            assert!(matches!(f, KubeconfigFailure::NotRunning(_)));
            assert_eq!(
                f.message("LOGS"),
                "gateway container is not running while waiting for kubeconfig: exited\nLOGS"
            );
        }
        other => panic!("{other:?}"),
    }
}

fn state(health: Option<HealthStatus>) -> Option<ContainerState> {
    Some(ContainerState { running: Some(true), exit_code: None, error: None, health })
}

fn head(s: GatewayStep) -> String {
    match s {
        GatewayStep::Fail(f) => f.message(&VecDeque::new()),
        other => panic!("{other:?}"),
    }
}

const NO_LOGS: &str = "\ncontainer logs: none received";

#[test]
fn the_gateway_is_ready_once_healthy() {
    let mut w = GatewayWait::new();
    assert!(matches!(w.begin(), GatewayStep::Inspect));
    assert!(matches!(w.inspected(state(Some(HealthStatus::Starting))), GatewayStep::Wait));
    assert!(matches!(w.inspected(state(Some(HealthStatus::Unhealthy))), GatewayStep::Wait));
    assert!(matches!(w.inspected(state(None)), GatewayStep::Wait));
    assert!(matches!(w.inspected(state(Some(HealthStatus::Healthy))), GatewayStep::Ready));
}

#[test]
fn the_gateway_needs_a_health_check() {
    for health in [None, Some(HealthStatus::Absent), Some(HealthStatus::Empty)] {
        let text = head(GatewayWait::new().inspected(state(health)));
        assert_eq!(text, format!("gateway container does not expose a health check{NO_LOGS}"));
    }
}

#[test]
fn the_wait_for_the_gateway_ends() {
    let mut w = GatewayWait::new();
    for _ in 0..179 {
        assert!(matches!(w.inspected(state(Some(HealthStatus::Unhealthy))), GatewayStep::Wait));
    }
    assert_eq!(
        head(w.inspected(state(Some(HealthStatus::Unhealthy)))),
        format!("gateway health check reported unhealthy{NO_LOGS}")
    );
    let mut w = GatewayWait::new();
    for _ in 0..180 {
        assert!(matches!(w.inspected(state(Some(HealthStatus::Starting))), GatewayStep::Wait));
    }
    assert_eq!(
        head(w.begin()),
        format!("timed out waiting for gateway health check{NO_LOGS}")
    );
}

#[test]
fn a_gateway_that_exits_is_reported() {
    assert_eq!(
        head(GatewayWait::new().inspected(None)),
        format!("gateway container exited unexpectedly (exit_code=-1){NO_LOGS}")
    );
    let mut s = state(Some(HealthStatus::Healthy)).unwrap();
    s.running = Some(false);
    s.exit_code = Some(137);
    s.error = Some("oom".to_string());
    let step = GatewayWait::new().inspected(Some(s));
    match &step {
        GatewayStep::Fail(f) => assert!(f.reads_logs()),
        other => panic!("{other:?}"),
    }
    assert_eq!(
        head(step),
        format!("gateway container exited unexpectedly (exit_code=137), error=oom{NO_LOGS}")
    );
    let mut s = state(None).unwrap();
    s.running = None;
    s.error = Some(String::new());
    assert_eq!(
        head(GatewayWait::new().inspected(Some(s))),
        format!("gateway container exited unexpectedly (exit_code=-1){NO_LOGS}")
    );
    assert!(!GatewayFailure::Unhealthy.reads_logs());
    assert!(!GatewayFailure::NoHealthCheck.reads_logs());
    assert!(GatewayFailure::TimedOut.reads_logs());
    let mut recent = VecDeque::new();
    keep_log(&mut recent, "boom".to_string());
    assert_eq!(
        GatewayFailure::TimedOut.message(&recent),
        "timed out waiting for gateway health check\ncontainer logs:\n  boom"
    );
}

#[test]
fn exit_codes_are_waited_for() {
    let mut w = ExitWait::new();
    for _ in 0..19 {
        assert_eq!(w.begin(), ExitStep::Ask);
        assert_eq!(w.inspected(None), ExitStep::Wait);
    }
    assert_eq!(w.inspected(Some(-7)), ExitStep::Exit(-7));
    let mut w = ExitWait::new();
    for _ in 0..20 {
        assert_eq!(w.inspected(None), ExitStep::Wait);
    }
    assert_eq!(w.begin(), ExitStep::Exit(1));
}

#[test]
fn stale_nodes_are_deleted() {
    assert_eq!(
        stale_nodes_command("/k"),
        strings(&[
            "sh",
            "-c",
            "KUBECONFIG=/k kubectl get nodes --no-headers -o custom-columns=NAME:.metadata.name,STATUS:.status.conditions[-1].status 2>/dev/null | grep -v '\\bTrue$' | awk '{print $1}'",
        ])
    );
    assert!(stale_nodes("a\nb", 1).is_empty());
    let nodes = stale_nodes(" a \n\nb\n", 0);
    assert_eq!(nodes, strings(&["a", "b"]));
    match node_cleanup("/k", &nodes) {
        NodeCleanup::Delete(command) => {
            assert_eq!(
                command,
                strings(&[
                    "sh",
                    "-c",
                    "KUBECONFIG=/k kubectl delete node a b --ignore-not-found",
                ])
            );
        }
        other => panic!("{other:?}"),
    }
    assert!(matches!(node_cleanup("/k", &Vec::new()), NodeCleanup::Nothing));
}

#[test]
fn removed_nodes_are_counted() {
    let nodes = strings(&["a", "b", "ab"]);
    assert_eq!(nodes_removed(&nodes, 0, ""), 3);
    assert_eq!(nodes_removed(&nodes, 1, ""), 0);
    assert_eq!(nodes_removed(&nodes, 1, "error: the server is gone"), 0);
    assert_eq!(nodes_removed(&nodes, 1, "node \"ab\" deleted\nerror: timed out\n"), 1);
    assert_eq!(nodes_removed(&nodes, -1, "node \"a\" deleted\nnode \"b\" deleted\n"), 2);
    assert_eq!(nodes_removed(&Vec::new(), 0, ""), 0);
}

#[test]
fn the_workload_is_searched_for() {
    let first = match detect_openshell_workload_kind() {
        WorkloadSearch::Probe(kind) => kind,
        other => panic!("{other:?}"),
    };
    assert_eq!(first, WorkloadKind::StatefulSet);
    assert!(matches!(probed(first, 0), WorkloadSearch::Found(WorkloadKind::StatefulSet)));
    assert!(matches!(probed(first, 1), WorkloadSearch::Probe(WorkloadKind::Deployment)));
    assert!(matches!(
        probed(WorkloadKind::Deployment, 0),
        WorkloadSearch::Found(WorkloadKind::Deployment)
    ));
    assert!(matches!(probed(WorkloadKind::Deployment, 2), WorkloadSearch::NotFound));
    assert_eq!(
        no_workload_message(),
        "no openshell workload (statefulset or deployment) found in namespace 'openshell'"
    );
    assert!(openshell_workload_exists(&Ok(WorkloadKind::Deployment)));
    assert!(!openshell_workload_exists(&Err("down".to_string())));
}

#[test]
fn only_a_successful_restart_is_waited_for() {
    let kind = WorkloadKind::Deployment;
    match after_restart(kind, "/k", "restarted", 0) {
        RestartStep::Await(command) => assert_eq!(
            command,
            strings(&[
                "sh",
                "-c",
                "KUBECONFIG=/k kubectl rollout status deployment/openshell -n openshell \
                 --timeout=180s",
            ])
        ),
        other => panic!("{other:?}"),
    }
    for exit_code in [1, -1, 137] {
        match after_restart(kind, "/k", "denied", exit_code) {
            RestartStep::Fail(message) => assert_eq!(
                message,
                format!(
                    "failed to restart openshell deployment/openshell (exit code {exit_code})\n\
                     denied"
                )
            ),
            other => panic!("{other:?}"),
        }
    }
}

#[test]
fn workload_commands_name_the_workload() {
    let line = |v: Vec<String>| v[2].clone();
    let ss = WorkloadKind::StatefulSet;
    assert_eq!(
        line(ss.probe_command("/k")),
        "KUBECONFIG=/k kubectl get statefulset/openshell -n openshell -o name 2>/dev/null"
    );
    assert_eq!(
        line(ss.restart_command("/k")),
        "KUBECONFIG=/k kubectl rollout restart statefulset/openshell -n openshell"
    );
    assert_eq!(
        line(WorkloadKind::Deployment.status_command("/k")),
        "KUBECONFIG=/k kubectl rollout status deployment/openshell -n openshell --timeout=180s"
    );
    assert_eq!(ss.restarted("out", 0), Ok(()));
    assert_eq!(
        ss.restarted("out", 2),
        Err("failed to restart openshell statefulset/openshell (exit code 2)\nout".to_string())
    );
    assert_eq!(ss.rolled_out("", 0), Ok(()));
    assert_eq!(
        ss.rolled_out("late", -1),
        Err("openshell rollout status failed for statefulset/openshell (exit code -1)\nlate"
            .to_string())
    );
}
