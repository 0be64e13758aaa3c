use std::time::{SystemTime, UNIX_EPOCH};

use openshell::clock::{signed_millis, signed_secs, unix_millis, unix_secs, ClockError};
use openshell::session::{
    command_in, exec_request, exit_code_of, pre_exec_steps, to_u16, window_size, ChannelMessage,
    PreExecStep, PtyRequest, ShellEnd, SshHandler,
};
use openshell::ssh::{
    handshake_reply, hmac_sha256, verify_preface, verify_preface_at, PrefaceBuffer,
    MAX_PREFACE_BYTES,
};

fn signed(secret: &str, token: &str, timestamp: i64, nonce: &str) -> String {
    let signature =
        hmac_sha256(secret.as_bytes(), format!("{token}|{timestamp}|{nonce}").as_bytes());
    format!("NSSH1 {token} {timestamp} {nonce} {signature}")
}

#[test]
fn hmac_matches_a_known_vector() {
    assert_eq!(
        hmac_sha256(b"Jefe", b"what do ya want for nothing?"),
        "5bdcc146bf60754e6a042426089575c75a003f089d2739839dec58b964ec3843"
    );
    assert_eq!(
        hmac_sha256(b"", b""),
        "b613679a0814d9ec772f95d778c35fc5ff1697c493715653c6c712144292c5ad"
    );
}

#[test]
fn signed_handshakes_are_accepted_within_the_skew() {
    let line = signed("secret", "tok", 1000, "n1");
    assert!(verify_preface_at(&line, "secret", 30, 1000));
    assert!(verify_preface_at(&line, "secret", 30, 1030));
    assert!(verify_preface_at(&line, "secret", 30, 970));
    assert!(!verify_preface_at(&line, "secret", 30, 1031));
    assert!(!verify_preface_at(&line, "secret", 30, 969));
    assert!(!verify_preface_at(&line, "other", 30, 1000));
    assert!(verify_preface_at(&format!("  {}\r\n", line.replace(' ', "\t")), "secret", 0, 1000));
}

#[test]
fn far_timestamps_are_far() {
    for (now, timestamp) in [
        (i64::MAX, i64::MIN),
        (i64::MIN, i64::MAX),
        (1_700_000_000, i64::MIN),
        (i64::MIN, 0),
        (i64::MIN, i64::MIN),
        (-1, i64::MAX),
        (i64::MAX, -7),
    ] {
        let line = signed("s", "tok", timestamp, "n");
        let skew = now.abs_diff(timestamp);
        assert!(verify_preface_at(&line, "s", skew, now), "{now} {timestamp}");
        if skew > 0 {
            assert!(!verify_preface_at(&line, "s", skew - 1, now), "{now} {timestamp}");
        }
    }
}

#[test]
fn malformed_handshakes_are_refused() {
    let line = signed("s", "tok", 5, "n");
    assert!(!verify_preface_at(&line.replace("NSSH1", "nssh1"), "s", 9, 5));
    assert!(!verify_preface_at(&format!("{line} x"), "s", 9, 5));
    assert!(!verify_preface_at("", "s", 9, 5));
    assert!(!verify_preface_at(&line.to_uppercase(), "s", 9, 5));
    let tampered = line.replace("tok", "tik");
    assert!(!verify_preface_at(&tampered, "s", 9, 5));
}

#[test]
fn a_timestamp_that_is_no_number_counts_as_zero() {
    let signature = hmac_sha256(b"s", b"tok|0|n");
    let line = format!("NSSH1 tok soon n {signature}");
    assert!(verify_preface_at(&line, "s", 10, 10));
    assert!(!verify_preface_at(&line, "s", 10, 11));
}

#[test]
fn handshakes_are_checked_against_the_clock() {
    let now = SystemTime::now().duration_since(UNIX_EPOCH).unwrap().as_secs() as i64;
    assert_eq!(verify_preface(&signed("s", "t", now, "n"), "s", 60), Ok(true));
    assert_eq!(verify_preface(&signed("s", "t", now - 7200, "n"), "s", 60), Ok(false));
    assert_eq!(verify_preface("hello", "s", 60), Ok(false));
}

#[test]
fn the_clock_is_read() {
    let before = SystemTime::now().duration_since(UNIX_EPOCH).unwrap();
    let secs = unix_secs().unwrap();
    let millis = unix_millis();
    let after = SystemTime::now().duration_since(UNIX_EPOCH).unwrap();
    assert!(before.as_secs() as i64 <= secs && secs <= after.as_secs() as i64);
    assert!(before.as_millis() as i64 <= millis && millis <= after.as_millis() as i64);
}

#[test]
fn times_become_signed_numbers() {
    assert_eq!(signed_secs(5), Ok(5));
    assert_eq!(signed_secs(i64::MAX as u64), Ok(i64::MAX));
    assert_eq!(signed_secs(i64::MAX as u64 + 1), Err(ClockError::OutOfRange));
    for millis in [0u128, 7, i64::MAX as u128, i64::MAX as u128 + 1, u64::MAX as u128, u128::MAX] {
        assert_eq!(signed_millis(millis), millis as i64);
    }
}

#[test]
fn handshake_lines_end_at_a_line_feed_or_the_limit() {
    let mut b = PrefaceBuffer::new();
    assert!(!b.push(b'h'));
    assert!(!b.push(0xff));
    assert!(b.push(b'\n'));
    assert_eq!(b.line(), "h\u{fffd}");
    let mut b = PrefaceBuffer::new();
    for _ in 0..MAX_PREFACE_BYTES {
        assert!(!b.push(b'x'));
    }
    assert!(b.push(b'x'));
    assert_eq!(b.line().len(), MAX_PREFACE_BYTES + 1);
}

#[test]
fn handshakes_are_answered() {
    assert_eq!(handshake_reply(true), "OK\n");
    assert_eq!(handshake_reply(false), "ERR\n");
}

#[test]
fn sizes_are_clamped() {
    assert_eq!(to_u16(0), 0);
    assert_eq!(to_u16(65535), 65535);
    assert_eq!(to_u16(65536), 65535);
    assert_eq!(to_u16(u32::MAX), 65535);
    let w = window_size(0, 0, 70000, 3);
    assert_eq!((w.ws_row, w.ws_col, w.ws_xpixel, w.ws_ypixel), (1, 1, 65535, 3));
}

#[test]
fn the_namespace_is_entered_before_privileges_are_dropped() {
    assert_eq!(
        pre_exec_steps(Some(9)),
        vec![
            PreExecStep::NewSession,
            PreExecStep::ControllingTerminal,
            PreExecStep::EnterNetworkNamespace(9),
            PreExecStep::DropPrivileges,
            PreExecStep::ApplySandbox,
        ]
    );
    assert_eq!(pre_exec_steps(None).len(), 4);
}

#[test]
fn shells_get_their_environment() {
    let mut h = SshHandler::new(
        Some("/work".to_string()),
        Some(3),
        Some("http://10.0.0.1:3128".to_string()),
    );
    assert!(!h.forwards_input());
    assert!(h.window_change_request(1, 1, 0, 0).is_none());
    h.pty_request("", 100, 40);
    let plan = h.start_shell(Some("ls".to_string()));
    assert_eq!(plan.program, "/bin/bash");
    assert_eq!(plan.args, vec!["-lc", "ls"]);
    assert_eq!((plan.size.ws_col, plan.size.ws_row), (100, 40));
    assert_eq!(plan.workdir.as_deref(), Some("/work"));
    assert_eq!(plan.pre_exec.len(), 5);
    let env: Vec<(&str, &str)> =
        plan.env.iter().map(|(a, b)| (a.as_str(), b.as_str())).collect();
    let url = "http://10.0.0.1:3128";
    assert_eq!(
        env,
        vec![
            ("NAVIGATOR_SANDBOX", "1"),
            ("HOME", "/sandbox"),
            ("USER", "sandbox"),
            ("TERM", "xterm-256color"),
            ("HTTP_PROXY", url),
            ("HTTPS_PROXY", url),
            ("ALL_PROXY", url),
            ("http_proxy", url),
            ("https_proxy", url),
            ("grpc_proxy", url),
        ]
    );
    h.started();
    assert!(h.forwards_input());
    let w = h.window_change_request(7, 8, 9, 10).unwrap();
    assert_eq!((w.ws_col, w.ws_row, w.ws_xpixel, w.ws_ypixel), (7, 8, 9, 10));
    let plan = h.start_shell(None);
    assert_eq!(plan.args, vec!["-i"]);
    assert_eq!((plan.size.ws_col, plan.size.ws_row), (80, 24));
    let mut bare = SshHandler::new(None, None, None);
    bare.pty_request("vt100", 1, 1);
    let plan = bare.start_shell(None);
    assert_eq!(plan.env.len(), 4);
    assert_eq!(plan.env[3].1, "vt100");
    let pty = PtyRequest::default();
    assert_eq!((pty.term.as_str(), pty.col_width, pty.row_height), ("xterm-256color", 80, 24));
}

#[test]
fn commands_are_trimmed() {
    assert_eq!(exec_request(b"  ls -l \n"), Some("ls -l".to_string()));
    assert_eq!(exec_request(b" \t\n"), None);
    assert_eq!(exec_request(b"\xffx"), Some("\u{fffd}x".to_string()));
    assert_eq!(command_in("a b"), Some("a b".to_string()));
    assert_eq!(command_in(""), None);
}

#[test]
fn exit_codes_are_reported_unsigned() {
    assert_eq!(exit_code_of(Some(0)), 0);
    assert_eq!(exit_code_of(Some(-2)), 2);
    assert_eq!(exit_code_of(Some(i32::MIN)), 0x8000_0000);
    assert_eq!(exit_code_of(None), 1);
}

#[test]
fn channels_end_in_order_whatever_comes_first() {
    let all = vec![ChannelMessage::Eof, ChannelMessage::ExitStatus(3), ChannelMessage::Close];
    let mut e = ShellEnd::new();
    let mut sent = e.output_finished();
    sent.extend(e.child_exited(Some(3)));
    assert_eq!(sent, all);
    let mut e = ShellEnd::new();
    let mut sent = e.child_exited(Some(-3));
    assert!(sent.is_empty());
    sent.extend(e.output_finished());
    assert_eq!(sent, all);
}
