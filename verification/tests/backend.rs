//! The backend's decisions: backoff, retries, and commands.

use hexrust::backend::{after_run_at, backend_error_at, handle_cmd, reconnect_delay, BackendAction, MAX_RECONNECT_DELAY};
use hexrust::model::{BackendCmd, IrcConfig, UiEvent};

#[test]
fn backoff_doubles_then_holds_at_the_cap() {
    let d: Vec<u64> = (0..=8).map(reconnect_delay).collect();
    assert_eq!(d, vec![1, 1, 2, 4, 8, 16, 30, 30, 30]);
    assert_eq!(reconnect_delay(u32::MAX), MAX_RECONNECT_DELAY);
}

#[test]
fn backoff_never_shrinks() {
    let mut prev = 0;
    for a in 0..100 {
        let d = reconnect_delay(a);
        assert!(d >= prev && (1..=30).contains(&d));
        prev = d;
    }
}

#[test]
fn a_dropped_connection_is_retried_and_reported() {
    let r = after_run_at(1, 0, false, None, "[t]").expect("retried");
    assert_eq!((r.attempt, r.delay), (1, 1));
    assert!(matches!(&r.events[0], UiEvent::ConnectionDown { reason, .. } if reason == "connection closed by server"));
    assert!(matches!(&r.events[1], UiEvent::Append { line, buffer, .. }
        if buffer == "Status" && line == "[t] *** connection closed by server. Reconnecting in 1s (attempt 1)…"));
}

#[test]
fn failures_back_off() {
    let r = after_run_at(2, 3, false, Some("connect refused"), "[t]").unwrap();
    assert_eq!((r.attempt, r.delay), (4, 8));
    assert!(matches!(&r.events[1], UiEvent::Append { line, .. }
        if line == "[t] *** connect refused. Reconnecting in 8s (attempt 4)…"));
}

#[test]
fn an_explicit_disconnect_is_not_retried() {
    assert!(after_run_at(1, 0, true, None, "[t]").is_none());
    let acts = handle_cmd(BackendCmd::Disconnect { conn_id: 1, reason: "bye".into() }, true, "[t]");
    assert!(matches!(acts[0], BackendAction::MarkQuit { conn_id: 1 }));
    assert!(matches!(&acts[1], BackendAction::Forward { line, .. } if line == "QUIT :bye"));
    assert!(matches!(acts[2], BackendAction::Forget { conn_id: 1 }));
    assert!(matches!(&acts[3], BackendAction::Post(UiEvent::ConnectionDown { reason, .. }) if reason == "bye"));
}

#[test]
fn sends_to_a_dead_connection_are_reported() {
    let acts = handle_cmd(BackendCmd::SendRaw { conn_id: 5, line: "PRIVMSG #c :hi".into() }, false, "[t]");
    assert!(matches!(&acts[0], BackendAction::Post(UiEvent::Append { line, .. }) if line == "[t] *** Not connected (conn_id=5)."));
    let acts = handle_cmd(BackendCmd::SendRaw { conn_id: 5, line: "PRIVMSG #c :hi".into() }, true, "[t]");
    assert!(matches!(&acts[0], BackendAction::Forward { conn_id: 5, line } if line == "PRIVMSG #c :hi"));
}

#[test]
fn connecting_watches_announces_and_starts() {
    let cfg = IrcConfig {
        server: "irc.example.net".into(),
        port: 6697,
        tls: true,
        nick: "n".into(),
        initial_channel: "#c".into(),
        server_password: None,
        sasl_username: None,
        sasl_password: None,
    };
    let acts = handle_cmd(BackendCmd::Connect { conn_id: 2, cfg }, false, "[t]");
    assert!(matches!(acts[0], BackendAction::Watch { conn_id: 2 }));
    assert!(matches!(&acts[1], BackendAction::Post(UiEvent::ConnectionUp { server, .. }) if server == "irc.example.net"));
    assert!(matches!(&acts[2], BackendAction::Start { conn_id: 2, cfg } if cfg.nick == "n"));
}

#[test]
fn backend_errors_go_to_the_global_status() {
    assert!(matches!(backend_error_at("boom", "[t]"), UiEvent::Append { conn_id: 0, line, .. } if line == "[t] *** backend error: boom"));
}
