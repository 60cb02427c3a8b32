//! Typing: history, messages, slash commands, the palette, connecting.

use hexrust::input::{user_action_command, History, UserAction};
use hexrust::model::{BackendCmd, BufferKey};
use hexrust::ui::{Effect, UiState};

const TS: &str = "[11:00:00]";

fn connected() -> UiState {
    let (mut st, _) = UiState::new();
    st.add_connection("irc.example.net", "me", "#c");
    st
}

fn sent(fx: &[Effect]) -> Vec<(u64, String)> {
    fx.iter()
        .filter_map(|e| match e {
            Effect::Backend(BackendCmd::SendRaw { conn_id, line }) => Some((*conn_id, line.clone())),
            _ => None,
        })
        .collect()
}

fn echoed(fx: &[Effect]) -> Vec<(BufferKey, String)> {
    fx.iter()
        .filter_map(|e| match e {
            Effect::Append { key, line } => Some((key.clone(), line.clone())),
            _ => None,
        })
        .collect()
}

fn slash(st: &mut UiState, cmd: &str) -> Vec<Effect> {
    st.handle_slash_command(cmd, TS)
}

#[test]
fn history_walks_back_and_returns_to_the_draft() {
    let mut h = History::new();
    h.push("one".into());
    h.push("two".into());
    h.push("two".into());
    assert_eq!(h.up("draft").as_deref(), Some("two"));
    assert_eq!(h.up("ignored").as_deref(), Some("one"));
    assert_eq!(h.up("ignored"), None);
    assert_eq!(h.down().as_deref(), Some("two"));
    assert_eq!(h.down().as_deref(), Some("draft"));
    assert_eq!(h.down(), None);
    assert_eq!(History::new().up("x"), None);
}

#[test]
fn plain_text_goes_to_the_current_buffer() {
    let mut st = connected();
    let mut h = History::new();
    let fx = st.submit(&mut h, "  hello there  ", TS);
    assert_eq!(sent(&fx), vec![(1, "PRIVMSG #c :hello there".to_string())]);
    assert_eq!(echoed(&fx), vec![(BufferKey::new(1, "#c"), "[11:00:00] <me> hello there".to_string())]);
    assert_eq!(h.up("").as_deref(), Some("hello there"));
}

#[test]
fn text_typed_in_status_goes_to_the_default_channel() {
    let mut st = connected();
    st.visit(&BufferKey::new(1, "Status"));
    let fx = st.submit(&mut History::new(), "hi", TS);
    assert_eq!(sent(&fx), vec![(1, "PRIVMSG #c :hi".to_string())]);
}

#[test]
fn nothing_is_sent_without_a_connection() {
    let (mut st, _) = UiState::new();
    let fx = st.submit(&mut History::new(), "hi", TS);
    assert!(sent(&fx).is_empty());
    assert_eq!(echoed(&fx)[0].1, "[11:00:00] *** (no connection) hi");
    assert!(st.submit(&mut History::new(), "   ", TS).is_empty());
}

#[test]
fn join_opens_and_shows_the_channel() {
    let mut st = connected();
    let fx = slash(&mut st, "join #rust");
    assert_eq!(sent(&fx), vec![(1, "JOIN #rust".to_string()), (1, "NAMES #rust".to_string())]);
    assert!(fx.iter().any(|e| matches!(e, Effect::Select { key } if key == &BufferKey::new(1, "#rust"))));
    assert_eq!(echoed(&slash(&mut st, "JOIN"))[0].1, "[11:00:00] *** Usage: /join #chan");
}

#[test]
fn msg_opens_a_private_buffer_and_echoes() {
    let mut st = connected();
    let fx = slash(&mut st, "msg bob how are you");
    assert_eq!(sent(&fx), vec![(1, "PRIVMSG bob :how are you".to_string())]);
    assert_eq!(echoed(&fx), vec![(BufferKey::new(1, "bob"), "[11:00:00] <me> how are you".to_string())]);
    assert_eq!(echoed(&slash(&mut st, "msg bob"))[0].1, "[11:00:00] *** Usage: /msg nick text");
}

#[test]
fn query_opens_without_sending_unless_given_text() {
    let mut st = connected();
    assert!(sent(&slash(&mut st, "query carol")).is_empty());
    assert_eq!(sent(&slash(&mut st, "query carol hi")), vec![(1, "PRIVMSG carol :hi".to_string())]);
}

#[test]
fn me_sends_a_ctcp_action() {
    let mut st = connected();
    let fx = slash(&mut st, "me waves hello");
    assert_eq!(sent(&fx), vec![(1, "PRIVMSG #c :\u{1}ACTION waves hello\u{1}".to_string())]);
    assert_eq!(echoed(&fx)[0].1, "[11:00:00] * me waves hello");
}

#[test]
fn nick_changes_our_nick() {
    let mut st = connected();
    let fx = slash(&mut st, "nick newme");
    assert_eq!(sent(&fx), vec![(1, "NICK newme".to_string())]);
    assert_eq!(st.conns[0].meta.nick, "newme");
}

#[test]
fn raw_and_unknown_commands_pass_through() {
    let mut st = connected();
    assert_eq!(sent(&slash(&mut st, "raw WHO #c")), vec![(1, "WHO #c".to_string())]);
    let fx = slash(&mut st, "WALLOPS hi");
    assert_eq!(sent(&fx), vec![(1, "WALLOPS hi".to_string())]);
    assert_eq!(echoed(&fx)[0].1, "[11:00:00] => WALLOPS hi");
}

#[test]
fn planned_commands_are_sent_and_echoed() {
    let mut st = connected();
    assert_eq!(sent(&slash(&mut st, "part")), vec![(1, "PART #c".to_string())]);
    let fx = slash(&mut st, "away lunch");
    assert_eq!(sent(&fx), vec![(1, "AWAY :lunch".to_string())]);
    assert_eq!(echoed(&fx)[0].1, "[11:00:00] *** Now away: lunch");
}

#[test]
fn channel_commands_outside_a_channel_say_so() {
    let (mut st, _) = UiState::new();
    st.add_connection("s", "me", "nochan");
    st.visit(&BufferKey::new(1, "Status"));
    let fx = slash(&mut st, "op bob");
    assert!(sent(&fx).is_empty());
    assert!(echoed(&fx)[0].1.contains("needs a channel"));
}

#[test]
fn quit_disconnects_with_a_reason() {
    let mut st = connected();
    let fx = slash(&mut st, "quit");
    assert!(matches!(&fx[0], Effect::Backend(BackendCmd::Disconnect { conn_id: 1, reason }) if reason == "hexrust"));
    let fx = slash(&mut st, "quit see you");
    assert!(matches!(&fx[0], Effect::Backend(BackendCmd::Disconnect { reason, .. }) if reason == "see you"));
}

#[test]
fn switch_and_server() {
    let mut st = connected();
    assert!(matches!(&slash(&mut st, "switch stat")[0], Effect::Select { key } if key == &BufferKey::new(0, "Status")));
    assert_eq!(echoed(&slash(&mut st, "switch zzz"))[0].1, "[11:00:00] *** Not found: zzz");
    let fx = slash(&mut st, "server 2 PRIVMSG x :y");
    assert_eq!(sent(&fx), vec![(2, "PRIVMSG x :y".to_string())]);
    assert_eq!(echoed(&fx)[0].1, "[11:00:00] => (server 2) PRIVMSG x :y");
    assert_eq!(echoed(&slash(&mut st, "server two x"))[0].1, "[11:00:00] *** Invalid server id: two");
}

#[test]
fn the_palette_connects_joins_and_switches() {
    let (mut st, _) = UiState::new();
    let fx = st.palette("connect irc.libera.chat 6697 nick #rust", TS);
    assert!(fx.iter().any(|e| matches!(e, Effect::Backend(BackendCmd::Connect { conn_id: 1, cfg })
        if cfg.server == "irc.libera.chat" && cfg.port == 6697 && cfg.nick == "nick" && cfg.initial_channel == "#rust" && cfg.tls)));
    assert!(matches!(fx.last(), Some(Effect::Close)));
    assert_eq!(st.current, BufferKey::new(1, "#rust"));
    let fx = st.palette("join #other", TS);
    assert_eq!(sent(&fx), vec![(1, "JOIN #other".to_string()), (1, "NAMES #other".to_string())]);
    st.palette("switch status", TS);
    assert_eq!(st.current, BufferKey::new(0, "Status"));
    assert_eq!(sent(&st.palette("raw   PING x", TS)), vec![(0, "PING x".to_string())]);
    let fx = st.palette("connect", TS);
    assert_eq!(echoed(&fx)[0].1, "[11:00:00] *** palette: missing server");
    assert!(st.palette("  ", TS).is_empty());
}

#[test]
fn the_connect_button_needs_a_server_and_defaults_the_rest() {
    let (mut st, _) = UiState::new();
    let fx = st.connect_form("  ", "6697", "", "", TS);
    assert_eq!(echoed(&fx)[0].1, "[11:00:00] *** Enter a server.");
    let fx = st.connect_form(" irc.x ", "bad", " ", "", TS);
    assert!(fx.iter().any(|e| matches!(e, Effect::Backend(BackendCmd::Connect { cfg, .. })
        if cfg.server == "irc.x" && cfg.port == 6697 && cfg.nick == "hexrust" && cfg.initial_channel == "#hexrust")));
    assert_eq!(echoed(&fx).last().unwrap().1, "[11:00:00] *** Connection requested.");
}

#[test]
fn choosing_a_user_opens_a_query() {
    let mut st = connected();
    let fx = st.open_query("alice");
    assert!(fx.iter().any(|e| matches!(e, Effect::Select { key } if key == &BufferKey::new(1, "alice"))));
    assert!(st.open_query("Waiting for NAMES (353)…").is_empty());
}

/// Each user-list menu entry runs the same command the keyboard would.
#[test]
fn user_menu_entries_run_the_keyboard_commands() {
    let all = [
        (UserAction::Whois, "whois bob"),
        (UserAction::Query, "query bob"),
        (UserAction::Op, "op bob"),
        (UserAction::Deop, "deop bob"),
        (UserAction::Voice, "voice bob"),
        (UserAction::Devoice, "devoice bob"),
        (UserAction::Kick, "kick bob"),
        (UserAction::Ban, "ban bob"),
    ];
    for (action, typed) in all {
        assert_eq!(user_action_command(action, "bob"), typed);
        let mut by_menu = connected();
        let mut by_keys = connected();
        let a = by_menu.user_action(action, "bob", TS);
        let b = slash(&mut by_keys, typed);
        assert_eq!(sent(&a), sent(&b), "{typed}");
        assert_eq!(echoed(&a), echoed(&b), "{typed}");
    }
    let mut st = connected();
    assert_eq!(sent(&st.user_action(UserAction::Op, "bob", TS)), vec![(1, "MODE #c +o bob".to_string())]);
}

#[test]
fn command_words_are_matched_ignoring_case() {
    let mut lower = connected();
    let mut upper = connected();
    let a = slash(&mut lower, "join #x");
    let b = slash(&mut upper, "JOIN #x");
    assert_eq!(sent(&a), sent(&b));
    assert!(!sent(&a).is_empty());
    assert_eq!(echoed(&a), echoed(&b));
    assert_eq!(lower.current, upper.current);
    let mut st = connected();
    let fx = st.palette("JoIn #other", TS);
    assert_eq!(sent(&fx), vec![(1, "JOIN #other".to_string()), (1, "NAMES #other".to_string())]);
}
