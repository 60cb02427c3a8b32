//! The window's state and what events do to it.

use hexrust::model::{BufferKey, UiEvent};
use hexrust::ui::{display_for_buffer, tab_label, Effect, UiState};

const TS: &str = "[10:00:00]";

fn key(c: u64, n: &str) -> BufferKey {
    BufferKey::new(c, n)
}

fn append(c: u64, b: &str, line: &str, unread: bool, hl: bool) -> UiEvent {
    UiEvent::Append { conn_id: c, buffer: b.into(), line: line.into(), bump_unread: unread, bump_highlight: hl }
}

fn connected() -> UiState {
    let (mut st, _) = UiState::new();
    let (id, _) = st.add_connection("irc.example.net", "me", "#c");
    assert_eq!(id, 1);
    st
}

fn buffer<'a>(st: &'a UiState, k: &BufferKey) -> &'a hexrust::ui::BufferInfo {
    st.buffers.iter().find(|b| &b.key == k).expect("buffer exists")
}

#[test]
fn the_window_starts_on_the_global_status_buffer() {
    let (st, fx) = UiState::new();
    assert_eq!(st.current, key(0, "Status"));
    assert!(matches!(&fx[0], Effect::CreateTab { label, .. } if label == "Status"));
    assert_eq!(st.next_conn_id, 1);
}

#[test]
fn buffers_are_named_after_their_server() {
    assert_eq!(display_for_buffer(&key(0, "Status"), None), "Status");
    assert_eq!(display_for_buffer(&key(2, "Status"), Some("irc.x")), "Status @ irc.x");
    assert_eq!(display_for_buffer(&key(2, "#rust"), Some("irc.x")), "#rust @ irc.x");
    assert_eq!(display_for_buffer(&key(2, "#rust"), None), "#rust @ server");
}

#[test]
fn tab_labels_show_highlights_then_unread() {
    assert_eq!(tab_label("#c", 0, 0), "#c");
    assert_eq!(tab_label("#c", 3, 0), "#c (3)");
    assert_eq!(tab_label("#c", 0, 2), "#c (!2)");
    assert_eq!(tab_label("#c", 3, 2), "#c (!2, 3)");
}

#[test]
fn a_new_connection_gets_status_and_its_channel() {
    let st = connected();
    assert_eq!(st.current, key(1, "#c"));
    assert_eq!(buffer(&st, &key(1, "Status")).base_label, "Status @ irc.example.net");
    assert_eq!(buffer(&st, &key(1, "#c")).base_label, "#c @ irc.example.net");
    let rows = st.sidebar_rows();
    let texts: Vec<&str> = rows.iter().map(|r| r.text.as_str()).collect();
    assert_eq!(texts, vec!["[1] irc.example.net", "    #c @ irc.example.net", "  Status @ irc.example.net"]);
    assert_eq!(rows[1].key, Some(key(1, "#c")));
}

#[test]
fn lines_elsewhere_count_as_unread_and_highlights() {
    let mut st = connected();
    let fx = st.apply(append(1, "bob", "[t] <bob> hi", true, true), TS);
    assert!(fx.iter().any(|e| matches!(e, Effect::CreateTab { label, .. } if label == "bob @ irc.example.net")));
    assert!(fx.iter().any(|e| matches!(e, Effect::Label { text, .. } if text == "bob @ irc.example.net (!1, 1)")));
    st.apply(append(1, "bob", "[t] <bob> again", true, false), TS);
    let b = buffer(&st, &key(1, "bob"));
    assert_eq!((b.unread, b.highlights), (2, 1));
}

#[test]
fn the_current_buffer_never_counts() {
    let mut st = connected();
    st.apply(append(1, "#c", "[t] <bob> hi me", true, true), TS);
    let b = buffer(&st, &key(1, "#c"));
    assert_eq!((b.unread, b.highlights), (0, 0));
}

#[test]
fn visiting_clears_the_counters() {
    let mut st = connected();
    st.apply(append(1, "bob", "[t] x", true, true), TS);
    let fx = st.visit(&key(1, "bob"));
    assert!(matches!(&fx[0], Effect::Label { text, .. } if text == "bob @ irc.example.net"));
    let b = buffer(&st, &key(1, "bob"));
    assert_eq!((b.unread, b.highlights), (0, 0));
    assert_eq!(st.current, key(1, "bob"));
}

#[test]
fn disconnects_are_reported_in_the_connection_status() {
    let mut st = connected();
    let fx = st.apply(UiEvent::ConnectionDown { conn_id: 1, reason: "EOF".into() }, TS);
    assert!(matches!(&fx[0], Effect::Append { key: k, line } if k == &key(1, "Status") && line == "[10:00:00] *** DISCONNECTED: EOF"));
    assert!(st.apply(UiEvent::ConnectionDown { conn_id: 9, reason: "x".into() }, TS).is_empty());
}

#[test]
fn user_lists_follow_names_joins_parts_and_renames() {
    let mut st = connected();
    st.apply(UiEvent::SetUsers { conn_id: 1, channel: "#c".into(), users: vec!["@alice".into(), "bob".into(), "+bob".into()] }, TS);
    assert_eq!(st.users[0].users, vec!["+bob".to_string(), "@alice".into()]);
    st.apply(UiEvent::AddUser { conn_id: 1, channel: "#c".into(), nick: "carol".into() }, TS);
    st.apply(UiEvent::AddUser { conn_id: 1, channel: "#c".into(), nick: "bob".into() }, TS);
    assert_eq!(st.users[0].users, vec!["@alice".to_string(), "bob".into(), "carol".into()]);
    st.apply(UiEvent::RenameUserEverywhere { conn_id: 1, old: "carol".into(), new_: "caro".into() }, TS);
    st.apply(UiEvent::RemoveUser { conn_id: 1, channel: "#c".into(), nick: "@bob".into() }, TS);
    assert_eq!(st.users[0].users, vec!["@alice".to_string(), "caro".into()]);
    st.apply(UiEvent::RemoveUserEverywhere { conn_id: 1, nick: "caro".into() }, TS);
    assert_eq!(st.users[0].users, vec!["@alice".to_string()]);
}

#[test]
fn our_nick_and_connections_are_remembered() {
    let (mut st, _) = UiState::new();
    st.apply(UiEvent::ConnectionUp { conn_id: 4, server: "s".into(), nick: "n".into(), initial_channel: "#x".into() }, TS);
    st.apply(UiEvent::SetMyNick { conn_id: 4, nick: "n2".into() }, TS);
    assert_eq!(st.conns[0].meta.nick, "n2");
    assert_eq!(st.server_of(4), Some("s"));
}

#[test]
fn ensure_buffer_can_switch_to_it() {
    let mut st = connected();
    let fx = st.apply(UiEvent::EnsureBuffer { conn_id: 1, buffer: "#d".into(), make_current: true }, TS);
    assert_eq!(st.current, key(1, "#d"));
    assert!(fx.iter().any(|e| matches!(e, Effect::Select { key: k } if k == &key(1, "#d"))));
}

#[test]
fn switch_finds_buffers_by_substring() {
    let st = connected();
    assert_eq!(st.find_buffer("#C"), Some(key(1, "#c")));
    assert_eq!(st.find_buffer("1 stat"), Some(key(1, "Status")));
    assert_eq!(st.find_buffer("nothing"), None);
}
