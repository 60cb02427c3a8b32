//! The connection state machine, driven line by line as a server would.

use hexrust::model::{IrcConfig, UiEvent};
use hexrust::session::{Action, CapState, Session, MAX_NICK_RETRIES};

const TS: &str = "[12:00:00]";

fn cfg(nick: &str) -> IrcConfig {
    IrcConfig {
        server: "127.0.0.1".into(),
        port: 6667,
        tls: false,
        nick: nick.into(),
        initial_channel: "#c".into(),
        server_password: None,
        sasl_username: None,
        sasl_password: None,
    }
}

fn cfg_with_sasl() -> IrcConfig {
    IrcConfig { sasl_username: Some("u".into()), sasl_password: Some("p".into()), ..cfg("n") }
}

fn sent(actions: &[Action]) -> Vec<String> {
    actions
        .iter()
        .filter_map(|a| match a {
            Action::Send(l) => Some(l.clone()),
            Action::Ui(_) => None,
        })
        .collect()
}

fn shown(actions: &[Action]) -> Vec<String> {
    actions
        .iter()
        .filter_map(|a| match a {
            Action::Ui(UiEvent::Append { line, .. }) => Some(line.clone()),
            _ => None,
        })
        .collect()
}

fn step(s: &mut Session, line: &str) -> Vec<Action> {
    s.on_line_at(line, TS, "")
}

#[test]
fn registration_sends_nick_and_user() {
    let s = Session::new(1, cfg("n"));
    let a = s.registration_at(TS);
    assert_eq!(sent(&a), vec!["NICK n", "USER n 0 * :hexrust"]);
    assert_eq!(shown(&a), vec!["[12:00:00] *** Socket connected. Waiting for welcome…"]);
}

#[test]
fn registration_negotiates_caps_first_with_sasl_and_sends_pass() {
    let mut c = cfg_with_sasl();
    c.server_password = Some("user/net:pw".into());
    let s = Session::new(1, c);
    assert_eq!(s.cap, CapState::Listing);
    assert_eq!(
        sent(&s.registration_at(TS)),
        vec!["CAP LS 302", "PASS user/net:pw", "NICK n", "USER n 0 * :hexrust"]
    );
}

#[test]
fn connecting_is_announced_in_status() {
    let mut c = cfg("n");
    c.tls = true;
    let s = Session::new(3, c);
    let a = s.connecting_at(TS);
    assert!(matches!(&a[0], Action::Ui(UiEvent::EnsureBuffer { conn_id: 3, buffer, make_current: false }) if buffer == "Status"));
    assert_eq!(shown(&a), vec!["[12:00:00] *** Connecting to 127.0.0.1:6667 (TLS)"]);
    let plain = Session::new(3, cfg("n"));
    assert_eq!(shown(&plain.connecting_at(TS)), vec!["[12:00:00] *** Connecting to 127.0.0.1:6667 "]);
}

#[test]
fn the_end_of_a_connection_is_reported() {
    let s = Session::new(1, cfg("n"));
    let a = s.closed_at(TS);
    assert!(matches!(&a[0], Action::Ui(UiEvent::Append { line, bump_unread: true, .. }) if line == "[12:00:00] *** Connection closed."));
}

#[test]
fn ping_is_answered_with_the_same_token() {
    let mut s = Session::new(1, cfg("n"));
    assert_eq!(sent(&step(&mut s, "PING :irc.example.net\r\n")), vec!["PONG :irc.example.net"]);
    assert!(step(&mut s, "\r\n").is_empty());
}

#[test]
fn welcome_joins_the_initial_channel_once() {
    let mut s = Session::new(1, cfg("n"));
    let a = step(&mut s, ":srv 001 n :Welcome to the network");
    assert_eq!(sent(&a), vec!["JOIN #c", "NAMES #c"]);
    assert!(matches!(&a[0], Action::Ui(UiEvent::EnsureBuffer { make_current: true, buffer, .. }) if buffer == "#c"));
    let lines = shown(&a);
    assert!(lines.contains(&"[12:00:00] *** Joining #c …".to_string()), "{lines:?}");
    assert!(lines.contains(&"[12:00:00] Welcome to the network".to_string()), "{lines:?}");
    let again = step(&mut s, ":srv 001 n :Welcome again");
    assert!(sent(&again).is_empty());
}

#[test]
fn sasl_handshake_sends_the_plain_payload_and_ends_negotiation() {
    let mut s = Session::new(1, cfg_with_sasl());
    assert_eq!(sent(&step(&mut s, ":srv CAP * LS :multi-prefix sasl=PLAIN")), vec!["CAP REQ :sasl"]);
    assert_eq!(sent(&step(&mut s, ":srv CAP * ACK :sasl")), vec!["AUTHENTICATE PLAIN"]);
    assert_eq!(sent(&step(&mut s, "AUTHENTICATE +")), vec!["AUTHENTICATE dQB1AHA="]);
    let done = step(&mut s, ":srv 903 n :SASL authentication successful");
    assert_eq!(sent(&done), vec!["CAP END"]);
    assert!(shown(&done).iter().any(|l| l.contains("SASL: success")));
    assert_eq!(s.cap, CapState::Done);
    assert!(shown(&step(&mut s, ":srv 001 n :Welcome")).iter().any(|l| l.contains("Joining")));
}

#[test]
fn sasl_not_offered_still_ends_negotiation() {
    let mut s = Session::new(1, cfg_with_sasl());
    let a = step(&mut s, ":srv CAP * LS :multi-prefix account-notify");
    assert_eq!(sent(&a), vec!["CAP END"]);
    assert!(shown(&a)[0].contains("not offered"));
    assert_eq!(s.cap, CapState::Done);
}

#[test]
fn sasl_refused_still_ends_negotiation() {
    let mut s = Session::new(1, cfg_with_sasl());
    step(&mut s, ":srv CAP * LS :sasl=PLAIN");
    let a = step(&mut s, ":srv CAP * NAK :sasl");
    assert_eq!(sent(&a), vec!["CAP END"]);
    assert!(shown(&a)[0].contains("refused"));
}

#[test]
fn sasl_failure_still_ends_negotiation() {
    let mut s = Session::new(1, cfg_with_sasl());
    step(&mut s, ":srv CAP * LS :sasl");
    step(&mut s, ":srv CAP * ACK :sasl");
    let a = step(&mut s, ":srv 904 n :SASL authentication failed");
    assert_eq!(sent(&a), vec!["CAP END"]);
    assert!(shown(&a).iter().any(|l| l.contains("authentication failed; continuing")));
}

#[test]
fn sasl_in_a_later_cap_ls_line_is_picked_up() {
    let mut s = Session::new(1, cfg_with_sasl());
    assert!(sent(&step(&mut s, ":srv CAP * LS * :multi-prefix account-notify")).is_empty());
    assert_eq!(sent(&step(&mut s, ":srv CAP * LS :away-notify sasl=PLAIN")), vec!["CAP REQ :sasl"]);
}

#[test]
fn a_taken_nick_is_retried_with_an_underscore() {
    let mut s = Session::new(1, cfg("taken"));
    let a = step(&mut s, ":srv 433 * taken :Nickname is already in use");
    assert_eq!(sent(&a), vec!["NICK taken_"]);
    assert!(a.iter().any(|x| matches!(x, Action::Ui(UiEvent::SetMyNick { nick, .. }) if nick == "taken_")));
    assert_eq!(s.my_nick, "taken_");
    assert!(shown(&step(&mut s, ":srv 001 taken_ :Welcome")).iter().any(|l| l.contains("Joining")));
}

#[test]
fn nick_retries_stop_and_say_so() {
    let mut s = Session::new(1, cfg("taken"));
    let mut nicks = 1; // the one registration sent
    let mut last = Vec::new();
    for _ in 0..10 {
        last = step(&mut s, ":srv 433 * x :Nickname is already in use");
        nicks += sent(&last).iter().filter(|l| l.starts_with("NICK ")).count();
    }
    assert_eq!(nicks, 1 + MAX_NICK_RETRIES as usize);
    assert!(nicks <= 5);
    assert!(shown(&last).iter().any(|l| l.contains("still in use")), "{last:?}", last = shown(&last));
}

#[test]
fn notices_read_as_dash_nick_dash() {
    let mut s = Session::new(1, cfg("n"));
    assert_eq!(shown(&step(&mut s, ":alice!u@h NOTICE n :ping from alice")), vec!["[12:00:00] -alice- ping from alice"]);
    let chat = shown(&step(&mut s, ":alice!u@h PRIVMSG n :chat from alice"));
    assert_eq!(chat, vec!["[12:00:00] <alice> chat from alice"]);
}

#[test]
fn numeric_preambles_are_stripped() {
    let mut s = Session::new(1, cfg("n"));
    let lines = shown(&step(&mut s, ":srv 251 n :There are 64 users"));
    assert_eq!(lines, vec!["[12:00:00] There are 64 users"]);
}

#[test]
fn topic_changes_name_who_made_them() {
    let mut s = Session::new(1, cfg("n"));
    let a = step(&mut s, ":alice!u@h TOPIC #c :new topic here");
    assert_eq!(shown(&a), vec!["[12:00:00] *** alice changed the topic to: new topic here"]);
}

#[test]
fn an_idle_reply_shows_the_given_signon_text() {
    let mut s = Session::new(1, cfg("me"));
    let a = s.on_line_at(":srv 317 me bob 65 1700000000 :seconds idle, signon time", TS, "2023-11-14 22:13");
    assert_eq!(shown(&a), vec!["[12:00:00] *** bob idle 1m 5s, signed on 2023-11-14 22:13"]);
}

#[test]
fn on_line_stamps_with_the_clock() {
    let mut s = Session::new(1, cfg("n"));
    let a = s.on_line(":srv 251 n :There are 64 users");
    let l = &shown(&a)[0];
    assert!(l.starts_with('[') && l.as_bytes()[9] == b']', "{l}");
    assert!(l.ends_with("] There are 64 users"));
}
