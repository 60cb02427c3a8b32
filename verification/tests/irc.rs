//! Routing of server lines to UI events.

use hexrust::irc::route_irc_line;
use hexrust::model::UiEvent;

const TS: &str = "[09:30:00]";

fn route(line: &str, me: &str) -> (String, Vec<UiEvent>) {
    let mut nick = me.to_string();
    let evs = route_irc_line(7, line, &mut nick, TS, "");
    (nick, evs)
}

fn appended(evs: &[UiEvent]) -> Vec<(String, String, bool, bool)> {
    evs.iter()
        .filter_map(|e| match e {
            UiEvent::Append { buffer, line, bump_unread, bump_highlight, .. } => {
                Some((buffer.clone(), line.clone(), *bump_unread, *bump_highlight))
            }
            _ => None,
        })
        .collect()
}

#[test]
fn channel_messages_go_to_the_channel() {
    let (_, evs) = route(":bob!u@h PRIVMSG #rust :hello all", "me");
    assert!(matches!(&evs[0], UiEvent::EnsureBuffer { buffer, make_current: false, .. } if buffer == "#rust"));
    assert_eq!(appended(&evs), vec![("#rust".into(), "[09:30:00] <bob> hello all".into(), true, false)]);
}

#[test]
fn a_mention_highlights_a_channel_message() {
    let (_, evs) = route(":bob!u@h PRIVMSG #rust :hey Me, look", "me");
    assert!(appended(&evs)[0].3);
}

#[test]
fn private_messages_go_to_the_sender_and_highlight() {
    let (_, evs) = route(":bob!u@h PRIVMSG me :psst", "me");
    assert_eq!(appended(&evs), vec![("bob".into(), "[09:30:00] <bob> psst".into(), true, true)]);
}

#[test]
fn actions_read_as_emotes() {
    let (_, evs) = route(":bob!u@h PRIVMSG #rust :\u{1}ACTION waves\u{1}", "me");
    assert_eq!(appended(&evs)[0].1, "[09:30:00] * bob waves");
}

#[test]
fn joins_parts_quits_and_kicks() {
    let (_, evs) = route(":bob!u@h JOIN :#rust", "me");
    assert!(matches!(&evs[1], UiEvent::AddUser { channel, nick, .. } if channel == "#rust" && nick == "bob"));
    assert_eq!(appended(&evs)[0].1, "[09:30:00] *** bob joined #rust");

    let (_, evs) = route(":bob!u@h PART #rust :bye", "me");
    assert!(matches!(&evs[0], UiEvent::RemoveUser { channel, nick, .. } if channel == "#rust" && nick == "bob"));
    assert_eq!(appended(&evs)[0].1, "[09:30:00] *** bob left #rust");

    let (_, evs) = route(":bob!u@h QUIT :Quit: gone", "me");
    assert!(matches!(&evs[0], UiEvent::RemoveUserEverywhere { nick, .. } if nick == "bob"));
    assert_eq!(appended(&evs)[0], ("Status".into(), "[09:30:00] *** bob quit".into(), true, false));

    let (_, evs) = route(":op!u@h KICK #rust carol :spam", "me");
    assert!(matches!(&evs[0], UiEvent::RemoveUser { nick, .. } if nick == "carol"));
    assert_eq!(appended(&evs)[0], ("#rust".into(), "[09:30:00] *** op kicked carol".into(), true, true));
}

#[test]
fn joins_of_non_channels_are_ignored() {
    let (_, evs) = route(":bob!u@h JOIN 0", "me");
    assert!(evs.is_empty());
}

#[test]
fn our_own_nick_change_is_tracked() {
    let (nick, evs) = route(":me!u@h NICK :newme", "me");
    assert_eq!(nick, "newme");
    assert!(matches!(&evs[0], UiEvent::SetMyNick { nick, .. } if nick == "newme"));
    assert!(matches!(&evs[1], UiEvent::RenameUserEverywhere { old, new_, .. } if old == "me" && new_ == "newme"));
    assert_eq!(appended(&evs)[0].1, "[09:30:00] *** me is now known as newme");

    let (nick, evs) = route(":bob!u@h NICK bobby", "me");
    assert_eq!(nick, "me");
    assert_eq!(evs.len(), 2);
}

#[test]
fn a_tab_in_the_source_does_not_stop_a_rename() {
    let (nick, evs) = route(":m\te!u@h NICK  new ", "m\te");
    assert_eq!(nick, "new");
    assert!(matches!(&evs[0], UiEvent::SetMyNick { nick, .. } if nick == "new"));
}

#[test]
fn names_replies_become_user_lists() {
    let (_, evs) = route(":srv 353 me = #rust :@alice +bob carol", "me");
    match &evs[0] {
        UiEvent::SetUsers { channel, users, .. } => {
            assert_eq!(channel, "#rust");
            assert_eq!(users, &vec!["@alice".to_string(), "+bob".into(), "carol".into()]);
        }
        other => panic!("{other:?}"),
    }
}

#[test]
fn the_topic_on_join_is_shown_in_the_channel() {
    let (_, evs) = route(":srv 332 me #rust :Rust talk: be kind", "me");
    assert_eq!(appended(&evs), vec![("#rust".into(), "[09:30:00] *** topic: Rust talk: be kind".into(), true, false)]);
}

#[test]
fn lines_without_a_source_go_to_status_as_they_are() {
    let (_, evs) = route("ERROR :Closing link", "me");
    assert_eq!(appended(&evs), vec![("Status".into(), "[09:30:00] ERROR :Closing link".into(), true, false)]);
}

#[test]
fn whois_numerics_are_rendered() {
    let (_, evs) = route(":srv 311 me alice ~user cloak * :Alice Example", "me");
    assert_eq!(appended(&evs)[0].1, "[09:30:00] *** alice is ~user@cloak (Alice Example)");
}
