//! What each line from an IRC server means for the UI.
//!
//! `route_irc_line` turns one server line into the UI events it causes:
//! user lists, channel and private messages, joins and parts, nick changes,
//! and, for anything it does not recognise, a readable line in Status.
use vstd::prelude::*;
use crate::model::{events_view, strings_view, UiEvent, UiEventV};
use crate::numerics::{render_at, spec_render, spec_strip_preamble, strip_preamble};
use crate::text::{
    chars_of, ends_with, extend, extend_str, find_char, find_char_from, slice_of, split_once,
    split_once_vec, split_words, starts_with, starts_with_str, strip_all_prefix,
    strip_all_prefix_vec, strip_prefix, strip_prefix_vec, string_of, trim, trim_end_char,
    trim_end_char_vec, trim_start_char, trim_start_char_vec, trim_vec, views, words, eq_chars,
    eq_str, lemma_find_char_from, find_seq_from, is_ws, lemma_find_seq_from, lemma_skip_word,
    lemma_skip_ws, occurs_at, skip_word, skip_ws, words_from, back_ws,
};
use crate::util::{contains_nick_word, spec_contains_nick_word};

verus! {

// ---------------------------------------------------------------------------
// UI events, as values
// ---------------------------------------------------------------------------

pub open spec fn append_ev(
    conn_id: u64,
    buffer: Seq<char>,
    line: Seq<char>,
    unread: bool,
    highlight: bool,
) -> UiEventV {
    UiEventV::Append { conn_id, buffer, line, bump_unread: unread, bump_highlight: highlight }
}

/// Makes sure a buffer exists, without switching to it.
pub open spec fn ensure_ev(conn_id: u64, buffer: Seq<char>) -> UiEventV {
    UiEventV::EnsureBuffer { conn_id, buffer, make_current: false }
}

/// A copy of `v`.
pub fn dup(v: &Vec<char>) -> (r: Vec<char>)
    ensures
        r@ == v@,
{
    slice_of(v, 0, v.len())
}

pub fn append_event(conn_id: u64, buffer: &Vec<char>, line: &Vec<char>, unread: bool, highlight: bool) -> (r: UiEvent)
    ensures
        r@ == append_ev(conn_id, buffer@, line@, unread, highlight),
{
    UiEvent::Append {
        conn_id,
        buffer: string_of(buffer),
        line: string_of(line),
        bump_unread: unread,
        bump_highlight: highlight,
    }
}

pub fn ensure_event(conn_id: u64, buffer: &Vec<char>) -> (r: UiEvent)
    ensures
        r@ == ensure_ev(conn_id, buffer@),
{
    UiEvent::EnsureBuffer { conn_id, buffer: string_of(buffer), make_current: false }
}

// ---------------------------------------------------------------------------
// Parsing the parts of a line
// ---------------------------------------------------------------------------

/// `<verb><target> :<text>`: the trimmed target and the text.
pub open spec fn spec_addressed(rest: Seq<char>, verb: Seq<char>) -> Option<(Seq<char>, Seq<char>)> {
    match strip_prefix(rest, verb) {
        Some(r) => match split_once(r, " :"@) {
            Some((t, text)) => Some((trim(t), text)),
            None => None,
        },
        None => None,
    }
}

fn parse_addressed(rest: &Vec<char>, verb: &str) -> (r: Option<(Vec<char>, Vec<char>)>)
    ensures
        match r {
            Some((t, x)) => spec_addressed(rest@, verb@) == Some((t@, x@)),
            None => spec_addressed(rest@, verb@) is None,
        },
{
    let r = match strip_prefix_vec(rest, verb) {
        Some(r) => r,
        None => {
            return None;
        },
    };
    match split_once_vec(&r, " :") {
        Some((t, x)) => Some((trim_vec(&t), x)),
        None => None,
    }
}

/// `PRIVMSG <target> :<text>`.
pub open spec fn spec_privmsg(rest: Seq<char>) -> Option<(Seq<char>, Seq<char>)> {
    spec_addressed(rest, "PRIVMSG "@)
}

fn parse_privmsg(rest: &Vec<char>) -> (r: Option<(Vec<char>, Vec<char>)>)
    ensures
        match r {
            Some((t, x)) => spec_privmsg(rest@) == Some((t@, x@)),
            None => spec_privmsg(rest@) is None,
        },
{
    parse_addressed(rest, "PRIVMSG ")
}

/// `NOTICE <target> :<text>`.
pub open spec fn spec_notice(rest: Seq<char>) -> Option<(Seq<char>, Seq<char>)> {
    spec_addressed(rest, "NOTICE "@)
}

fn parse_notice(rest: &Vec<char>) -> (r: Option<(Vec<char>, Vec<char>)>)
    ensures
        match r {
            Some((t, x)) => spec_notice(rest@) == Some((t@, x@)),
            None => spec_notice(rest@) is None,
        },
{
    parse_addressed(rest, "NOTICE ")
}

/// `TOPIC <channel> :<topic>`, a topic being changed.
pub open spec fn spec_topic_change(rest: Seq<char>) -> Option<(Seq<char>, Seq<char>)> {
    spec_addressed(rest, "TOPIC "@)
}

fn parse_topic_change(rest: &Vec<char>) -> (r: Option<(Vec<char>, Vec<char>)>)
    ensures
        match r {
            Some((t, x)) => spec_topic_change(rest@) == Some((t@, x@)),
            None => spec_topic_change(rest@) is None,
        },
{
    parse_addressed(rest, "TOPIC ")
}

/// `JOIN :#chan` or `JOIN #chan`.
pub open spec fn spec_join(rest: Seq<char>) -> Option<Seq<char>> {
    match strip_prefix(rest, "JOIN "@) {
        Some(r) => Some(trim_start_char(trim(r), ':')),
        None => None,
    }
}

fn parse_join(rest: &Vec<char>) -> (r: Option<Vec<char>>)
    ensures
        match r {
            Some(c) => spec_join(rest@) == Some(c@),
            None => spec_join(rest@) is None,
        },
{
    match strip_prefix_vec(rest, "JOIN ") {
        Some(r) => Some(trim_start_char_vec(&trim_vec(&r), ':')),
        None => None,
    }
}

/// `PART #chan ...`: the first word, or `Status` when there is none.
pub open spec fn spec_part(rest: Seq<char>) -> Option<Seq<char>> {
    match strip_prefix(rest, "PART "@) {
        Some(r) => if words(r).len() > 0 {
            Some(words(r)[0])
        } else {
            Some("Status"@)
        },
        None => None,
    }
}

fn parse_part(rest: &Vec<char>) -> (r: Option<Vec<char>>)
    ensures
        match r {
            Some(c) => spec_part(rest@) == Some(c@),
            None => spec_part(rest@) is None,
        },
{
    match strip_prefix_vec(rest, "PART ") {
        Some(r) => {
            let w = split_words(&r);
            if w.len() > 0 {
                assert(views(w@)[0] == w@[0]@);
                Some(dup(&w[0]))
            } else {
                Some(chars_of("Status"))
            }
        },
        None => None,
    }
}

/// `KICK #chan victim :reason`: the channel and the victim.
pub open spec fn spec_kick(rest: Seq<char>) -> Option<(Seq<char>, Seq<char>)> {
    match strip_prefix(rest, "KICK "@) {
        Some(r) => if words(r).len() >= 2 {
            Some((words(r)[0], words(r)[1]))
        } else {
            None
        },
        None => None,
    }
}

fn parse_kick(rest: &Vec<char>) -> (r: Option<(Vec<char>, Vec<char>)>)
    ensures
        match r {
            Some((c, v)) => spec_kick(rest@) == Some((c@, v@)),
            None => spec_kick(rest@) is None,
        },
{
    match strip_prefix_vec(rest, "KICK ") {
        Some(r) => {
            let w = split_words(&r);
            if w.len() >= 2 {
                assert(views(w@)[0] == w@[0]@);
                assert(views(w@)[1] == w@[1]@);
                Some((dup(&w[0]), dup(&w[1])))
            } else {
                None
            }
        },
        None => None,
    }
}

/// `NICK :newnick`.
pub open spec fn spec_nick_change(rest: Seq<char>) -> Option<Seq<char>> {
    match strip_prefix(rest, "NICK "@) {
        Some(r) => Some(trim_start_char(trim(r), ':')),
        None => None,
    }
}

fn parse_nick_change(rest: &Vec<char>) -> (r: Option<Vec<char>>)
    ensures
        match r {
            Some(n) => spec_nick_change(rest@) == Some(n@),
            None => spec_nick_change(rest@) is None,
        },
{
    match strip_prefix_vec(rest, "NICK ") {
        Some(r) => Some(trim_start_char_vec(&trim_vec(&r), ':')),
        None => None,
    }
}

/// The nicks of a NAMES reply from word `i` on: the first one loses a
/// leading `:`, and words left empty are skipped.
pub open spec fn names_from(parts: Seq<Seq<char>>, i: int) -> Seq<Seq<char>>
    decreases parts.len() - i,
{
    if i < 0 || i >= parts.len() {
        seq![]
    } else {
        let t = trim(
            if i == 5 {
                trim_start_char(parts[i], ':')
            } else {
                parts[i]
            },
        );
        (if t.len() == 0 {
            seq![]
        } else {
            seq![t]
        }) + names_from(parts, i + 1)
    }
}

/// `:server 353 <me> <symbol> <chan> :nick1 nick2 @nick3`: the channel and
/// its users, status prefixes kept.
pub open spec fn spec_names_reply(line: Seq<char>) -> Option<(Seq<char>, Seq<Seq<char>>)> {
    let parts = words(line);
    if parts.len() < 6 {
        None
    } else if starts_with(parts[0], ":"@) && parts[1] == "353"@ {
        Some((parts[4], names_from(parts, 5)))
    } else {
        None
    }
}

fn parse_names_reply(line: &Vec<char>) -> (r: Option<(Vec<char>, Vec<String>)>)
    ensures
        match r {
            Some((c, u)) => spec_names_reply(line@) == Some((c@, strings_view(u@))),
            None => spec_names_reply(line@) is None,
        },
{
    let parts = split_words(line);
    let ghost ps = views(parts@);
    if parts.len() < 6 {
        return None;
    }
    assert(ps[0] == parts@[0]@ && ps[1] == parts@[1]@ && ps[4] == parts@[4]@);
    if !(starts_with_str(&parts[0], ":") && eq_str(&parts[1], "353")) {
        return None;
    }
    let chan = dup(&parts[4]);
    let mut users: Vec<String> = Vec::new();
    let mut i: usize = 5;
    while i < parts.len()
        invariant
            5 <= i <= parts.len(),
            ps == views(parts@),
            ps == words(line@),
            strings_view(users@) + names_from(ps, i as int) == names_from(ps, 5),
        decreases parts.len() - i,
    {
        let ghost pre = strings_view(users@);
        assert(ps[i as int] == parts@[i as int]@);
        let t0 = if i == 5 {
            trim_start_char_vec(&parts[i], ':')
        } else {
            dup(&parts[i])
        };
        let t = trim_vec(&t0);
        if t.len() > 0 {
            users.push(string_of(&t));
            assert(strings_view(users@) =~= pre.push(t@));
        }
        assert(names_from(ps, i as int) == (if t@.len() == 0 {
            Seq::<Seq<char>>::empty()
        } else {
            seq![t@]
        }) + names_from(ps, i + 1));
        i += 1;
        assert(strings_view(users@) + names_from(ps, i as int) =~= pre + names_from(
            ps,
            (i - 1) as int,
        ));
    }
    assert(names_from(ps, i as int) =~= Seq::<Seq<char>>::empty());
    assert(strings_view(users@) + Seq::<Seq<char>>::empty() =~= strings_view(users@));
    Some((chan, users))
}

/// `:server 332 <me> #chan :topic...`: the channel and the topic.
pub open spec fn spec_topic_332(line: Seq<char>) -> Option<(Seq<char>, Seq<char>)> {
    let parts = words(line);
    if parts.len() < 5 {
        None
    } else if starts_with(parts[0], ":"@) && parts[1] == "332"@ {
        match split_once(line, " :"@) {
            Some((_, topic)) => Some((parts[3], topic)),
            None => None,
        }
    } else {
        None
    }
}

fn parse_topic_332(line: &Vec<char>) -> (r: Option<(Vec<char>, Vec<char>)>)
    ensures
        match r {
            Some((c, t)) => spec_topic_332(line@) == Some((c@, t@)),
            None => spec_topic_332(line@) is None,
        },
{
    let parts = split_words(line);
    if parts.len() < 5 {
        return None;
    }
    assert(views(parts@)[0] == parts@[0]@ && views(parts@)[1] == parts@[1]@);
    assert(views(parts@)[3] == parts@[3]@);
    if !(starts_with_str(&parts[0], ":") && eq_str(&parts[1], "332")) {
        return None;
    }
    match split_once_vec(line, " :") {
        Some((_, topic)) => Some((dup(&parts[3]), topic)),
        None => None,
    }
}

/// A CTCP ACTION: `\u{1}ACTION text\u{1}`.
pub open spec fn spec_is_ctcp_action(text: Seq<char>) -> bool {
    starts_with(text, "\u{1}ACTION "@) && ends_with(text, seq!['\u{1}'])
}

fn is_ctcp_action(text: &Vec<char>) -> (b: bool)
    ensures
        b == spec_is_ctcp_action(text@),
{
    let e = text.len() > 0 && text[text.len() - 1] == '\u{1}';
    proof {
        if text@.len() > 0 {
            let last = text@.skip(text@.len() - 1);
            assert(last =~= seq![text@[text@.len() - 1]]);
            if !e {
                assert(last[0] != seq!['\u{1}'][0]);
            }
        }
    }
    starts_with_str(text, "\u{1}ACTION ") && e
}

/// The action of a CTCP ACTION, without its framing.
pub open spec fn spec_ctcp_action(text: Seq<char>) -> Seq<char> {
    trim_end_char(strip_all_prefix(text, "\u{1}ACTION "@), '\u{1}')
}

fn parse_ctcp_action(text: &Vec<char>) -> (r: Vec<char>)
    ensures
        r@ == spec_ctcp_action(text@),
{
    let inner = strip_all_prefix_vec(text, "\u{1}ACTION ");
    trim_end_char_vec(&inner, '\u{1}')
}

/// `:<prefix> <rest>`: the source of a line and what follows it.
pub open spec fn spec_source(line: Seq<char>) -> Option<(Seq<char>, Seq<char>)> {
    match strip_prefix(line, ":"@) {
        Some(r) => split_once(r, " "@),
        None => None,
    }
}

/// The nick of a `nick!user@host` source (the whole source when it has no `!`).
pub open spec fn nick_of(prefix: Seq<char>) -> Seq<char> {
    prefix.take(find_char_from(prefix, '!', 0))
}

// ---------------------------------------------------------------------------
// Routing
// ---------------------------------------------------------------------------

/// What a line reads as in Status when nothing more specific applies: a
/// rendered numeric, a numeric without its preamble, or the line itself.
pub open spec fn default_text(line: Seq<char>, my_nick: Seq<char>, signon: Seq<char>) -> Seq<char> {
    match spec_render(line, my_nick, signon) {
        Some(r) => r,
        None => match spec_strip_preamble(line, my_nick) {
            Some(s) => s,
            None => line,
        },
    }
}

pub open spec fn default_ev(
    conn_id: u64,
    line: Seq<char>,
    my_nick: Seq<char>,
    ts: Seq<char>,
    signon: Seq<char>,
) -> UiEventV {
    append_ev(conn_id, "Status"@, ts + " "@ + default_text(line, my_nick, signon), true, false)
}

/// A private or channel message: shown in the channel, or in a buffer named
/// after the sender; highlighted when private or when it names us.
pub open spec fn privmsg_events(
    conn_id: u64,
    nick: Seq<char>,
    target: Seq<char>,
    text: Seq<char>,
    my_nick: Seq<char>,
    ts: Seq<char>,
) -> Seq<UiEventV> {
    let is_channel = starts_with(target, "#"@);
    let buffer = if is_channel {
        target
    } else {
        nick
    };
    let rendered = if spec_is_ctcp_action(text) {
        ts + " * "@ + nick + " "@ + spec_ctcp_action(text)
    } else {
        ts + " <"@ + nick + "> "@ + text
    };
    let highlight = !is_channel || spec_contains_nick_word(text, my_nick);
    seq![ensure_ev(conn_id, buffer), append_ev(conn_id, buffer, rendered, true, highlight)]
}

/// A notice, shown as `-nick- text`: in its channel when sent to one, in
/// Status otherwise.
pub open spec fn notice_events(
    conn_id: u64,
    nick: Seq<char>,
    target: Seq<char>,
    text: Seq<char>,
    ts: Seq<char>,
) -> Seq<UiEventV> {
    let line = ts + " -"@ + nick + "- "@ + text;
    if starts_with(target, "#"@) {
        seq![ensure_ev(conn_id, target), append_ev(conn_id, target, line, true, false)]
    } else {
        seq![append_ev(conn_id, "Status"@, line, true, false)]
    }
}

/// Joins, parts, quits, kicks and topic changes; `None` for other lines.
/// Those naming something other than a channel cause nothing.
pub open spec fn membership_events(
    conn_id: u64,
    nick: Seq<char>,
    rest: Seq<char>,
    ts: Seq<char>,
) -> Option<Seq<UiEventV>> {
    match spec_join(rest) {
        Some(chan) => Some(
            if starts_with(chan, "#"@) {
                seq![
                    ensure_ev(conn_id, chan),
                    UiEventV::AddUser { conn_id, channel: chan, nick },
                    append_ev(conn_id, chan, ts + " *** "@ + nick + " joined "@ + chan, true, false),
                ]
            } else {
                seq![]
            },
        ),
        None => match spec_part(rest) {
            Some(chan) => Some(
                if starts_with(chan, "#"@) {
                    seq![
                        UiEventV::RemoveUser { conn_id, channel: chan, nick },
                        append_ev(conn_id, chan, ts + " *** "@ + nick + " left "@ + chan, true, false),
                    ]
                } else {
                    seq![]
                },
            ),
            None => if starts_with(rest, "QUIT"@) {
                Some(
                    seq![
                        UiEventV::RemoveUserEverywhere { conn_id, nick },
                        append_ev(conn_id, "Status"@, ts + " *** "@ + nick + " quit"@, true, false),
                    ],
                )
            } else {
                match spec_kick(rest) {
                    Some((chan, victim)) => Some(
                        if starts_with(chan, "#"@) {
                            seq![
                                UiEventV::RemoveUser { conn_id, channel: chan, nick: victim },
                                append_ev(
                                    conn_id,
                                    chan,
                                    ts + " *** "@ + nick + " kicked "@ + victim,
                                    true,
                                    true,
                                ),
                            ]
                        } else {
                            seq![]
                        },
                    ),
                    None => match spec_topic_change(rest) {
                        Some((chan, topic)) => Some(
                            if starts_with(chan, "#"@) {
                                seq![
                                    ensure_ev(conn_id, chan),
                                    append_ev(
                                        conn_id,
                                        chan,
                                        ts + " *** "@ + nick + " changed the topic to: "@ + topic,
                                        true,
                                        false,
                                    ),
                                ]
                            } else {
                                seq![]
                            },
                        ),
                        None => None,
                    },
                }
            },
        },
    }
}

/// A line with a source, from the nick that sent it: the nick we are known
/// by afterwards and the events.
pub open spec fn route_from(
    conn_id: u64,
    line: Seq<char>,
    nick: Seq<char>,
    rest: Seq<char>,
    my_nick: Seq<char>,
    ts: Seq<char>,
    signon: Seq<char>,
) -> (Seq<char>, Seq<UiEventV>) {
    match spec_nick_change(rest) {
        Some(new_nick) => {
            let ours = my_nick == nick;
            (
                if ours {
                    new_nick
                } else {
                    my_nick
                },
                (if ours {
                    seq![UiEventV::SetMyNick { conn_id, nick: new_nick }]
                } else {
                    seq![]
                }) + seq![
                    UiEventV::RenameUserEverywhere { conn_id, old: nick, new_: new_nick },
                    append_ev(
                        conn_id,
                        "Status"@,
                        ts + " *** "@ + nick + " is now known as "@ + new_nick,
                        true,
                        true,
                    ),
                ],
            )
        },
        None => match spec_privmsg(rest) {
            Some((target, text)) => (
                my_nick,
                privmsg_events(conn_id, nick, target, text, my_nick, ts),
            ),
            None => match spec_notice(rest) {
                Some((target, text)) => (my_nick, notice_events(conn_id, nick, target, text, ts)),
                None => match membership_events(conn_id, nick, rest, ts) {
                    Some(evs) => (my_nick, evs),
                    None => (my_nick, seq![default_ev(conn_id, line, my_nick, ts, signon)]),
                },
            },
        },
    }
}

/// The nick we are known by after `line`, and the UI events it causes, for
/// a line stamped `ts` and, if it is an idle reply, a sign-on time shown as
/// `signon`.
pub open spec fn spec_route(
    conn_id: u64,
    line: Seq<char>,
    my_nick: Seq<char>,
    ts: Seq<char>,
    signon: Seq<char>,
) -> (Seq<char>, Seq<UiEventV>) {
    match spec_names_reply(line) {
        Some((chan, users)) => (my_nick, seq![UiEventV::SetUsers { conn_id, channel: chan, users }]),
        None => match spec_topic_332(line) {
            Some((chan, topic)) => (
                my_nick,
                seq![
                    ensure_ev(conn_id, chan),
                    append_ev(conn_id, chan, ts + " *** topic: "@ + topic, true, false),
                ],
            ),
            None => match spec_source(line) {
                Some((prefix, rest)) => route_from(
                    conn_id,
                    line,
                    nick_of(prefix),
                    rest,
                    my_nick,
                    ts,
                    signon,
                ),
                None => (my_nick, seq![default_ev(conn_id, line, my_nick, ts, signon)]),
            },
        },
    }
}

fn default_event(conn_id: u64, line: &str, my_nick: &str, ts: &Vec<char>, signon: &str) -> (r: UiEvent)
    ensures
        r@ == default_ev(conn_id, line@, my_nick@, ts@, signon@),
{
    let text = match render_at(line, my_nick, signon) {
        Some(r) => chars_of(r.as_str()),
        None => match strip_preamble(line, my_nick) {
            Some(s) => chars_of(s.as_str()),
            None => chars_of(line),
        },
    };
    let mut l = dup(ts);
    l.push(' ');
    extend(&mut l, &text);
    proof {
        reveal_strlit(" ");
    }
    assert(l@ =~= ts@ + " "@ + default_text(line@, my_nick@, signon@));
    append_event(conn_id, &chars_of("Status"), &l, true, false)
}

fn privmsg_route(
    conn_id: u64,
    nick: &Vec<char>,
    target: &Vec<char>,
    text: &Vec<char>,
    my_nick: &str,
    ts: &Vec<char>,
) -> (r: Vec<UiEvent>)
    ensures
        events_view(r@) == privmsg_events(conn_id, nick@, target@, text@, my_nick@, ts@),
{
    let is_channel = starts_with_str(target, "#");
    let buffer = if is_channel {
        dup(target)
    } else {
        dup(nick)
    };
    let mut rendered = dup(ts);
    if is_ctcp_action(text) {
        extend_str(&mut rendered, " * ");
        extend(&mut rendered, nick);
        extend_str(&mut rendered, " ");
        extend(&mut rendered, &parse_ctcp_action(text));
    } else {
        extend_str(&mut rendered, " <");
        extend(&mut rendered, nick);
        extend_str(&mut rendered, "> ");
        extend(&mut rendered, text);
    }
    let highlight = !is_channel || contains_nick_word(string_of(text).as_str(), my_nick);
    let mut r: Vec<UiEvent> = Vec::new();
    r.push(ensure_event(conn_id, &buffer));
    r.push(append_event(conn_id, &buffer, &rendered, true, highlight));
    assert(events_view(r@) =~= privmsg_events(conn_id, nick@, target@, text@, my_nick@, ts@));
    r
}

fn notice_route(
    conn_id: u64,
    nick: &Vec<char>,
    target: &Vec<char>,
    text: &Vec<char>,
    ts: &Vec<char>,
) -> (r: Vec<UiEvent>)
    ensures
        events_view(r@) == notice_events(conn_id, nick@, target@, text@, ts@),
{
    let mut line = dup(ts);
    extend_str(&mut line, " -");
    extend(&mut line, nick);
    extend_str(&mut line, "- ");
    extend(&mut line, text);
    let mut r: Vec<UiEvent> = Vec::new();
    if starts_with_str(target, "#") {
        r.push(ensure_event(conn_id, target));
        r.push(append_event(conn_id, target, &line, true, false));
    } else {
        r.push(append_event(conn_id, &chars_of("Status"), &line, true, false));
    }
    assert(events_view(r@) =~= notice_events(conn_id, nick@, target@, text@, ts@));
    r
}

/// `ts *** <nick><what><tail>`.
fn said(ts: &Vec<char>, nick: &Vec<char>, what: &str, tail: &Vec<char>) -> (r: Vec<char>)
    ensures
        r@ == ts@ + " *** "@ + nick@ + what@ + tail@,
{
    let mut l = dup(ts);
    extend_str(&mut l, " *** ");
    extend(&mut l, nick);
    extend_str(&mut l, what);
    extend(&mut l, tail);
    l
}

fn membership_route(conn_id: u64, nick: &Vec<char>, rest: &Vec<char>, ts: &Vec<char>) -> (r: Option<Vec<UiEvent>>)
    ensures
        match r {
            Some(v) => membership_events(conn_id, nick@, rest@, ts@) == Some(events_view(v@)),
            None => membership_events(conn_id, nick@, rest@, ts@) is None,
        },
{
    let mut r: Vec<UiEvent> = Vec::new();
    if let Some(chan) = parse_join(rest) {
        if starts_with_str(&chan, "#") {
            r.push(ensure_event(conn_id, &chan));
            r.push(UiEvent::AddUser { conn_id, channel: string_of(&chan), nick: string_of(nick) });
            r.push(append_event(conn_id, &chan, &said(ts, nick, " joined ", &chan), true, false));
        }
        assert(events_view(r@) =~= membership_events(conn_id, nick@, rest@, ts@)->0);
        return Some(r);
    }
    if let Some(chan) = parse_part(rest) {
        if starts_with_str(&chan, "#") {
            r.push(UiEvent::RemoveUser { conn_id, channel: string_of(&chan), nick: string_of(nick) });
            r.push(append_event(conn_id, &chan, &said(ts, nick, " left ", &chan), true, false));
        }
        assert(events_view(r@) =~= membership_events(conn_id, nick@, rest@, ts@)->0);
        return Some(r);
    }
    if starts_with_str(rest, "QUIT") {
        r.push(UiEvent::RemoveUserEverywhere { conn_id, nick: string_of(nick) });
        let l = said(ts, nick, " quit", &Vec::new());
        assert(l@ =~= ts@ + " *** "@ + nick@ + " quit"@);
        r.push(append_event(conn_id, &chars_of("Status"), &l, true, false));
        assert(events_view(r@) =~= membership_events(conn_id, nick@, rest@, ts@)->0);
        return Some(r);
    }
    if let Some((chan, victim)) = parse_kick(rest) {
        if starts_with_str(&chan, "#") {
            r.push(UiEvent::RemoveUser { conn_id, channel: string_of(&chan), nick: string_of(&victim) });
            r.push(append_event(conn_id, &chan, &said(ts, nick, " kicked ", &victim), true, true));
        }
        assert(events_view(r@) =~= membership_events(conn_id, nick@, rest@, ts@)->0);
        return Some(r);
    }
    if let Some((chan, topic)) = parse_topic_change(rest) {
        if starts_with_str(&chan, "#") {
            r.push(ensure_event(conn_id, &chan));
            r.push(
                append_event(
                    conn_id,
                    &chan,
                    &said(ts, nick, " changed the topic to: ", &topic),
                    true,
                    false,
                ),
            );
        }
        assert(events_view(r@) =~= membership_events(conn_id, nick@, rest@, ts@)->0);
        return Some(r);
    }
    None
}

/// The UI events one server line causes, for a line stamped `ts` and, if it
/// is an idle reply, a sign-on time shown as `signon`. A nick change of ours
/// updates `my_nick`.
pub fn route_irc_line(conn_id: u64, line: &str, my_nick: &mut String, ts: &str, signon: &str) -> (r: Vec<UiEvent>)
    ensures
        final(my_nick)@ == spec_route(conn_id, line@, old(my_nick)@, ts@, signon@).0,
        events_view(r@) == spec_route(conn_id, line@, old(my_nick)@, ts@, signon@).1,
{
    let l = chars_of(line);
    let t = chars_of(ts);
    let mut r: Vec<UiEvent> = Vec::new();
    if let Some((chan, users)) = parse_names_reply(&l) {
        r.push(UiEvent::SetUsers { conn_id, channel: string_of(&chan), users });
        assert(events_view(r@) =~= spec_route(conn_id, line@, my_nick@, ts@, signon@).1);
        return r;
    }
    if let Some((chan, topic)) = parse_topic_332(&l) {
        let mut text = dup(&t);
        extend_str(&mut text, " *** topic: ");
        extend(&mut text, &topic);
        r.push(ensure_event(conn_id, &chan));
        r.push(append_event(conn_id, &chan, &text, true, false));
        assert(events_view(r@) =~= spec_route(conn_id, line@, my_nick@, ts@, signon@).1);
        return r;
    }
    let source = match strip_prefix_vec(&l, ":") {
        Some(s) => split_once_vec(&s, " "),
        None => None,
    };
    let (prefix, rest) = match source {
        Some(x) => x,
        None => {
            r.push(default_event(conn_id, line, my_nick.as_str(), &t, signon));
            assert(events_view(r@) =~= spec_route(conn_id, line@, my_nick@, ts@, signon@).1);
            return r;
        },
    };
    let bang = find_char(&prefix, '!', 0);
    proof {
        lemma_find_char_from(prefix@, '!', 0);
    }
    let nick = slice_of(&prefix, 0, bang);
    assert(nick@ == nick_of(prefix@));
    let me = chars_of(my_nick.as_str());
    if let Some(new_nick) = parse_nick_change(&rest) {
        if eq_chars(&me, &nick) {
            *my_nick = string_of(&new_nick);
            r.push(UiEvent::SetMyNick { conn_id, nick: string_of(&new_nick) });
        }
        r.push(
            UiEvent::RenameUserEverywhere {
                conn_id,
                old: string_of(&nick),
                new_: string_of(&new_nick),
            },
        );
        r.push(
            append_event(
                conn_id,
                &chars_of("Status"),
                &said(&t, &nick, " is now known as ", &new_nick),
                true,
                true,
            ),
        );
        assert(events_view(r@) =~= spec_route(conn_id, line@, old(my_nick)@, ts@, signon@).1);
        return r;
    }
    if let Some((target, text)) = parse_privmsg(&rest) {
        return privmsg_route(conn_id, &nick, &target, &text, my_nick.as_str(), &t);
    }
    if let Some((target, text)) = parse_notice(&rest) {
        return notice_route(conn_id, &nick, &target, &text, &t);
    }
    if let Some(evs) = membership_route(conn_id, &nick, &rest, &t) {
        return evs;
    }
    r.push(default_event(conn_id, line, my_nick.as_str(), &t, signon));
    assert(events_view(r@) =~= spec_route(conn_id, line@, my_nick@, ts@, signon@).1);
    r
}


// ---------------------------------------------------------------------------
// Our own nick
// ---------------------------------------------------------------------------

/// The nick that `line` renames us to, when we are known as `my_nick`: a
/// `NICK` line whose source is our nick. (A names or topic reply is read as
/// such before anything else, so it never renames us.)
pub open spec fn own_nick_change(line: Seq<char>, my_nick: Seq<char>) -> Option<Seq<char>> {
    if spec_names_reply(line) is Some || spec_topic_332(line) is Some {
        None
    } else {
        match spec_source(line) {
            Some((prefix, rest)) => if nick_of(prefix) == my_nick {
                spec_nick_change(rest)
            } else {
                None
            },
            None => None,
        }
    }
}

/// Some event of `evs` tells the UI our new nick.
pub open spec fn sets_my_nick(evs: Seq<UiEventV>) -> bool {
    exists|i: int| 0 <= i < evs.len() && #[trigger] evs[i] is SetMyNick
}

/// A `NICK` line from our own nick renames us, and its first event tells the
/// UI the new nick; every other line leaves our nick as it was and tells the
/// UI no new nick.
pub proof fn only_our_nick_change_renames_us(
    conn_id: u64,
    line: Seq<char>,
    my_nick: Seq<char>,
    ts: Seq<char>,
    signon: Seq<char>,
)
    ensures
        ({
            let (nick, evs) = spec_route(conn_id, line, my_nick, ts, signon);
            match own_nick_change(line, my_nick) {
                Some(new_nick) => {
                    &&& nick == new_nick
                    &&& evs.len() > 0
                    &&& evs[0] == (UiEventV::SetMyNick { conn_id, nick: new_nick })
                },
                None => {
                    &&& nick == my_nick
                    &&& !sets_my_nick(evs)
                },
            }
        }),
{
    let (nick, evs) = spec_route(conn_id, line, my_nick, ts, signon);
    if own_nick_change(line, my_nick) is None {
        assert forall|i: int| 0 <= i < evs.len() implies !(#[trigger] evs[i] is SetMyNick) by {
            if spec_names_reply(line) is None && spec_topic_332(line) is None {
                match spec_source(line) {
                    Some((prefix, rest)) => {
                        let n = nick_of(prefix);
                        if spec_nick_change(rest) is None {
                            if spec_privmsg(rest) is None && spec_notice(rest) is None {
                                match membership_events(conn_id, n, rest, ts) {
                                    Some(m) => {
                                        assert(evs == m);
                                    },
                                    None => {},
                                }
                            }
                        }
                    },
                    None => {},
                }
            }
        }
    }
}

/// A line `:<source> NICK <x>`, its source free of spaces, renames us
/// exactly when the source's nick is ours, to `x` trimmed and without a
/// leading `:`. The one exception is a line that reads as a names (353) or
/// topic (332) reply, which is handled as that reply: it happens only where
/// whitespace other than a space inside the source makes `353` or `332` the
/// line's second word.
pub proof fn a_nick_line_from_us_renames_us(
    conn_id: u64,
    source: Seq<char>,
    x: Seq<char>,
    my_nick: Seq<char>,
    ts: Seq<char>,
    signon: Seq<char>,
)
    requires
        !source.contains(' '),
        spec_names_reply(":"@ + source + " NICK "@ + x) is None,
        spec_topic_332(":"@ + source + " NICK "@ + x) is None,
    ensures
        ({
            let line = ":"@ + source + " NICK "@ + x;
            let renamed = nick_of(source) == my_nick;
            let new_nick = trim_start_char(trim(x), ':');
            &&& own_nick_change(line, my_nick) == (if renamed {
                Some(new_nick)
            } else {
                None
            })
            &&& spec_route(conn_id, line, my_nick, ts, signon).0 == (if renamed {
                new_nick
            } else {
                my_nick
            })
            &&& sets_my_nick(spec_route(conn_id, line, my_nick, ts, signon).1) == renamed
        }),
{
    reveal_strlit(":");
    reveal_strlit(" NICK ");
    reveal_strlit(" ");
    reveal_strlit("NICK ");
    let line = ":"@ + source + " NICK "@ + x;
    let l = source.len() as int;
    assert(line.len() == l + 7 + x.len());
    // The source is everything up to the first space.
    let r = line.skip(1);
    assert(line.take(1) =~= ":"@);
    assert(strip_prefix(line, ":"@) == Some(r));
    assert(r =~= source + " NICK "@ + x);
    lemma_find_seq_from(r, " "@, 0);
    assert(occurs_at(r, " "@, l)) by {
        assert(r.subrange(l, l + 1) =~= " "@);
    }
    assert forall|k: int| 0 <= k < l implies !occurs_at(r, " "@, k) by {
        if occurs_at(r, " "@, k) {
            assert(r.subrange(k, k + 1)[0] == r[k]);
            assert(r[k] == source[k]);
            assert(source.contains(' '));
        }
    }
    assert(find_seq_from(r, " "@, 0) == l);
    assert(r.take(l) =~= source);
    let rest = r.skip(l + 1);
    assert(rest =~= "NICK "@ + x);
    assert(spec_source(line) == Some((source, rest)));
    assert(starts_with(rest, "NICK "@)) by {
        assert(rest.take(5) =~= "NICK "@);
    }
    assert(rest.skip(5) =~= x);
    assert(spec_nick_change(rest) == Some(trim_start_char(trim(x), ':')));
    only_our_nick_change_renames_us(conn_id, line, my_nick, ts, signon);
    let evs = spec_route(conn_id, line, my_nick, ts, signon).1;
    if nick_of(source) == my_nick {
        assert(evs[0] is SetMyNick);
    }
}

/// Splitting `a + p + b` at the first `p` gives `a` and `b` when `a` holds
/// no character that starts `p`.
proof fn lemma_split_at_first(a: Seq<char>, p: Seq<char>, b: Seq<char>)
    requires
        p.len() > 0,
        !a.contains(p[0]),
    ensures
        split_once(a + p + b, p) == Some((a, b)),
{
    let s = a + p + b;
    let l = a.len() as int;
    lemma_find_seq_from(s, p, 0);
    assert(occurs_at(s, p, l)) by {
        assert(s.subrange(l, l + p.len()) =~= p);
    }
    assert forall|k: int| 0 <= k < l implies !occurs_at(s, p, k) by {
        if occurs_at(s, p, k) {
            assert(s.subrange(k, k + p.len())[0] == s[k]);
            assert(s[k] == a[k]);
        }
    }
    assert(find_seq_from(s, p, 0) == l);
    assert(s.take(l) =~= a);
    assert(s.skip(l + p.len()) =~= b);
}

/// Text without whitespace is its own trim.
proof fn lemma_trim_of_no_ws(t: Seq<char>)
    requires
        forall|k: int| 0 <= k < t.len() ==> !is_ws(#[trigger] t[k]),
    ensures
        trim(t) == t,
{
    assert(skip_ws(t, 0) == 0);
    assert(t.skip(0) =~= t);
    if t.len() > 0 {
        assert(back_ws(t, t.len() as int) == t.len());
    } else {
        assert(back_ws(t, 0) == 0);
    }
    assert(t.take(t.len() as int) =~= t);
}

/// `:<source> <rest>` comes from `source`, its source being free of spaces.
proof fn lemma_source_of(source: Seq<char>, rest: Seq<char>)
    requires
        !source.contains(' '),
    ensures
        spec_source(":"@ + source + " "@ + rest) == Some((source, rest)),
{
    reveal_strlit(":");
    reveal_strlit(" ");
    let line = ":"@ + source + " "@ + rest;
    assert(line.take(1) =~= ":"@);
    assert(line.skip(1) =~= source + " "@ + rest);
    assert(" "@[0] == ' ');
    lemma_split_at_first(source, " "@, rest);
}

/// A message `:<source> PRIVMSG <target> :<text>` is shown in the channel it
/// was sent to (a target starting with `#`), or else in a buffer named
/// after the sender, which is made sure to exist first. It reads
/// `<nick> text`, or `* nick action` for a CTCP ACTION, counts as unread,
/// and is highlighted when it is private or its text mentions our nick. Our
/// nick does not change. (The source is free of spaces and the target of
/// whitespace; a line that reads as a names or topic reply is that reply.)
pub proof fn messages_are_shown_where_they_belong(
    conn_id: u64,
    source: Seq<char>,
    target: Seq<char>,
    text: Seq<char>,
    my_nick: Seq<char>,
    ts: Seq<char>,
    signon: Seq<char>,
)
    requires
        !source.contains(' '),
        forall|k: int| 0 <= k < target.len() ==> !is_ws(#[trigger] target[k]),
        spec_names_reply(":"@ + source + " PRIVMSG "@ + target + " :"@ + text) is None,
        spec_topic_332(":"@ + source + " PRIVMSG "@ + target + " :"@ + text) is None,
    ensures
        ({
            let line = ":"@ + source + " PRIVMSG "@ + target + " :"@ + text;
            let nick = nick_of(source);
            let to_channel = target.len() > 0 && target[0] == '#';
            let buffer = if to_channel {
                target
            } else {
                nick
            };
            let shown = if spec_is_ctcp_action(text) {
                ts + " * "@ + nick + " "@ + spec_ctcp_action(text)
            } else {
                ts + " <"@ + nick + "> "@ + text
            };
            spec_route(conn_id, line, my_nick, ts, signon) == (
                my_nick,
                seq![
                    UiEventV::EnsureBuffer { conn_id, buffer, make_current: false },
                    UiEventV::Append {
                        conn_id,
                        buffer,
                        line: shown,
                        bump_unread: true,
                        bump_highlight: !to_channel || spec_contains_nick_word(text, my_nick),
                    },
                ],
            )
        }),
{
    reveal_strlit("PRIVMSG ");
    reveal_strlit(" PRIVMSG ");
    reveal_strlit(":");
    reveal_strlit("NICK ");
    reveal_strlit(" :");
    reveal_strlit(" ");
    reveal_strlit("#");
    let rest = "PRIVMSG "@ + target + " :"@ + text;
    let line = ":"@ + source + " PRIVMSG "@ + target + " :"@ + text;
    assert(line =~= ":"@ + source + " "@ + rest);
    lemma_source_of(source, rest);
    assert(rest[0] == 'P' && "NICK "@[0] == 'N');
    assert(strip_prefix(rest, "NICK "@) is None) by {
        if starts_with(rest, "NICK "@) {
            assert(rest.take(5)[0] == rest[0]);
        }
    }
    assert(rest.take(8) =~= "PRIVMSG "@);
    let r = rest.skip(8);
    assert(r =~= target + " :"@ + text);
    assert(!target.contains(' ')) by {
        if target.contains(' ') {
            let k = choose|k: int| 0 <= k < target.len() && target[k] == ' ';
            assert(is_ws(target[k]));
        }
    }
    lemma_split_at_first(target, " :"@, text);
    lemma_trim_of_no_ws(target);
    assert(spec_privmsg(rest) == Some((target, text)));
    assert(starts_with(target, "#"@) == (target.len() > 0 && target[0] == '#')) by {
        if target.len() > 0 {
            assert(target.take(1) =~= seq![target[0]]);
            assert("#"@ =~= seq!['#']);
        }
    }
}

/// A notice `:<source> NOTICE <target> :<text>` reads `-nick- text`: in the
/// channel it was sent to (a target starting with `#`), made sure to exist
/// first, or else in Status. It counts as unread and is never highlighted.
/// (The source is free of spaces and the target of whitespace; a line that
/// reads as a names or topic reply is that reply.)
pub proof fn notices_read_as_notices(
    conn_id: u64,
    source: Seq<char>,
    target: Seq<char>,
    text: Seq<char>,
    my_nick: Seq<char>,
    ts: Seq<char>,
    signon: Seq<char>,
)
    requires
        !source.contains(' '),
        forall|k: int| 0 <= k < target.len() ==> !is_ws(#[trigger] target[k]),
        spec_names_reply(":"@ + source + " NOTICE "@ + target + " :"@ + text) is None,
        spec_topic_332(":"@ + source + " NOTICE "@ + target + " :"@ + text) is None,
    ensures
        ({
            let line = ":"@ + source + " NOTICE "@ + target + " :"@ + text;
            let shown = ts + " -"@ + nick_of(source) + "- "@ + text;
            let appended = |b: Seq<char>|
                UiEventV::Append {
                    conn_id,
                    buffer: b,
                    line: shown,
                    bump_unread: true,
                    bump_highlight: false,
                };
            spec_route(conn_id, line, my_nick, ts, signon) == (
                my_nick,
                if target.len() > 0 && target[0] == '#' {
                    seq![UiEventV::EnsureBuffer { conn_id, buffer: target, make_current: false }, appended(target)]
                } else {
                    seq![appended("Status"@)]
                },
            )
        }),
{
    reveal_strlit("NOTICE ");
    reveal_strlit(" NOTICE ");
    reveal_strlit(":");
    reveal_strlit("PRIVMSG ");
    reveal_strlit("NICK ");
    reveal_strlit(" :");
    reveal_strlit(" ");
    reveal_strlit("#");
    let rest = "NOTICE "@ + target + " :"@ + text;
    let line = ":"@ + source + " NOTICE "@ + target + " :"@ + text;
    assert(line =~= ":"@ + source + " "@ + rest);
    lemma_source_of(source, rest);
    assert(rest[0] == 'N' && rest[1] == 'O' && "NICK "@[1] == 'I' && "PRIVMSG "@[0] == 'P');
    assert(strip_prefix(rest, "NICK "@) is None) by {
        if starts_with(rest, "NICK "@) {
            assert(rest.take(5)[1] == rest[1]);
        }
    }
    assert(strip_prefix(rest, "PRIVMSG "@) is None) by {
        if starts_with(rest, "PRIVMSG "@) {
            assert(rest.take(8)[0] == rest[0]);
        }
    }
    assert(rest.take(7) =~= "NOTICE "@);
    let r = rest.skip(7);
    assert(r =~= target + " :"@ + text);
    assert(!target.contains(' ')) by {
        if target.contains(' ') {
            let k = choose|k: int| 0 <= k < target.len() && target[k] == ' ';
            assert(is_ws(target[k]));
        }
    }
    lemma_split_at_first(target, " :"@, text);
    lemma_trim_of_no_ws(target);
    assert(spec_notice(rest) == Some((target, text)));
    assert(starts_with(target, "#"@) == (target.len() > 0 && target[0] == '#')) by {
        if target.len() > 0 {
            assert(target.take(1) =~= seq![target[0]]);
            assert("#"@ =~= seq!['#']);
        }
    }
}

} // verus!
