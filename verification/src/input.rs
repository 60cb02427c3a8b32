//! What typing does: the message entry's history, and what a submitted
//! line, slash command or palette command does to the window and the
//! connections.
use vstd::prelude::*;
use vstd::utf8::is_ascii_chars;
use crate::text::{ascii_lower, eq_ignore_ascii_case};
use crate::commands::{plan, spec_needs_channel, spec_plan, Ctx, Out, OutV};
use crate::model::{BackendCmd, BackendCmdV, BufferKey, IrcConfig, IrcConfigV};
use crate::profiles::spec_parse_u16;
use crate::text::{
    chars_of, dec, eq_str, extend, extend_str, lower_chars, parse_u64, lowercase, spec_parse_u64,
    split_once, split_once_vec, starts_with, string_of, strip_prefix, trim, trim_vec, u64_dec,
};
use crate::ui::{
    concat, conn_index, effects_view, key_named, key_of, none, one, spec_find_buffer, spec_open, ConnEntryV,
    Effect, EffectV, UiState, UiStateV,
};

verus! {

// ---------------------------------------------------------------------------
// History
// ---------------------------------------------------------------------------

/// The lines sent from the entry, for Up and Down to bring back.
pub struct History {
    items: Vec<String>,
    /// Which item the entry shows; `items.len()` when it shows new text.
    pos: usize,
    /// The new text being typed, kept while browsing older lines.
    scratch: String,
}

pub struct HistoryV {
    pub items: Seq<Seq<char>>,
    pub pos: nat,
    pub scratch: Seq<char>,
}

impl View for History {
    type V = HistoryV;

    closed spec fn view(&self) -> HistoryV {
        HistoryV { items: crate::model::strings_view(self.items@), pos: self.pos as nat, scratch: self.scratch@ }
    }
}

impl History {
    #[verifier::type_invariant]
    closed spec fn inv(self) -> bool {
        self.pos <= self.items.len()
    }

    pub fn new() -> (r: History)
        ensures
            r@ == (HistoryV { items: seq![], pos: 0, scratch: seq![] }),
    {
        let h = History { items: Vec::new(), pos: 0, scratch: String::new() };
        assert(h@.items =~= Seq::<Seq<char>>::empty());
        h
    }

    /// Records a sent line (a repeat of the last one is not recorded
    /// twice) and goes back to new text.
    pub fn push(&mut self, item: String)
        ensures
            final(self)@ == spec_push(old(self)@, item@),
    {
        proof {
            use_type_invariant(&*self);
        }
        let ghost pre = self@;
        let n = self.items.len();
        let repeat = n > 0 && eq_str(&chars_of(self.items[n - 1].as_str()), item.as_str());
        if !repeat {
            self.pos = 0;
            let mut items: Vec<String> = Vec::new();
            std::mem::swap(&mut items, &mut self.items);
            items.push(item);
            self.items = items;
        }
        self.pos = self.items.len();
        self.scratch = String::new();
        proof {
            if n > 0 {
                assert(pre.items.last() == self.items@[n - 1]@) by {
                    assert(pre.items[n - 1] == self.items@[n - 1]@);
                }
            }
        }
        assert(self@.items =~= spec_push(pre, item@).items);
    }

    /// Up: the entry shows the previous line, if there is one; the text
    /// being typed is kept first. `None` leaves the entry as it is.
    pub fn up(&mut self, entry: &str) -> (r: Option<String>)
        ensures
            final(self)@ == spec_up(old(self)@, entry@).0,
            opt_str(r) == spec_up(old(self)@, entry@).1,
    {
        proof {
            use_type_invariant(&*self);
        }
        if self.items.len() == 0 {
            return None;
        }
        if self.pos == self.items.len() {
            self.scratch = entry.to_owned();
        }
        if self.pos > 0 {
            self.pos = self.pos - 1;
            Some(self.items[self.pos].clone())
        } else {
            None
        }
    }

    /// Down: the entry shows the next line, or the text that was being
    /// typed after the newest. `None` leaves the entry as it is.
    pub fn down(&mut self) -> (r: Option<String>)
        ensures
            final(self)@ == spec_down(old(self)@).0,
            opt_str(r) == spec_down(old(self)@).1,
    {
        proof {
            use_type_invariant(&*self);
        }
        if self.items.len() == 0 {
            return None;
        }
        if self.pos < self.items.len() {
            self.pos = self.pos + 1;
            if self.pos == self.items.len() {
                Some(self.scratch.clone())
            } else {
                Some(self.items[self.pos].clone())
            }
        } else {
            None
        }
    }
}

pub open spec fn opt_str(r: Option<String>) -> Option<Seq<char>> {
    match r {
        Some(s) => Some(s@),
        None => None,
    }
}

pub open spec fn spec_push(h: HistoryV, item: Seq<char>) -> HistoryV {
    let items = if h.items.len() > 0 && h.items.last() == item {
        h.items
    } else {
        h.items.push(item)
    };
    HistoryV { items, pos: items.len(), scratch: seq![] }
}

pub open spec fn spec_up(h: HistoryV, entry: Seq<char>) -> (HistoryV, Option<Seq<char>>) {
    if h.items.len() == 0 {
        (h, None)
    } else {
        let scratch = if h.pos == h.items.len() {
            entry
        } else {
            h.scratch
        };
        if h.pos > 0 {
            let p = (h.pos - 1) as nat;
            (HistoryV { pos: p, scratch, ..h }, Some(h.items[p as int]))
        } else {
            (HistoryV { scratch, ..h }, None)
        }
    }
}

pub open spec fn spec_down(h: HistoryV) -> (HistoryV, Option<Seq<char>>) {
    if h.items.len() == 0 {
        (h, None)
    } else if h.pos < h.items.len() {
        let p = h.pos + 1;
        (
            HistoryV { pos: p, ..h },
            Some(
                if p == h.items.len() {
                    h.scratch
                } else {
                    h.items[p as int]
                },
            ),
        )
    } else {
        (h, None)
    }
}

/// Up right after sending a line brings that line back.
pub proof fn up_after_push_recalls_the_line(h: HistoryV, item: Seq<char>, entry: Seq<char>)
    ensures
        spec_up(spec_push(h, item), entry).1 == Some(item),
{
}

/// Going up and then down again returns to the text that was being typed.
pub proof fn up_then_down_restores_the_entry(h: HistoryV, entry: Seq<char>)
    requires
        h.pos == h.items.len(),
        h.items.len() > 0,
    ensures
        spec_down(spec_up(h, entry).0).1 == Some(entry),
{
}


// ---------------------------------------------------------------------------
// Pieces of a command line
// ---------------------------------------------------------------------------

/// A line appended to buffer `key`, stamped `ts`.
pub open spec fn echo(key: (u64, Seq<char>), ts: Seq<char>, text: Seq<char>) -> EffectV {
    EffectV::Append { key, line: ts + text }
}

/// A line sent on connection `conn_id`.
pub open spec fn send_raw(conn_id: u64, line: Seq<char>) -> EffectV {
    EffectV::Backend(BackendCmdV::SendRaw { conn_id, line })
}

/// Our nick on a connection, `me` if it is unknown.
pub open spec fn nick_on(st: UiStateV, conn_id: u64) -> Seq<char> {
    let i = conn_index(st.conns, conn_id, 0);
    if i < st.conns.len() {
        st.conns[i].nick
    } else {
        "me"@
    }
}

/// A connection's default channel, `fallback` if it is unknown.
pub open spec fn default_target_on(st: UiStateV, conn_id: u64, fallback: Seq<char>) -> Seq<char> {
    let i = conn_index(st.conns, conn_id, 0);
    if i < st.conns.len() {
        st.conns[i].default_target
    } else {
        fallback
    }
}

/// The command word: the line up to its first space.
pub open spec fn cmd_word(line: Seq<char>) -> Seq<char> {
    match split_once(line, " "@) {
        Some((a, _)) => a,
        None => line,
    }
}

/// What follows the first space, if there is one.
pub open spec fn cmd_rest(line: Seq<char>) -> Option<Seq<char>> {
    match split_once(line, " "@) {
        Some((_, b)) => Some(b),
        None => None,
    }
}

pub open spec fn rest_or_empty(line: Seq<char>) -> Seq<char> {
    match cmd_rest(line) {
        Some(r) => r,
        None => seq![],
    }
}

/// The first argument: up to the next space, trimmed.
pub open spec fn arg_one(line: Seq<char>) -> Seq<char> {
    trim(
        match cmd_rest(line) {
            Some(r) => match split_once(r, " "@) {
                Some((x, _)) => x,
                None => r,
            },
            None => seq![],
        },
    )
}

/// The rest after the first argument, trimmed.
pub open spec fn arg_two(line: Seq<char>) -> Seq<char> {
    trim(
        match cmd_rest(line) {
            Some(r) => match split_once(r, " "@) {
                Some((_, y)) => y,
                None => seq![],
            },
            None => seq![],
        },
    )
}

/// What a planned command's output does in the current buffer.
pub open spec fn out_effect(o: OutV, cur: (u64, Seq<char>), ts: Seq<char>) -> EffectV {
    match o {
        OutV::Raw(l) => send_raw(cur.0, l),
        OutV::Info(t) => echo(cur, ts, " "@ + t),
    }
}

// ---------------------------------------------------------------------------
// Slash commands
// ---------------------------------------------------------------------------

pub open spec fn usage(cur: (u64, Seq<char>), ts: Seq<char>, text: Seq<char>) -> Seq<EffectV> {
    seq![echo(cur, ts, " *** Usage: "@ + text)]
}

/// `/join`, `/msg`, `/query`: commands that open a buffer.
pub open spec fn spec_slash_open(st: UiStateV, cmd: Seq<char>, a1: Seq<char>, a2: Seq<char>, ts: Seq<char>) -> (
    UiStateV,
    Seq<EffectV>,
) {
    let cur = st.current;
    let conn = cur.0;
    let key = key_of(conn, a1);
    if cmd == "join"@ {
        if a1.len() == 0 {
            (st, usage(cur, ts, "/join #chan"@))
        } else {
            let (s1, e1) = spec_open(st, key, true);
            (
                s1,
                seq![send_raw(conn, "JOIN "@ + a1), send_raw(conn, "NAMES "@ + a1)] + e1 + seq![
                    EffectV::Select { key },
                ],
            )
        }
    } else if cmd == "msg"@ {
        if a1.len() == 0 || a2.len() == 0 {
            (st, usage(cur, ts, "/msg nick text"@))
        } else {
            let (s1, e1) = spec_open(st, key, true);
            (
                s1,
                seq![send_raw(conn, "PRIVMSG "@ + a1 + " :"@ + a2)] + e1 + seq![
                    EffectV::Select { key },
                    echo(key, ts, " <"@ + nick_on(st, conn) + "> "@ + a2),
                ],
            )
        }
    } else {
        if a1.len() == 0 {
            (st, usage(cur, ts, "/query <nick>"@))
        } else {
            let (s1, e1) = spec_open(st, key, true);
            (
                s1,
                e1 + seq![EffectV::Select { key }] + if a2.len() > 0 {
                    seq![
                        send_raw(conn, "PRIVMSG "@ + a1 + " :"@ + a2),
                        echo(key, ts, " <"@ + nick_on(st, conn) + "> "@ + a2),
                    ]
                } else {
                    seq![]
                },
            )
        }
    }
}

/// `/me`, `/nick`, `/raw`: commands that act in place.
pub open spec fn spec_slash_here(st: UiStateV, cmd: Seq<char>, a1: Seq<char>, a2: Seq<char>, ts: Seq<char>) -> (
    UiStateV,
    Seq<EffectV>,
) {
    let cur = st.current;
    let conn = cur.0;
    let joined = trim(a1 + " "@ + a2);
    if cmd == "me"@ {
        if joined.len() == 0 {
            (st, seq![])
        } else {
            let target = if cur.1 == "Status"@ {
                default_target_on(st, conn, "#hexrust"@)
            } else {
                cur.1
            };
            (
                st,
                seq![
                    send_raw(conn, "PRIVMSG "@ + target + " :\u{1}ACTION "@ + joined + "\u{1}"@),
                    echo(key_of(conn, target), ts, " * "@ + nick_on(st, conn) + " "@ + joined),
                ],
            )
        }
    } else if cmd == "nick"@ {
        if a1.len() == 0 {
            (st, seq![])
        } else {
            let i = conn_index(st.conns, conn, 0);
            (
                if i < st.conns.len() {
                    UiStateV { conns: st.conns.update(i, ConnEntryV { nick: a1, ..st.conns[i] }), ..st }
                } else {
                    st
                },
                seq![send_raw(conn, "NICK "@ + a1), echo(cur, ts, " *** NICK "@ + a1)],
            )
        }
    } else {
        if joined.len() == 0 {
            (st, seq![])
        } else {
            (st, seq![send_raw(conn, joined), echo(cur, ts, " => "@ + joined)])
        }
    }
}

/// `/switch` and `/server`.
pub open spec fn spec_slash_elsewhere(st: UiStateV, cmd: Seq<char>, a1: Seq<char>, a2: Seq<char>, ts: Seq<char>) -> Seq<EffectV> {
    let cur = st.current;
    if cmd == "switch"@ {
        if a1.len() == 0 {
            usage(cur, ts, "/switch <buffer>"@)
        } else {
            match spec_find_buffer(st, a1) {
                Some(k) => seq![EffectV::Select { key: k }],
                None => seq![echo(cur, ts, " *** Not found: "@ + a1)],
            }
        }
    } else {
        if a1.len() == 0 {
            usage(cur, ts, "/server <id> <raw>"@)
        } else {
            match spec_parse_u64(a1) {
                None => seq![echo(cur, ts, " *** Invalid server id: "@ + a1)],
                Some(id) => if a2.len() == 0 {
                    usage(cur, ts, "/server <id> <raw>"@)
                } else {
                    seq![
                        send_raw(id, a2),
                        echo(cur, ts, " => (server "@ + dec(id as nat) + ") "@ + a2),
                    ]
                },
            }
        }
    }
}

/// A command the window does not handle itself: planned by `commands`,
/// refused when it needs a channel there is none of, otherwise sent as it
/// was typed.
pub open spec fn spec_slash_other(st: UiStateV, cmdline: Seq<char>, cmd: Seq<char>, ts: Seq<char>) -> Seq<EffectV> {
    let cur = st.current;
    match spec_plan(cmd, rest_or_empty(cmdline), cur.1, default_target_on(st, cur.0, seq![])) {
        Some(outs) => outs.map_values(|o: OutV| out_effect(o, cur, ts)),
        None => if spec_needs_channel(cmd) {
            seq![echo(cur, ts, " *** /"@ + cmd + " needs a channel: use it in one, or name one"@)]
        } else {
            seq![send_raw(cur.0, trim(cmdline)), echo(cur, ts, " => "@ + trim(cmdline))]
        },
    }
}

/// A slash command (without its `/`), typed in the current buffer at `ts`:
/// its command word is matched lowercased.
pub open spec fn spec_slash(st: UiStateV, cmdline: Seq<char>, ts: Seq<char>) -> (UiStateV, Seq<EffectV>) {
    spec_slash_as(st, lowercase(cmd_word(cmdline)), cmdline, ts)
}

/// The slash command `cmdline` run as the command `cmd`.
pub open spec fn spec_slash_as(st: UiStateV, cmd: Seq<char>, cmdline: Seq<char>, ts: Seq<char>) -> (
    UiStateV,
    Seq<EffectV>,
) {
    let a1 = arg_one(cmdline);
    let a2 = arg_two(cmdline);
    if cmd == "join"@ || cmd == "msg"@ || cmd == "query"@ {
        spec_slash_open(st, cmd, a1, a2, ts)
    } else if cmd == "me"@ || cmd == "nick"@ || cmd == "raw"@ {
        spec_slash_here(st, cmd, a1, a2, ts)
    } else if cmd == "switch"@ || cmd == "server"@ {
        (st, spec_slash_elsewhere(st, cmd, a1, a2, ts))
    } else if cmd == "quit"@ {
        let reason = trim(rest_or_empty(cmdline));
        (
            st,
            seq![
                EffectV::Backend(
                    BackendCmdV::Disconnect {
                        conn_id: st.current.0,
                        reason: if reason.len() == 0 {
                            "hexrust"@
                        } else {
                            reason
                        },
                    },
                ),
            ],
        )
    } else {
        (st, spec_slash_other(st, cmdline, cmd, ts))
    }
}

/// What submitting the entry's text does, at `ts`: nothing for blank text;
/// otherwise it is remembered, then run as a command if it starts with `/`,
/// or sent as a message to the current buffer (to the connection's default
/// channel from Status).
pub open spec fn spec_submit(st: UiStateV, h: HistoryV, raw: Seq<char>, ts: Seq<char>) -> (
    UiStateV,
    HistoryV,
    Seq<EffectV>,
) {
    let msg = trim(raw);
    if msg.len() == 0 {
        (st, h, seq![])
    } else {
        let h1 = spec_push(h, msg);
        let cur = st.current;
        if cur.0 == 0 {
            (st, h1, seq![echo(cur, ts, " *** (no connection) "@ + msg)])
        } else if starts_with(msg, "/"@) {
            let (s1, e) = spec_slash(st, trim(msg.skip(1)), ts);
            (s1, h1, e)
        } else {
            let target = if cur.1 == "Status"@ {
                default_target_on(st, cur.0, "#hexrust"@)
            } else {
                cur.1
            };
            let key = key_of(cur.0, target);
            let (s1, e1) = spec_open(st, key, false);
            (
                s1,
                h1,
                e1 + seq![
                    send_raw(cur.0, "PRIVMSG "@ + target + " :"@ + msg),
                    echo(key, ts, " <"@ + nick_on(st, cur.0) + "> "@ + msg),
                ],
            )
        }
    }
}



// ---------------------------------------------------------------------------
// Connecting, the command palette, the user list
// ---------------------------------------------------------------------------

/// The settings a connection made from the window uses: TLS, no passwords.
pub open spec fn plain_config(server: Seq<char>, port: u16, nick: Seq<char>, channel: Seq<char>) -> IrcConfigV {
    IrcConfigV {
        server,
        port,
        tls: true,
        nick,
        initial_channel: channel,
        server_password: None,
        sasl_username: None,
        sasl_password: None,
    }
}

/// A field, trimmed, or `fallback` when blank.
pub open spec fn or_default(s: Seq<char>, fallback: Seq<char>) -> Seq<char> {
    if trim(s).len() == 0 {
        fallback
    } else {
        trim(s)
    }
}

/// A port as typed: 6697 unless it parses.
pub open spec fn port_or_default(s: Seq<char>) -> u16 {
    match spec_parse_u16(s) {
        Some(p) => p,
        None => 6697,
    }
}

/// The connect button, with the top bar's fields as typed: a server is
/// required; nick and channel default to `hexrust` and `#hexrust`.
pub open spec fn spec_connect_form(
    st: UiStateV,
    server: Seq<char>,
    port: Seq<char>,
    nick: Seq<char>,
    channel: Seq<char>,
    ts: Seq<char>,
) -> (UiStateV, Seq<EffectV>) {
    let srv = trim(server);
    if srv.len() == 0 {
        (st, seq![echo(key_of(0, "Status"@), ts, " *** Enter a server."@)])
    } else {
        let n = or_default(nick, "hexrust"@);
        let c = or_default(channel, "#hexrust"@);
        let id = st.next_conn_id;
        let (s1, e1) = crate::ui::spec_add_connection(st, srv, n, c);
        (
            s1,
            e1 + seq![
                EffectV::Backend(
                    BackendCmdV::Connect { conn_id: id, cfg: plain_config(srv, port_or_default(trim(port)), n, c) },
                ),
                echo(key_of(id, "Status"@), ts, " *** Connection requested."@),
            ],
        )
    }
}

/// The `i`th word, or `fallback`.
pub open spec fn word_or(w: Seq<Seq<char>>, i: int, fallback: Seq<char>) -> Seq<char> {
    if 0 <= i < w.len() {
        w[i]
    } else {
        fallback
    }
}

/// A command palette line, at `ts`: `connect <server> [port] [nick]
/// [channel]`, `join <channel>`, `switch <buffer>`, `raw <line>`, or
/// anything else, sent as typed. Every command that acts closes the palette.
pub open spec fn spec_palette(st: UiStateV, input: Seq<char>, ts: Seq<char>) -> (UiStateV, Seq<EffectV>) {
    spec_palette_as(st, lowercase(palette_word(input)), input, ts)
}

/// The first word of a palette line.
pub open spec fn palette_word(input: Seq<char>) -> Seq<char> {
    word_or(crate::text::words(trim(input)), 0, seq![])
}

/// The palette line `input` run as the command `cmd`.
pub open spec fn spec_palette_as(st: UiStateV, cmd: Seq<char>, input: Seq<char>, ts: Seq<char>) -> (
    UiStateV,
    Seq<EffectV>,
) {
    let inp = trim(input);
    let w = crate::text::words(inp);
    let conn = st.current.0;
    if inp.len() == 0 {
        (st, seq![])
    } else if cmd == "connect"@ {
        let server = word_or(w, 1, seq![]);
        if server.len() == 0 {
            (st, seq![echo(key_of(0, "Status"@), ts, " *** palette: missing server"@)])
        } else {
            let port = port_or_default(word_or(w, 2, "6697"@));
            let nick = word_or(w, 3, "hexrust"@);
            let chan = word_or(w, 4, "#hexrust"@);
            let id = st.next_conn_id;
            let (s1, e1) = crate::ui::spec_add_connection(st, server, nick, chan);
            (
                s1,
                e1 + seq![
                    EffectV::Backend(BackendCmdV::Connect { conn_id: id, cfg: plain_config(server, port, nick, chan) }),
                    EffectV::Close,
                ],
            )
        }
    } else if cmd == "join"@ {
        let chan = word_or(w, 1, seq![]);
        if chan.len() == 0 {
            (st, seq![])
        } else {
            (st, seq![send_raw(conn, "JOIN "@ + chan), send_raw(conn, "NAMES "@ + chan), EffectV::Close])
        }
    } else if cmd == "switch"@ {
        let q = word_or(w, 1, seq![]);
        if q.len() == 0 {
            (st, seq![])
        } else {
            match spec_find_buffer(st, q) {
                Some(k) => (UiStateV { current: k, ..st }, seq![EffectV::Select { key: k }, EffectV::Close]),
                None => (st, seq![EffectV::Close]),
            }
        }
    } else if cmd == "raw"@ {
        let rest = trim(
            match strip_prefix(inp, "raw"@) {
                Some(r) => r,
                None => seq![],
            },
        );
        (
            st,
            (if rest.len() > 0 {
                seq![send_raw(conn, rest)]
            } else {
                seq![]
            }) + seq![EffectV::Close],
        )
    } else {
        (st, seq![send_raw(conn, inp), EffectV::Close])
    }
}

/// A word written as a lowercase ASCII command name `c` in any mix of
/// cases names that command: `/JOIN #x` does what `/join #x` does.
pub proof fn slash_command_words_ignore_ascii_case(
    st: UiStateV,
    cmdline: Seq<char>,
    c: Seq<char>,
    ts: Seq<char>,
)
    requires
        is_ascii_chars(c),
        c == c.map_values(|x: char| ascii_lower(x)),
        eq_ignore_ascii_case(cmd_word(cmdline), c),
    ensures
        spec_slash(st, cmdline, ts) == spec_slash_as(st, c, cmdline, ts),
{
    lowercases_to(cmd_word(cmdline), c);
}

/// The palette's command word is matched ignoring ASCII case too:
/// `JOIN #x` in the palette does what `join #x` does.
pub proof fn palette_words_ignore_ascii_case(st: UiStateV, input: Seq<char>, c: Seq<char>, ts: Seq<char>)
    requires
        is_ascii_chars(c),
        c == c.map_values(|x: char| ascii_lower(x)),
        eq_ignore_ascii_case(palette_word(input), c),
    ensures
        spec_palette(st, input, ts) == spec_palette_as(st, c, input, ts),
{
    lowercases_to(palette_word(input), c);
}

/// A word equal, ignoring ASCII case, to lowercase ASCII text `c` has `c`
/// as its lowercase form.
proof fn lowercases_to(w: Seq<char>, c: Seq<char>)
    requires
        is_ascii_chars(c),
        c == c.map_values(|x: char| ascii_lower(x)),
        eq_ignore_ascii_case(w, c),
    ensures
        lowercase(w) == c,
{
    assert forall|k: int| 0 <= k < w.len() implies '\0' <= #[trigger] w[k] <= '\u{7f}' by {
        assert(ascii_lower(w[k]) == ascii_lower(c[k]));
    }
    assert forall|k: int| 0 <= k < w.len() implies ascii_lower(#[trigger] w[k]) == c[k] by {
        assert(ascii_lower(w[k]) == ascii_lower(c[k]));
        assert(c[k] == c.map_values(|x: char| ascii_lower(x))[k]);
    }
    assert(lowercase(w) =~= c);
}

/// Choosing a user in the user list: a private buffer with them on the
/// current connection, opened and shown. Placeholder rows and the global
/// Status buffer do nothing.
pub open spec fn spec_open_query(st: UiStateV, nick: Seq<char>) -> (UiStateV, Seq<EffectV>) {
    if nick.len() == 0 || starts_with(nick, "Waiting"@) || starts_with(nick, "Select"@) || st.current.0 == 0 {
        (st, seq![])
    } else {
        let key = key_of(st.current.0, nick);
        let (s1, e1) = spec_open(st, key, true);
        (s1, e1 + seq![EffectV::Select { key }])
    }
}

// ---------------------------------------------------------------------------
// The implementation
// ---------------------------------------------------------------------------

fn echo_eff(key: &BufferKey, ts: &str, text: &Vec<char>) -> (r: Effect)
    ensures
        r@ == echo(key@, ts@, text@),
{
    let mut l = chars_of(ts);
    extend(&mut l, text);
    Effect::Append { key: key.clone_key(), line: string_of(&l) }
}

fn send_eff(conn_id: u64, line: &Vec<char>) -> (r: Effect)
    ensures
        r@ == send_raw(conn_id, line@),
{
    Effect::Backend(BackendCmd::SendRaw { conn_id, line: string_of(line) })
}

/// `a` followed by `b`.
fn cat(a: &str, b: &Vec<char>) -> (r: Vec<char>)
    ensures
        r@ == a@ + b@,
{
    let mut v = chars_of(a);
    extend(&mut v, b);
    v
}

fn usage_eff(cur: &BufferKey, ts: &str, text: &str) -> (r: Vec<Effect>)
    ensures
        effects_view(r@) == usage(cur@, ts@, text@),
{
    let mut l = chars_of(" *** Usage: ");
    extend_str(&mut l, text);
    let r = one(echo_eff(cur, ts, &l));
    assert(effects_view(r@) =~= usage(cur@, ts@, text@));
    r
}

/// `a1 a2`, trimmed.
fn joined_args(a1: &Vec<char>, a2: &Vec<char>) -> (r: Vec<char>)
    ensures
        r@ == trim(a1@ + " "@ + a2@),
{
    let mut v = crate::irc::dup(a1);
    v.push(' ');
    extend(&mut v, a2);
    proof {
        reveal_strlit(" ");
    }
    assert(v@ =~= a1@ + " "@ + a2@);
    trim_vec(&v)
}

impl UiState {
    fn nick_on(&self, conn_id: u64) -> (r: Vec<char>)
        ensures
            r@ == nick_on(self@, conn_id),
    {
        let i = self.conn_idx(conn_id);
        if i < self.conns.len() {
            assert(self@.conns[i as int] == self.conns@[i as int]@);
            chars_of(self.conns[i].meta.nick.as_str())
        } else {
            chars_of("me")
        }
    }

    fn default_target_on(&self, conn_id: u64, fallback: &str) -> (r: Vec<char>)
        ensures
            r@ == default_target_on(self@, conn_id, fallback@),
    {
        let i = self.conn_idx(conn_id);
        if i < self.conns.len() {
            assert(self@.conns[i as int] == self.conns@[i as int]@);
            chars_of(self.conns[i].meta.default_target.as_str())
        } else {
            chars_of(fallback)
        }
    }

    fn slash_open(&mut self, cmd: &Vec<char>, a1: &Vec<char>, a2: &Vec<char>, ts: &str) -> (r: Vec<Effect>)
        ensures
            final(self)@ == spec_slash_open(old(self)@, cmd@, a1@, a2@, ts@).0,
            effects_view(r@) == spec_slash_open(old(self)@, cmd@, a1@, a2@, ts@).1,
    {
        let cur = self.current.clone_key();
        let conn = cur.conn_id;
        let key = BufferKey { conn_id: conn, name: string_of(a1) };
        let nick = self.nick_on(conn);
        if eq_str(cmd, "join") {
            if a1.len() == 0 {
                return usage_eff(&cur, ts, "/join #chan");
            }
            let mut e: Vec<Effect> = Vec::new();
            e.push(send_eff(conn, &cat("JOIN ", a1)));
            e.push(send_eff(conn, &cat("NAMES ", a1)));
            let e1 = self.open(&key, true);
            let r = concat(concat(e, e1), one(Effect::Select { key }));
            return r;
        }
        if eq_str(cmd, "msg") {
            if a1.len() == 0 || a2.len() == 0 {
                return usage_eff(&cur, ts, "/msg nick text");
            }
            let mut line = cat("PRIVMSG ", a1);
            extend_str(&mut line, " :");
            extend(&mut line, a2);
            let e0 = one(send_eff(conn, &line));
            let e1 = self.open(&key, true);
            let mut said = cat(" <", &nick);
            extend_str(&mut said, "> ");
            extend(&mut said, a2);
            let mut tail: Vec<Effect> = Vec::new();
            tail.push(Effect::Select { key: key.clone_key() });
            tail.push(echo_eff(&key, ts, &said));
            return concat(concat(e0, e1), tail);
        }
        if a1.len() == 0 {
            return usage_eff(&cur, ts, "/query <nick>");
        }
        let e1 = self.open(&key, true);
        let e2 = concat(e1, one(Effect::Select { key: key.clone_key() }));
        if a2.len() > 0 {
            let mut line = cat("PRIVMSG ", a1);
            extend_str(&mut line, " :");
            extend(&mut line, a2);
            let mut said = cat(" <", &nick);
            extend_str(&mut said, "> ");
            extend(&mut said, a2);
            let mut tail: Vec<Effect> = Vec::new();
            tail.push(send_eff(conn, &line));
            tail.push(echo_eff(&key, ts, &said));
            concat(e2, tail)
        } else {
            concat(e2, none())
        }
    }

    fn slash_here(&mut self, cmd: &Vec<char>, a1: &Vec<char>, a2: &Vec<char>, ts: &str) -> (r: Vec<Effect>)
        ensures
            final(self)@ == spec_slash_here(old(self)@, cmd@, a1@, a2@, ts@).0,
            effects_view(r@) == spec_slash_here(old(self)@, cmd@, a1@, a2@, ts@).1,
    {
        let cur = self.current.clone_key();
        let conn = cur.conn_id;
        let joined = joined_args(a1, a2);
        if eq_str(cmd, "me") {
            if joined.len() == 0 {
                return none();
            }
            let target = if eq_str(&chars_of(cur.name.as_str()), "Status") {
                self.default_target_on(conn, "#hexrust")
            } else {
                chars_of(cur.name.as_str())
            };
            let mut line = cat("PRIVMSG ", &target);
            extend_str(&mut line, " :\u{1}ACTION ");
            extend(&mut line, &joined);
            extend_str(&mut line, "\u{1}");
            let mut said = cat(" * ", &self.nick_on(conn));
            extend_str(&mut said, " ");
            extend(&mut said, &joined);
            let mut r: Vec<Effect> = Vec::new();
            r.push(send_eff(conn, &line));
            r.push(echo_eff(&BufferKey { conn_id: conn, name: string_of(&target) }, ts, &said));
            assert(effects_view(r@) =~= spec_slash_here(old(self)@, cmd@, a1@, a2@, ts@).1);
            return r;
        }
        if eq_str(cmd, "nick") {
            if a1.len() == 0 {
                return none();
            }
            let i = self.conn_idx(conn);
            if i < self.conns.len() {
                let ghost pre = self@;
                let mut e = self.conns.remove(i);
                assert(e@ == pre.conns[i as int]);
                e.meta.nick = string_of(a1);
                self.conns.insert(i, e);
                assert(self@.conns =~= pre.conns.update(i as int, ConnEntryV { nick: a1@, ..pre.conns[i as int] }));
            }
            let mut r: Vec<Effect> = Vec::new();
            r.push(send_eff(conn, &cat("NICK ", a1)));
            r.push(echo_eff(&cur, ts, &cat(" *** NICK ", a1)));
            assert(effects_view(r@) =~= spec_slash_here(old(self)@, cmd@, a1@, a2@, ts@).1);
            return r;
        }
        if joined.len() == 0 {
            return none();
        }
        let mut r: Vec<Effect> = Vec::new();
        r.push(send_eff(conn, &joined));
        r.push(echo_eff(&cur, ts, &cat(" => ", &joined)));
        assert(effects_view(r@) =~= spec_slash_here(old(self)@, cmd@, a1@, a2@, ts@).1);
        r
    }

    fn slash_elsewhere(&self, cmd: &Vec<char>, a1: &Vec<char>, a2: &Vec<char>, ts: &str) -> (r: Vec<Effect>)
        ensures
            effects_view(r@) == spec_slash_elsewhere(self@, cmd@, a1@, a2@, ts@),
    {
        let cur = self.current.clone_key();
        if eq_str(cmd, "switch") {
            if a1.len() == 0 {
                return usage_eff(&cur, ts, "/switch <buffer>");
            }
            let q = string_of(a1);
            return match self.find_buffer(q.as_str()) {
                Some(k) => one(Effect::Select { key: k }),
                None => one(echo_eff(&cur, ts, &cat(" *** Not found: ", a1))),
            };
        }
        if a1.len() == 0 {
            return usage_eff(&cur, ts, "/server <id> <raw>");
        }
        match parse_u64(a1) {
            None => one(echo_eff(&cur, ts, &cat(" *** Invalid server id: ", a1))),
            Some(id) => {
                if a2.len() == 0 {
                    return usage_eff(&cur, ts, "/server <id> <raw>");
                }
                let mut said = cat(" => (server ", &u64_dec(id));
                extend_str(&mut said, ") ");
                extend(&mut said, a2);
                let mut r: Vec<Effect> = Vec::new();
                r.push(send_eff(id, a2));
                r.push(echo_eff(&cur, ts, &said));
                assert(effects_view(r@) =~= spec_slash_elsewhere(self@, cmd@, a1@, a2@, ts@));
                r
            },
        }
    }

    fn slash_other(&self, cmdline: &Vec<char>, cmd: &Vec<char>, ts: &str) -> (r: Vec<Effect>)
        ensures
            effects_view(r@) == spec_slash_other(self@, cmdline@, cmd@, ts@),
    {
        let cur = self.current.clone_key();
        let rest = match split_once_vec(cmdline, " ") {
            Some((_, b)) => b,
            None => Vec::new(),
        };
        assert(rest@ == rest_or_empty(cmdline@));
        let def = string_of(&self.default_target_on(cur.conn_id, ""));
        let cmd_s = string_of(cmd);
        let rest_s = string_of(&rest);
        let ctx = Ctx { current_buffer: cur.name.as_str(), default_target: def.as_str() };
        proof {
            reveal_strlit("");
        }
        match plan(cmd_s.as_str(), rest_s.as_str(), &ctx) {
            Some(outs) => {
                let ghost ov = crate::commands::outs_view(outs@);
                let mut r: Vec<Effect> = Vec::new();
                let mut i: usize = 0;
                while i < outs.len()
                    invariant
                        i <= outs.len(),
                        ov == crate::commands::outs_view(outs@),
                        effects_view(r@) == ov.take(i as int).map_values(|o: OutV| out_effect(o, cur@, ts@)),
                    decreases outs.len() - i,
                {
                    let ghost pre = effects_view(r@);
                    assert(ov[i as int] == outs@[i as int]@);
                    match &outs[i] {
                        Out::Raw(l) => {
                            r.push(send_eff(cur.conn_id, &chars_of(l.as_str())));
                        },
                        Out::Info(t) => {
                            let mut x = chars_of(" ");
                            extend_str(&mut x, t.as_str());
                            r.push(echo_eff(&cur, ts, &x));
                        },
                    }
                    assert(effects_view(r@) =~= pre.push(out_effect(ov[i as int], cur@, ts@)));
                    i += 1;
                    assert(ov.take(i as int).map_values(|o: OutV| out_effect(o, cur@, ts@)) =~= ov.take(i - 1).map_values(
                        |o: OutV| out_effect(o, cur@, ts@),
                    ).push(out_effect(ov[i - 1], cur@, ts@)));
                }
                assert(ov.take(outs.len() as int) == ov);
                r
            },
            None => {
                if crate::commands::needs_channel(cmd_s.as_str()) {
                    let mut x = cat(" *** /", cmd);
                    extend_str(&mut x, " needs a channel: use it in one, or name one");
                    one(echo_eff(&cur, ts, &x))
                } else {
                    let raw = trim_vec(cmdline);
                    let mut r: Vec<Effect> = Vec::new();
                    r.push(send_eff(cur.conn_id, &raw));
                    r.push(echo_eff(&cur, ts, &cat(" => ", &raw)));
                    assert(effects_view(r@) =~= spec_slash_other(self@, cmdline@, cmd@, ts@));
                    r
                }
            },
        }
    }

    /// Runs a slash command (without its `/`) typed in the current buffer,
    /// stamped `ts`.
    pub fn handle_slash_command(&mut self, cmdline: &str, ts: &str) -> (r: Vec<Effect>)
        ensures
            final(self)@ == spec_slash(old(self)@, cmdline@, ts@).0,
            effects_view(r@) == spec_slash(old(self)@, cmdline@, ts@).1,
    {
        let line = chars_of(cmdline);
        let (word, rest) = match split_once_vec(&line, " ") {
            Some((a, b)) => (a, Some(b)),
            None => (crate::irc::dup(&line), None),
        };
        assert(word@ == cmd_word(cmdline@));
        let (p1, p2) = match &rest {
            Some(r) => match split_once_vec(r, " ") {
                Some((x, y)) => (x, y),
                None => (crate::irc::dup(r), Vec::new()),
            },
            None => (Vec::new(), Vec::new()),
        };
        let a1 = trim_vec(&p1);
        let a2 = trim_vec(&p2);
        assert(a1@ == arg_one(cmdline@));
        assert(a2@ == arg_two(cmdline@));
        let cmd = lower_chars(&word);
        if eq_str(&cmd, "join") || eq_str(&cmd, "msg") || eq_str(&cmd, "query") {
            return self.slash_open(&cmd, &a1, &a2, ts);
        }
        if eq_str(&cmd, "me") || eq_str(&cmd, "nick") || eq_str(&cmd, "raw") {
            return self.slash_here(&cmd, &a1, &a2, ts);
        }
        if eq_str(&cmd, "switch") || eq_str(&cmd, "server") {
            return self.slash_elsewhere(&cmd, &a1, &a2, ts);
        }
        if eq_str(&cmd, "quit") {
            let reason0 = match &rest {
                Some(r) => trim_vec(r),
                None => Vec::new(),
            };
            proof {
                reveal_strlit("");
            }
            assert(reason0@ == trim(rest_or_empty(cmdline@))) by {
                if rest is None {
                    assert(trim(Seq::<char>::empty()) =~= Seq::<char>::empty()) by {
                        crate::text::lemma_skip_ws(Seq::<char>::empty(), 0);
                    }
                }
            }
            let reason = if reason0.len() == 0 {
                "hexrust".to_owned()
            } else {
                string_of(&reason0)
            };
            return one(Effect::Backend(BackendCmd::Disconnect { conn_id: self.current.conn_id, reason }));
        }
        self.slash_other(&line, &cmd, ts)
    }

    /// Submits the entry's text, stamped `ts`.
    pub fn submit(&mut self, hist: &mut History, raw: &str, ts: &str) -> (r: Vec<Effect>)
        ensures
            final(self)@ == spec_submit(old(self)@, old(hist)@, raw@, ts@).0,
            final(hist)@ == spec_submit(old(self)@, old(hist)@, raw@, ts@).1,
            effects_view(r@) == spec_submit(old(self)@, old(hist)@, raw@, ts@).2,
    {
        let msg = trim_vec(&chars_of(raw));
        if msg.len() == 0 {
            return none();
        }
        hist.push(string_of(&msg));
        let cur = self.current.clone_key();
        if cur.conn_id == 0 {
            return one(echo_eff(&cur, ts, &cat(" *** (no connection) ", &msg)));
        }
        if crate::text::starts_with_str(&msg, "/") {
            let cmdline = trim_vec(&crate::text::slice_of(&msg, 1, msg.len()));
            assert(msg@.subrange(1, msg@.len() as int) == msg@.skip(1));
            return self.handle_slash_command(string_of(&cmdline).as_str(), ts);
        }
        let target = if eq_str(&chars_of(cur.name.as_str()), "Status") {
            self.default_target_on(cur.conn_id, "#hexrust")
        } else {
            chars_of(cur.name.as_str())
        };
        let nick = self.nick_on(cur.conn_id);
        let key = BufferKey { conn_id: cur.conn_id, name: string_of(&target) };
        let e1 = self.open(&key, false);
        let mut line = cat("PRIVMSG ", &target);
        extend_str(&mut line, " :");
        extend(&mut line, &msg);
        let mut said = cat(" <", &nick);
        extend_str(&mut said, "> ");
        extend(&mut said, &msg);
        let mut tail: Vec<Effect> = Vec::new();
        tail.push(send_eff(cur.conn_id, &line));
        tail.push(echo_eff(&key, ts, &said));
        concat(e1, tail)
    }
}


fn plain_cfg(server: &Vec<char>, port: u16, nick: &Vec<char>, chan: &Vec<char>) -> (r: IrcConfig)
    ensures
        r@ == plain_config(server@, port, nick@, chan@),
{
    IrcConfig {
        server: string_of(server),
        port,
        tls: true,
        nick: string_of(nick),
        initial_channel: string_of(chan),
        server_password: None,
        sasl_username: None,
        sasl_password: None,
    }
}

fn port_or_default_exec(v: &Vec<char>) -> (r: u16)
    ensures
        r == port_or_default(v@),
{
    match parse_u64(v) {
        Some(n) => if n <= 65535 {
            n as u16
        } else {
            6697
        },
        None => 6697,
    }
}

fn word_or_exec(w: &Vec<Vec<char>>, i: usize, fallback: &str) -> (r: Vec<char>)
    ensures
        r@ == word_or(crate::text::views(w@), i as int, fallback@),
{
    if i < w.len() {
        assert(crate::text::views(w@)[i as int] == w@[i as int]@);
        crate::irc::dup(&w[i])
    } else {
        chars_of(fallback)
    }
}

impl UiState {
    /// The connect button, with the top bar's fields as typed, at `ts`.
    pub fn connect_form(&mut self, server: &str, port: &str, nick: &str, channel: &str, ts: &str) -> (r: Vec<Effect>)
        requires
            old(self).next_conn_id < u64::MAX,
        ensures
            final(self)@ == spec_connect_form(old(self)@, server@, port@, nick@, channel@, ts@).0,
            effects_view(r@) == spec_connect_form(old(self)@, server@, port@, nick@, channel@, ts@).1,
    {
        let srv = trim_vec(&chars_of(server));
        if srv.len() == 0 {
            return one(echo_eff(&key_named(0, "Status"), ts, &chars_of(" *** Enter a server.")));
        }
        let n0 = trim_vec(&chars_of(nick));
        let n = if n0.len() == 0 {
            chars_of("hexrust")
        } else {
            n0
        };
        let c0 = trim_vec(&chars_of(channel));
        let c = if c0.len() == 0 {
            chars_of("#hexrust")
        } else {
            c0
        };
        let p = port_or_default_exec(&trim_vec(&chars_of(port)));
        let (id, e1) = self.add_connection(string_of(&srv).as_str(), string_of(&n).as_str(), string_of(&c).as_str());
        let mut tail: Vec<Effect> = Vec::new();
        tail.push(Effect::Backend(BackendCmd::Connect { conn_id: id, cfg: plain_cfg(&srv, p, &n, &c) }));
        tail.push(echo_eff(&key_named(id, "Status"), ts, &chars_of(" *** Connection requested.")));
        concat(e1, tail)
    }

    /// Connects with a saved profile: like the connect button, with the
    /// profile's settings. Closes the profile manager.
    pub fn connect_profile(&mut self, p: &crate::profiles::Profile) -> (r: Vec<Effect>)
        requires
            old(self).next_conn_id < u64::MAX,
        ensures
            final(self)@ == crate::ui::spec_add_connection(old(self)@, p@.server, p@.nick, p@.initial_channel).0,
            effects_view(r@) == crate::ui::spec_add_connection(old(self)@, p@.server, p@.nick, p@.initial_channel).1 + seq![
                EffectV::Backend(
                    BackendCmdV::Connect {
                        conn_id: old(self).next_conn_id,
                        cfg: crate::profiles::spec_to_irc_config(p@),
                    },
                ),
                EffectV::Close,
            ],
    {
        let (id, e1) = self.add_connection(p.server.as_str(), p.nick.as_str(), p.initial_channel.as_str());
        let mut tail: Vec<Effect> = Vec::new();
        tail.push(Effect::Backend(BackendCmd::Connect { conn_id: id, cfg: p.to_irc_config() }));
        tail.push(Effect::Close);
        concat(e1, tail)
    }

    /// Runs a command palette line, at `ts`.
    pub fn palette(&mut self, input: &str, ts: &str) -> (r: Vec<Effect>)
        requires
            old(self).next_conn_id < u64::MAX,
        ensures
            final(self)@ == spec_palette(old(self)@, input@, ts@).0,
            effects_view(r@) == spec_palette(old(self)@, input@, ts@).1,
    {
        let inp = trim_vec(&chars_of(input));
        if inp.len() == 0 {
            return none();
        }
        let w = crate::text::split_words(&inp);
        proof {
            reveal_strlit("");
            assert(""@ =~= Seq::<char>::empty());
        }
        let cmd = lower_chars(&word_or_exec(&w, 0, ""));
        let conn = self.current.conn_id;
        if eq_str(&cmd, "connect") {
            let server = word_or_exec(&w, 1, "");
            if server.len() == 0 {
                return one(echo_eff(&key_named(0, "Status"), ts, &chars_of(" *** palette: missing server")));
            }
            let port = port_or_default_exec(&word_or_exec(&w, 2, "6697"));
            let nick = word_or_exec(&w, 3, "hexrust");
            let chan = word_or_exec(&w, 4, "#hexrust");
            let (id, e1) = self.add_connection(string_of(&server).as_str(), string_of(&nick).as_str(), string_of(&chan).as_str());
            let mut tail: Vec<Effect> = Vec::new();
            tail.push(Effect::Backend(BackendCmd::Connect { conn_id: id, cfg: plain_cfg(&server, port, &nick, &chan) }));
            tail.push(Effect::Close);
            return concat(e1, tail);
        }
        if eq_str(&cmd, "join") {
            let chan = word_or_exec(&w, 1, "");
            if chan.len() == 0 {
                return none();
            }
            let mut r: Vec<Effect> = Vec::new();
            r.push(send_eff(conn, &cat("JOIN ", &chan)));
            r.push(send_eff(conn, &cat("NAMES ", &chan)));
            r.push(Effect::Close);
            assert(effects_view(r@) =~= spec_palette(old(self)@, input@, ts@).1);
            return r;
        }
        if eq_str(&cmd, "switch") {
            let q = word_or_exec(&w, 1, "");
            if q.len() == 0 {
                return none();
            }
            return match self.find_buffer(string_of(&q).as_str()) {
                Some(k) => {
                    self.current = k.clone_key();
                    let mut r: Vec<Effect> = Vec::new();
                    r.push(Effect::Select { key: k });
                    r.push(Effect::Close);
                    assert(effects_view(r@) =~= spec_palette(old(self)@, input@, ts@).1);
                    r
                },
                None => one(Effect::Close),
            };
        }
        if eq_str(&cmd, "raw") {
            let rest0 = match crate::text::strip_prefix_vec(&inp, "raw") {
                Some(r) => r,
                None => Vec::new(),
            };
            let rest = trim_vec(&rest0);
            let first = if rest.len() > 0 {
                one(send_eff(conn, &rest))
            } else {
                none()
            };
            return concat(first, one(Effect::Close));
        }
        let mut r: Vec<Effect> = Vec::new();
        r.push(send_eff(conn, &inp));
        r.push(Effect::Close);
        assert(effects_view(r@) =~= spec_palette(old(self)@, input@, ts@).1);
        r
    }

    /// Choosing a row of the user list, which reads `nick`.
    pub fn open_query(&mut self, nick: &str) -> (r: Vec<Effect>)
        ensures
            final(self)@ == spec_open_query(old(self)@, nick@).0,
            effects_view(r@) == spec_open_query(old(self)@, nick@).1,
    {
        let n = chars_of(nick);
        if n.len() == 0 || crate::text::starts_with_str(&n, "Waiting") || crate::text::starts_with_str(&n, "Select")
            || self.current.conn_id == 0 {
            return none();
        }
        let key = BufferKey { conn_id: self.current.conn_id, name: nick.to_owned() };
        let e1 = self.open(&key, true);
        concat(e1, one(Effect::Select { key }))
    }

    /// A user-list menu entry chosen on `nick`: it runs the same slash
    /// command the keyboard would.
    pub fn user_action(&mut self, action: UserAction, nick: &str, ts: &str) -> (r: Vec<Effect>)
        ensures
            final(self)@ == spec_slash(old(self)@, spec_user_action_command(action, nick@), ts@).0,
            effects_view(r@) == spec_slash(old(self)@, spec_user_action_command(action, nick@), ts@).1,
    {
        let cmdline = user_action_command(action, nick);
        self.handle_slash_command(cmdline.as_str(), ts)
    }
}

/// The entries of the user-list menu.
#[derive(Debug, Clone, Copy, PartialEq, Eq, Structural)]
pub enum UserAction {
    Whois,
    Query,
    Op,
    Deop,
    Voice,
    Devoice,
    Kick,
    Ban,
}

/// The command word a menu entry stands for.
pub open spec fn action_word(action: UserAction) -> Seq<char> {
    match action {
        UserAction::Whois => "whois"@,
        UserAction::Query => "query"@,
        UserAction::Op => "op"@,
        UserAction::Deop => "deop"@,
        UserAction::Voice => "voice"@,
        UserAction::Devoice => "devoice"@,
        UserAction::Kick => "kick"@,
        UserAction::Ban => "ban"@,
    }
}

/// The slash command (without its `/`) that a menu entry runs on `nick`.
pub open spec fn spec_user_action_command(action: UserAction, nick: Seq<char>) -> Seq<char> {
    action_word(action) + " "@ + nick
}

/// The slash command (without its `/`) that a menu entry runs on `nick`.
pub fn user_action_command(action: UserAction, nick: &str) -> (r: String)
    ensures
        r@ == spec_user_action_command(action, nick@),
{
    let mut v: Vec<char> = Vec::new();
    match action {
        UserAction::Whois => extend_str(&mut v, "whois"),
        UserAction::Query => extend_str(&mut v, "query"),
        UserAction::Op => extend_str(&mut v, "op"),
        UserAction::Deop => extend_str(&mut v, "deop"),
        UserAction::Voice => extend_str(&mut v, "voice"),
        UserAction::Devoice => extend_str(&mut v, "devoice"),
        UserAction::Kick => extend_str(&mut v, "kick"),
        UserAction::Ban => extend_str(&mut v, "ban"),
    }
    extend_str(&mut v, " ");
    extend_str(&mut v, nick);
    string_of(&v)
}

} // verus!
