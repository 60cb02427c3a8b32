//! One connection's registration and message handling, as a state machine.
//!
//! The connection's I/O loop feeds each line the server sends to
//! [`Session::on_line`] and performs what comes back: lines to send and UI
//! events to post. Everything the connection decides is here: answering
//! PING, negotiating SASL through CAP, recovering from a taken nick, joining
//! the initial channel once welcomed, and routing the rest to the UI.
use vstd::prelude::*;
use crate::clock::{is_time_text, spec_hms_text};
use crate::irc::{append_ev, dup, route_irc_line, spec_route};
use crate::model::{events_view, IrcConfig, IrcConfigV, UiEvent, UiEventV};
use crate::numerics::{signon_of, signon_time, split_params};
use crate::sasl::{base64, plain_message, plain_payload};
use crate::text::{
    chars_of, contains_seq, dec, eq_str, extend, extend_str, find_seq, lemma_contains_find,
    slice_of, split_once, split_once_vec, split_words, starts_with, starts_with_str,
    strip_prefix, strip_prefix_vec, string_of, u64_dec, views, words,
};
use crate::clock::human_time;
use crate::numerics::params_from;
use crate::util::ts_prefix;

verus! {

/// How many times a taken nick is retried with a `_` appended before
/// registration gives up.
pub const MAX_NICK_RETRIES: u8 = 3;

/// Where SASL negotiation stands.
#[derive(Debug, Clone, Copy, PartialEq, Eq, Structural)]
pub enum CapState {
    /// No SASL credentials: capabilities are not negotiated.
    Off,
    /// `CAP LS` sent; collecting the advertised capabilities.
    Listing,
    /// `CAP REQ :sasl` sent.
    Requested,
    /// `AUTHENTICATE PLAIN` sent; waiting for the outcome.
    Authenticating,
    /// Negotiation ended with `CAP END`.
    Done,
}

/// One connection's protocol state.
pub struct Session {
    pub conn_id: u64,
    pub cfg: IrcConfig,
    /// The nick the network knows us by.
    pub my_nick: String,
    /// Whether the welcome (001) has arrived.
    pub welcomed: bool,
    pub cap: CapState,
    /// Whether any `CAP LS` line so far advertised SASL.
    pub sasl_offered: bool,
    /// Taken-nick retries so far.
    pub nick_retries: u8,
}

pub struct SessionV {
    pub conn_id: u64,
    pub cfg: IrcConfigV,
    pub my_nick: Seq<char>,
    pub welcomed: bool,
    pub cap: CapState,
    pub sasl_offered: bool,
    pub nick_retries: u8,
}

impl View for Session {
    type V = SessionV;

    open spec fn view(&self) -> SessionV {
        SessionV {
            conn_id: self.conn_id,
            cfg: self.cfg@,
            my_nick: self.my_nick@,
            welcomed: self.welcomed,
            cap: self.cap,
            sasl_offered: self.sasl_offered,
            nick_retries: self.nick_retries,
        }
    }
}

/// Something for the connection loop to do.
pub enum Action {
    /// Send this line to the server.
    Send(String),
    /// Post this event to the UI.
    Ui(UiEvent),
}

pub enum ActionV {
    Send(Seq<char>),
    Ui(UiEventV),
}

impl View for Action {
    type V = ActionV;

    open spec fn view(&self) -> ActionV {
        match self {
            Action::Send(s) => ActionV::Send(s@),
            Action::Ui(e) => ActionV::Ui(e@),
        }
    }
}

pub open spec fn actions_view(v: Seq<Action>) -> Seq<ActionV> {
    v.map_values(|a: Action| a@)
}

pub open spec fn ui_actions(evs: Seq<UiEventV>) -> Seq<ActionV> {
    evs.map_values(|e: UiEventV| ActionV::Ui(e))
}

// ---------------------------------------------------------------------------
// The model
// ---------------------------------------------------------------------------

/// The SASL credentials, when both halves are configured.
pub open spec fn sasl_creds(cfg: IrcConfigV) -> Option<(Seq<char>, Seq<char>)> {
    match (cfg.sasl_username, cfg.sasl_password) {
        (Some(u), Some(p)) => Some((u, p)),
        _ => None,
    }
}

pub open spec fn initial(conn_id: u64, cfg: IrcConfigV) -> SessionV {
    SessionV {
        conn_id,
        cfg,
        my_nick: cfg.nick,
        welcomed: false,
        cap: if sasl_creds(cfg) is Some {
            CapState::Listing
        } else {
            CapState::Off
        },
        sasl_offered: false,
        nick_retries: 0,
    }
}

/// A note in the connection's Status buffer that bumps nothing.
pub open spec fn note(conn_id: u64, line: Seq<char>) -> ActionV {
    ActionV::Ui(append_ev(conn_id, "Status"@, line, false, false))
}

/// What is shown while connecting.
pub open spec fn spec_connecting(s: SessionV, ts: Seq<char>) -> Seq<ActionV> {
    seq![
        ActionV::Ui(UiEventV::EnsureBuffer { conn_id: s.conn_id, buffer: "Status"@, make_current: false }),
        note(
            s.conn_id,
            ts + " *** Connecting to "@ + s.cfg.server + ":"@ + dec(s.cfg.port as nat) + " "@ + (if s.cfg.tls {
                "(TLS)"@
            } else {
                ""@
            }),
        ),
    ]
}

/// Registration once the socket is up: capability negotiation first when
/// SASL is configured, the server password when there is one, then NICK
/// and USER.
pub open spec fn spec_registration(s: SessionV, ts: Seq<char>) -> Seq<ActionV> {
    (if sasl_creds(s.cfg) is Some {
        seq![ActionV::Send("CAP LS 302"@)]
    } else {
        seq![]
    }) + (match s.cfg.server_password {
        Some(pw) => seq![ActionV::Send("PASS "@ + pw)],
        None => seq![],
    }) + seq![
        ActionV::Send("NICK "@ + s.cfg.nick),
        ActionV::Send("USER "@ + s.cfg.nick + " 0 * :hexrust"@),
        note(s.conn_id, ts + " *** Socket connected. Waiting for welcome…"@),
    ]
}

/// What is shown when the connection ends.
pub open spec fn spec_closed(s: SessionV, ts: Seq<char>) -> Seq<ActionV> {
    seq![ActionV::Ui(append_ev(s.conn_id, "Status"@, ts + " *** Connection closed."@, true, false))]
}

/// Index just past the line's text once trailing CR and LF are dropped.
pub open spec fn back_crlf(s: Seq<char>, j: int) -> int
    decreases j,
{
    if 0 < j <= s.len() && (s[j - 1] == '\r' || s[j - 1] == '\n') {
        back_crlf(s, j - 1)
    } else {
        j
    }
}

pub open spec fn chomp(s: Seq<char>) -> Seq<char> {
    s.take(back_crlf(s, s.len() as int))
}

/// The command and parameters of a message, after its source if it has one.
pub open spec fn msg_params(line: Seq<char>) -> Seq<Seq<char>> {
    match strip_prefix(line, ":"@) {
        Some(r) => match split_once(r, " "@) {
            Some((_, rest)) => params_from(rest, 0),
            None => seq![],
        },
        None => params_from(line, 0),
    }
}

pub open spec fn is_sasl_cap(w: Seq<char>) -> bool {
    w == "sasl"@ || starts_with(w, "sasl="@)
}

/// Whether a capability list names SASL (`sasl`, or `sasl=` with mechanisms).
pub open spec fn has_sasl(caps: Seq<char>) -> bool {
    exists|k: int| 0 <= k < words(caps).len() && is_sasl_cap(#[trigger] words(caps)[k])
}

pub open spec fn last_param(p: Seq<Seq<char>>) -> Seq<char> {
    if p.len() > 0 {
        p.last()
    } else {
        seq![]
    }
}

/// Ends negotiation without authenticating, saying why.
pub open spec fn give_up_sasl(s: SessionV, why: Seq<char>) -> (SessionV, Seq<ActionV>) {
    (SessionV { cap: CapState::Done, ..s }, seq![ActionV::Send("CAP END"@), note(s.conn_id, why)])
}

/// A `CAP` reply, `p` being `CAP <target> <subcommand> ...`.
pub open spec fn spec_cap(s: SessionV, p: Seq<Seq<char>>, ts: Seq<char>) -> (SessionV, Seq<ActionV>) {
    let sub = if p.len() > 2 {
        p[2]
    } else {
        seq![]
    };
    if s.cap == CapState::Listing && sub == "LS"@ {
        let more = p.len() >= 5 && p[3] == "*"@;
        let offered = s.sasl_offered || has_sasl(last_param(p));
        if more {
            (SessionV { sasl_offered: offered, ..s }, seq![])
        } else if offered {
            (
                SessionV { sasl_offered: offered, cap: CapState::Requested, ..s },
                seq![ActionV::Send("CAP REQ :sasl"@)],
            )
        } else {
            give_up_sasl(s, ts + " *** SASL: not offered by the server; continuing without it"@)
        }
    } else if s.cap == CapState::Requested && sub == "ACK"@ && has_sasl(last_param(p)) {
        (SessionV { cap: CapState::Authenticating, ..s }, seq![ActionV::Send("AUTHENTICATE PLAIN"@)])
    } else if s.cap == CapState::Requested && (sub == "ACK"@ || sub == "NAK"@) {
        give_up_sasl(s, ts + " *** SASL: refused by the server; continuing without it"@)
    } else {
        (s, seq![])
    }
}

/// An `AUTHENTICATE` challenge: `+` asks for the PLAIN credentials.
pub open spec fn spec_auth(s: SessionV, p: Seq<Seq<char>>) -> (SessionV, Seq<ActionV>) {
    if s.cap == CapState::Authenticating && p.len() >= 2 && p[1] == "+"@ {
        match sasl_creds(s.cfg) {
            Some((u, pw)) => (s, seq![ActionV::Send("AUTHENTICATE "@ + base64(plain_message(u, pw)))]),
            None => (s, seq![]),
        }
    } else {
        (s, seq![])
    }
}

pub open spec fn is_sasl_failure(code: Seq<char>) -> bool {
    code == "902"@ || code == "904"@ || code == "905"@ || code == "906"@ || code == "908"@
}

/// Registration replies: a taken nick before the welcome, the outcome of
/// SASL, and the welcome itself.
pub open spec fn spec_reg(s: SessionV, line: Seq<char>, p: Seq<Seq<char>>, ts: Seq<char>) -> (SessionV, Seq<ActionV>) {
    let code = if p.len() > 0 {
        p[0]
    } else {
        seq![]
    };
    if !s.welcomed && code == "433"@ {
        if s.nick_retries < MAX_NICK_RETRIES {
            let next = s.my_nick + "_"@;
            (
                SessionV { my_nick: next, nick_retries: (s.nick_retries + 1) as u8, ..s },
                seq![
                    ActionV::Send("NICK "@ + next),
                    ActionV::Ui(UiEventV::SetMyNick { conn_id: s.conn_id, nick: next }),
                    note(s.conn_id, ts + " *** Nickname "@ + s.my_nick + " is in use; trying "@ + next),
                ],
            )
        } else {
            (
                s,
                seq![
                    ActionV::Ui(
                        append_ev(
                            s.conn_id,
                            "Status"@,
                            ts + " *** Nickname "@ + s.my_nick + " is still in use; giving up"@,
                            true,
                            true,
                        ),
                    ),
                ],
            )
        }
    } else if s.cap == CapState::Authenticating && (code == "903"@ || code == "907"@) {
        (
            SessionV { cap: CapState::Done, ..s },
            seq![ActionV::Send("CAP END"@), note(s.conn_id, ts + " *** SASL: success"@)],
        )
    } else if s.cap == CapState::Authenticating && is_sasl_failure(code) {
        give_up_sasl(s, ts + " *** SASL: authentication failed; continuing without it"@)
    } else if !s.welcomed && contains_seq(line, " 001 "@) {
        let chan = s.cfg.initial_channel;
        (
            SessionV { welcomed: true, ..s },
            seq![
                ActionV::Ui(UiEventV::EnsureBuffer { conn_id: s.conn_id, buffer: chan, make_current: true }),
                ActionV::Send("JOIN "@ + chan),
                ActionV::Send("NAMES "@ + chan),
                note(s.conn_id, ts + " *** Joining "@ + chan + " …"@),
            ],
        )
    } else {
        (s, seq![])
    }
}

/// The state after one line from the server, stamped `ts` (`signon` being
/// how an idle reply's sign-on time is shown), and what to do about it.
pub open spec fn spec_step(s: SessionV, raw: Seq<char>, ts: Seq<char>, signon: Seq<char>) -> (SessionV, Seq<ActionV>) {
    let line = chomp(raw);
    if line.len() == 0 {
        (s, seq![])
    } else {
        match strip_prefix(line, "PING "@) {
            Some(rest) => (s, seq![ActionV::Send("PONG "@ + rest)]),
            None => {
                let p = msg_params(line);
                if p.len() > 0 && p[0] == "CAP"@ {
                    spec_cap(s, p, ts)
                } else if p.len() > 0 && p[0] == "AUTHENTICATE"@ {
                    spec_auth(s, p)
                } else {
                    let (s1, a1) = spec_reg(s, line, p, ts);
                    let (nick, evs) = spec_route(s1.conn_id, line, s1.my_nick, ts, signon);
                    (SessionV { my_nick: nick, ..s1 }, a1 + ui_actions(evs))
                }
            },
        }
    }
}

/// A `[HH:MM:SS]` timestamp.
pub open spec fn is_stamp(ts: Seq<char>) -> bool {
    exists|h: u8, m: u8, sec: u8| h < 24 && m < 60 && sec < 60 && ts == spec_hms_text(h, m, sec)
}

/// How the sign-on time of an idle reply may be shown; empty for other lines.
pub open spec fn shows_signon(line: Seq<char>, my_nick: Seq<char>, t: Seq<char>) -> bool {
    match signon_of(line, my_nick) {
        Some(unix) => is_time_text(unix, t),
        None => t == Seq::<char>::empty(),
    }
}

// ---------------------------------------------------------------------------
// The implementation
// ---------------------------------------------------------------------------

fn send(v: &Vec<char>) -> (r: Action)
    ensures
        r@ == ActionV::Send(v@),
{
    Action::Send(string_of(v))
}

fn note_action(conn_id: u64, line: &Vec<char>) -> (r: Action)
    ensures
        r@ == note(conn_id, line@),
{
    Action::Ui(crate::irc::append_event(conn_id, &chars_of("Status"), line, false, false))
}

/// `<head><tail>`.
fn joined(head: &str, tail: &Vec<char>) -> (r: Vec<char>)
    ensures
        r@ == head@ + tail@,
{
    let mut v = chars_of(head);
    extend(&mut v, tail);
    v
}

/// `<ts><text>`.
fn stamped(ts: &Vec<char>, text: &str) -> (r: Vec<char>)
    ensures
        r@ == ts@ + text@,
{
    let mut v = dup(ts);
    extend_str(&mut v, text);
    v
}

fn chomp_vec(v: &Vec<char>) -> (r: Vec<char>)
    ensures
        r@ == chomp(v@),
{
    let mut j = v.len();
    while j > 0 && (v[j - 1] == '\r' || v[j - 1] == '\n')
        invariant
            j <= v.len(),
            back_crlf(v@, j as int) == back_crlf(v@, v.len() as int),
        decreases j,
    {
        j -= 1;
    }
    slice_of(v, 0, j)
}

fn msg_params_vec(line: &Vec<char>) -> (r: Vec<Vec<char>>)
    ensures
        views(r@) == msg_params(line@),
{
    match strip_prefix_vec(line, ":") {
        Some(r) => match split_once_vec(&r, " ") {
            Some((_, rest)) => split_params(&rest),
            None => {
                let v: Vec<Vec<char>> = Vec::new();
                assert(views(v@) =~= Seq::<Seq<char>>::empty());
                v
            },
        },
        None => split_params(line),
    }
}

fn has_sasl_vec(caps: &Vec<char>) -> (b: bool)
    ensures
        b == has_sasl(caps@),
{
    let w = split_words(caps);
    let mut i: usize = 0;
    while i < w.len()
        invariant
            i <= w.len(),
            views(w@) == words(caps@),
            forall|k: int| 0 <= k < i ==> !is_sasl_cap(#[trigger] words(caps@)[k]),
        decreases w.len() - i,
    {
        assert(views(w@)[i as int] == w@[i as int]@);
        if eq_str(&w[i], "sasl") || starts_with_str(&w[i], "sasl=") {
            assert(is_sasl_cap(words(caps@)[i as int]));
            return true;
        }
        i += 1;
    }
    false
}

fn last_param_vec(p: &Vec<Vec<char>>) -> (r: Vec<char>)
    ensures
        r@ == last_param(views(p@)),
{
    if p.len() > 0 {
        assert(views(p@).last() == p@[p.len() - 1]@);
        dup(&p[p.len() - 1])
    } else {
        Vec::new()
    }
}

impl Session {
    /// A session for a connection about to be made with `cfg`.
    pub fn new(conn_id: u64, cfg: IrcConfig) -> (r: Session)
        ensures
            r@ == initial(conn_id, cfg@),
    {
        let cap = match (&cfg.sasl_username, &cfg.sasl_password) {
            (Some(_), Some(_)) => CapState::Listing,
            _ => CapState::Off,
        };
        let my_nick = cfg.nick.clone();
        Session { conn_id, cfg, my_nick, welcomed: false, cap, sasl_offered: false, nick_retries: 0 }
    }

    /// What is shown while connecting, stamped `ts`.
    pub fn connecting_at(&self, ts: &str) -> (r: Vec<Action>)
        ensures
            actions_view(r@) == spec_connecting(self@, ts@),
    {
        let t = chars_of(ts);
        let mut line = stamped(&t, " *** Connecting to ");
        extend_str(&mut line, self.cfg.server.as_str());
        line.push(':');
        extend(&mut line, &u64_dec(self.cfg.port as u64));
        line.push(' ');
        if self.cfg.tls {
            extend_str(&mut line, "(TLS)");
        }
        proof {
            reveal_strlit(":");
            reveal_strlit(" ");
            reveal_strlit("");
        }
        assert(line@ =~= ts@ + " *** Connecting to "@ + self@.cfg.server + ":"@ + dec(
            self@.cfg.port as nat,
        ) + " "@ + (if self@.cfg.tls {
            "(TLS)"@
        } else {
            ""@
        }));
        let mut r: Vec<Action> = Vec::new();
        r.push(Action::Ui(UiEvent::EnsureBuffer { conn_id: self.conn_id, buffer: "Status".to_owned(), make_current: false }));
        r.push(note_action(self.conn_id, &line));
        assert(actions_view(r@) =~= spec_connecting(self@, ts@));
        r
    }

    /// The registration lines to send once the socket is up, and the note
    /// that says so, stamped `ts`.
    pub fn registration_at(&self, ts: &str) -> (r: Vec<Action>)
        ensures
            actions_view(r@) == spec_registration(self@, ts@),
    {
        let mut r: Vec<Action> = Vec::new();
        let ghost a: Seq<ActionV> = seq![];
        match (&self.cfg.sasl_username, &self.cfg.sasl_password) {
            (Some(_), Some(_)) => {
                r.push(Action::Send("CAP LS 302".to_owned()));
            },
            _ => {},
        }
        let ghost a1 = actions_view(r@);
        match &self.cfg.server_password {
            Some(pw) => {
                r.push(send(&joined("PASS ", &chars_of(pw.as_str()))));
            },
            None => {},
        }
        let ghost a2 = actions_view(r@);
        let nick = chars_of(self.cfg.nick.as_str());
        r.push(send(&joined("NICK ", &nick)));
        let mut user = joined("USER ", &nick);
        extend_str(&mut user, " 0 * :hexrust");
        r.push(send(&user));
        let t = chars_of(ts);
        r.push(note_action(self.conn_id, &stamped(&t, " *** Socket connected. Waiting for welcome…")));
        let ghost first = if sasl_creds(self@.cfg) is Some {
            seq![ActionV::Send("CAP LS 302"@)]
        } else {
            Seq::<ActionV>::empty()
        };
        let ghost second = match self@.cfg.server_password {
            Some(pw) => seq![ActionV::Send("PASS "@ + pw)],
            None => Seq::<ActionV>::empty(),
        };
        assert(a1 =~= first);
        assert(a2 =~= first + second);
        assert(actions_view(r@) =~= spec_registration(self@, ts@));
        r
    }

    /// What is shown when the connection has ended, stamped `ts`.
    pub fn closed_at(&self, ts: &str) -> (r: Vec<Action>)
        ensures
            actions_view(r@) == spec_closed(self@, ts@),
    {
        let t = chars_of(ts);
        let mut r: Vec<Action> = Vec::new();
        r.push(
            Action::Ui(
                crate::irc::append_event(
                    self.conn_id,
                    &chars_of("Status"),
                    &stamped(&t, " *** Connection closed."),
                    true,
                    false,
                ),
            ),
        );
        assert(actions_view(r@) =~= spec_closed(self@, ts@));
        r
    }

    fn give_up_sasl(&mut self, why: &Vec<char>) -> (r: Vec<Action>)
        ensures
            final(self)@ == give_up_sasl(old(self)@, why@).0,
            actions_view(r@) == give_up_sasl(old(self)@, why@).1,
    {
        self.cap = CapState::Done;
        let mut r: Vec<Action> = Vec::new();
        r.push(Action::Send("CAP END".to_owned()));
        r.push(note_action(self.conn_id, why));
        assert(actions_view(r@) =~= give_up_sasl(old(self)@, why@).1);
        r
    }

    fn cap_step(&mut self, p: &Vec<Vec<char>>, t: &Vec<char>) -> (r: Vec<Action>)
        ensures
            final(self)@ == spec_cap(old(self)@, views(p@), t@).0,
            actions_view(r@) == spec_cap(old(self)@, views(p@), t@).1,
    {
        let ghost ps = views(p@);
        let sub = if p.len() > 2 {
            assert(ps[2] == p@[2]@);
            dup(&p[2])
        } else {
            Vec::new()
        };
        assert(sub@ == (if ps.len() > 2 { ps[2] } else { Seq::<char>::empty() }));
        let r: Vec<Action> = Vec::new();
        if self.cap == CapState::Listing && eq_str(&sub, "LS") {
            let more = p.len() >= 5 && {
                assert(ps[3] == p@[3]@);
                eq_str(&p[3], "*")
            };
            let offered = self.sasl_offered || has_sasl_vec(&last_param_vec(p));
            if more {
                self.sasl_offered = offered;
                assert(actions_view(r@) =~= Seq::<ActionV>::empty());
                return r;
            }
            if offered {
                self.sasl_offered = offered;
                self.cap = CapState::Requested;
                let mut r = r;
                r.push(Action::Send("CAP REQ :sasl".to_owned()));
                assert(actions_view(r@) =~= spec_cap(old(self)@, ps, t@).1);
                return r;
            }
            return self.give_up_sasl(&stamped(t, " *** SASL: not offered by the server; continuing without it"));
        }
        if self.cap == CapState::Requested && eq_str(&sub, "ACK") && has_sasl_vec(&last_param_vec(p)) {
            self.cap = CapState::Authenticating;
            let mut r = r;
            r.push(Action::Send("AUTHENTICATE PLAIN".to_owned()));
            assert(actions_view(r@) =~= spec_cap(old(self)@, ps, t@).1);
            return r;
        }
        if self.cap == CapState::Requested && (eq_str(&sub, "ACK") || eq_str(&sub, "NAK")) {
            return self.give_up_sasl(&stamped(t, " *** SASL: refused by the server; continuing without it"));
        }
        assert(actions_view(r@) =~= Seq::<ActionV>::empty());
        r
    }

    fn auth_step(&self, p: &Vec<Vec<char>>) -> (r: Vec<Action>)
        ensures
            spec_auth(self@, views(p@)).0 == self@,
            actions_view(r@) == spec_auth(self@, views(p@)).1,
    {
        let mut r: Vec<Action> = Vec::new();
        if self.cap == CapState::Authenticating && p.len() >= 2 && {
            assert(views(p@)[1] == p@[1]@);
            eq_str(&p[1], "+")
        } {
            match (&self.cfg.sasl_username, &self.cfg.sasl_password) {
                (Some(u), Some(pw)) => {
                    let payload = plain_payload(u.as_str(), pw.as_str());
                    r.push(send(&joined("AUTHENTICATE ", &chars_of(payload.as_str()))));
                },
                _ => {},
            }
        }
        assert(actions_view(r@) =~= spec_auth(self@, views(p@)).1);
        r
    }

    fn reg_step(&mut self, line: &Vec<char>, p: &Vec<Vec<char>>, t: &Vec<char>) -> (r: Vec<Action>)
        ensures
            final(self)@ == spec_reg(old(self)@, line@, views(p@), t@).0,
            actions_view(r@) == spec_reg(old(self)@, line@, views(p@), t@).1,
    {
        let ghost ps = views(p@);
        let code = if p.len() > 0 {
            assert(ps[0] == p@[0]@);
            dup(&p[0])
        } else {
            Vec::new()
        };
        let mut r: Vec<Action> = Vec::new();
        if !self.welcomed && eq_str(&code, "433") {
            let old_nick = chars_of(self.my_nick.as_str());
            if self.nick_retries < MAX_NICK_RETRIES {
                let mut next = dup(&old_nick);
                next.push('_');
                proof {
                    reveal_strlit("_");
                }
                assert(next@ == old_nick@ + "_"@);
                self.my_nick = string_of(&next);
                self.nick_retries = self.nick_retries + 1;
                r.push(send(&joined("NICK ", &next)));
                r.push(Action::Ui(UiEvent::SetMyNick { conn_id: self.conn_id, nick: string_of(&next) }));
                let mut l = stamped(t, " *** Nickname ");
                extend(&mut l, &old_nick);
                extend_str(&mut l, " is in use; trying ");
                extend(&mut l, &next);
                r.push(note_action(self.conn_id, &l));
            } else {
                let mut l = stamped(t, " *** Nickname ");
                extend(&mut l, &old_nick);
                extend_str(&mut l, " is still in use; giving up");
                r.push(Action::Ui(crate::irc::append_event(self.conn_id, &chars_of("Status"), &l, true, true)));
            }
            assert(actions_view(r@) =~= spec_reg(old(self)@, line@, ps, t@).1);
            return r;
        }
        if self.cap == CapState::Authenticating && (eq_str(&code, "903") || eq_str(&code, "907")) {
            self.cap = CapState::Done;
            r.push(Action::Send("CAP END".to_owned()));
            r.push(note_action(self.conn_id, &stamped(t, " *** SASL: success")));
            assert(actions_view(r@) =~= spec_reg(old(self)@, line@, ps, t@).1);
            return r;
        }
        if self.cap == CapState::Authenticating && (eq_str(&code, "902") || eq_str(&code, "904") || eq_str(&code, "905")
            || eq_str(&code, "906") || eq_str(&code, "908")) {
            return self.give_up_sasl(&stamped(t, " *** SASL: authentication failed; continuing without it"));
        }
        let pat = chars_of(" 001 ");
        proof {
            reveal_strlit(" 001 ");
            lemma_contains_find(line@, pat@);
        }
        if !self.welcomed && find_seq(line, &pat, 0) < line.len() {
            self.welcomed = true;
            let chan = chars_of(self.cfg.initial_channel.as_str());
            r.push(Action::Ui(UiEvent::EnsureBuffer { conn_id: self.conn_id, buffer: string_of(&chan), make_current: true }));
            r.push(send(&joined("JOIN ", &chan)));
            r.push(send(&joined("NAMES ", &chan)));
            let mut l = stamped(t, " *** Joining ");
            extend(&mut l, &chan);
            extend_str(&mut l, " …");
            r.push(note_action(self.conn_id, &l));
            assert(actions_view(r@) =~= spec_reg(old(self)@, line@, ps, t@).1);
            return r;
        }
        assert(actions_view(r@) =~= Seq::<ActionV>::empty());
        r
    }

    /// Handles one line from the server, stamped `ts`, with `signon` the way
    /// an idle reply's sign-on time is shown.
    pub fn on_line_at(&mut self, line: &str, ts: &str, signon: &str) -> (r: Vec<Action>)
        ensures
            final(self)@ == spec_step(old(self)@, line@, ts@, signon@).0,
            actions_view(r@) == spec_step(old(self)@, line@, ts@, signon@).1,
    {
        let raw = chars_of(line);
        let l = chomp_vec(&raw);
        let t = chars_of(ts);
        let mut r: Vec<Action> = Vec::new();
        if l.len() == 0 {
            assert(actions_view(r@) =~= Seq::<ActionV>::empty());
            return r;
        }
        if let Some(rest) = strip_prefix_vec(&l, "PING ") {
            r.push(send(&joined("PONG ", &rest)));
            assert(actions_view(r@) =~= spec_step(old(self)@, line@, ts@, signon@).1);
            return r;
        }
        let p = msg_params_vec(&l);
        if p.len() > 0 && {
            assert(views(p@)[0] == p@[0]@);
            eq_str(&p[0], "CAP")
        } {
            return self.cap_step(&p, &t);
        }
        if p.len() > 0 && {
            assert(views(p@)[0] == p@[0]@);
            eq_str(&p[0], "AUTHENTICATE")
        } {
            return self.auth_step(&p);
        }
        let mut r = self.reg_step(&l, &p, &t);
        let ghost mid = self@;
        let ghost a1 = actions_view(r@);
        let ls = string_of(&l);
        let mut nick = self.my_nick.clone();
        let evs = route_irc_line(self.conn_id, ls.as_str(), &mut nick, ts, signon);
        self.my_nick = nick;
        let ghost all = ui_actions(events_view(evs@));
        let mut evs = evs;
        while evs.len() > 0
            invariant
                actions_view(r@) + ui_actions(events_view(evs@)) == a1 + all,
            decreases evs.len(),
        {
            let ghost before = evs@;
            let e = evs.remove(0);
            r.push(Action::Ui(e));
            assert(ui_actions(events_view(before)) =~= seq![ActionV::Ui(e@)] + ui_actions(
                events_view(evs@),
            ));
            assert(actions_view(r@) + ui_actions(events_view(evs@)) =~= a1 + all);
        }
        assert(ui_actions(events_view(evs@)) =~= Seq::<ActionV>::empty());
        assert(actions_view(r@) =~= a1 + all);
        r
    }

    /// Handles one line from the server, stamped with the current time.
    pub fn on_line(&mut self, line: &str) -> (r: Vec<Action>)
        ensures
            exists|ts: Seq<char>, t: Seq<char>|
                is_stamp(ts) && shows_signon(chomp(line@), old(self)@.my_nick, t) && final(self)@
                    == spec_step(old(self)@, line@, ts, t).0 && actions_view(r@) == #[trigger] spec_step(
                    old(self)@,
                    line@,
                    ts,
                    t,
                ).1,
    {
        let ts = ts_prefix();
        let l = string_of(&chomp_vec(&chars_of(line)));
        let signon = match signon_time(l.as_str(), self.my_nick.as_str()) {
            Some(unix) => string_of(&human_time(unix)),
            None => String::new(),
        };
        self.on_line_at(line, ts.as_str(), signon.as_str())
    }
}


// ---------------------------------------------------------------------------
// Laws
// ---------------------------------------------------------------------------

/// A PING is answered with a PONG carrying the same token, and changes
/// nothing else, whatever state the connection is in.
pub proof fn ping_is_always_answered(s: SessionV, line: Seq<char>, ts: Seq<char>, signon: Seq<char>)
    requires
        strip_prefix(chomp(line), "PING "@) is Some,
    ensures
        spec_step(s, line, ts, signon) == (
            s,
            seq![ActionV::Send("PONG "@ + strip_prefix(chomp(line), "PING "@)->0)],
        ),
{
    reveal_strlit("PING ");
}

/// SASL negotiation never stalls registration: whenever a line ends it,
/// the same step sends `CAP END`, whether authentication succeeded, failed,
/// was refused or was never offered.
pub proof fn sasl_negotiation_ends_with_cap_end(
    s: SessionV,
    line: Seq<char>,
    ts: Seq<char>,
    signon: Seq<char>,
)
    requires
        s.cap != CapState::Done,
        spec_step(s, line, ts, signon).0.cap == CapState::Done,
    ensures
        spec_step(s, line, ts, signon).1.len() > 0,
        spec_step(s, line, ts, signon).1[0] == ActionV::Send("CAP END"@),
{
}

/// Once ended, negotiation stays ended; a session without SASL never
/// starts it.
pub proof fn negotiation_does_not_restart(s: SessionV, line: Seq<char>, ts: Seq<char>, signon: Seq<char>)
    ensures
        s.cap == CapState::Done ==> spec_step(s, line, ts, signon).0.cap == CapState::Done,
        s.cap == CapState::Off ==> spec_step(s, line, ts, signon).0.cap == CapState::Off,
{
}

/// Whether an action sends a line starting with `verb`.
pub open spec fn sends(a: ActionV, verb: Seq<char>) -> bool {
    a matches ActionV::Send(l) && starts_with(l, verb)
}

/// A line whose character `k` differs from the verb's does not start with it.
proof fn lemma_not_verb(l: Seq<char>, verb: Seq<char>, k: int)
    requires
        0 <= k < verb.len(),
        k < l.len(),
        l[k] != verb[k],
    ensures
        !starts_with(l, verb),
{
    if starts_with(l, verb) {
        assert(l.take(verb.len() as int)[k] == verb[k]);
    }
}

proof fn lemma_sends_literals()
    ensures
        !starts_with("CAP END"@, "NICK "@),
        !starts_with("CAP REQ :sasl"@, "NICK "@),
        !starts_with("AUTHENTICATE PLAIN"@, "NICK "@),
        !starts_with("CAP END"@, "JOIN "@),
        !starts_with("CAP REQ :sasl"@, "JOIN "@),
        !starts_with("AUTHENTICATE PLAIN"@, "JOIN "@),
        forall|x: Seq<char>| !starts_with(#[trigger] ("AUTHENTICATE "@ + x), "NICK "@),
        forall|x: Seq<char>| !starts_with(#[trigger] ("AUTHENTICATE "@ + x), "JOIN "@),
        forall|x: Seq<char>| !starts_with(#[trigger] ("PONG "@ + x), "NICK "@),
        forall|x: Seq<char>| !starts_with(#[trigger] ("PONG "@ + x), "JOIN "@),
        forall|x: Seq<char>| !starts_with(#[trigger] ("NAMES "@ + x), "NICK "@),
        forall|x: Seq<char>| !starts_with(#[trigger] ("NAMES "@ + x), "JOIN "@),
        forall|x: Seq<char>| !starts_with(#[trigger] ("NICK "@ + x), "JOIN "@),
        forall|x: Seq<char>| !starts_with(#[trigger] ("JOIN "@ + x), "NICK "@),
{
    reveal_strlit("CAP END");
    reveal_strlit("CAP REQ :sasl");
    reveal_strlit("AUTHENTICATE PLAIN");
    reveal_strlit("AUTHENTICATE ");
    reveal_strlit("PONG ");
    reveal_strlit("NAMES ");
    reveal_strlit("NICK ");
    reveal_strlit("JOIN ");
    lemma_not_verb("CAP END"@, "NICK "@, 0);
    lemma_not_verb("CAP REQ :sasl"@, "NICK "@, 0);
    lemma_not_verb("AUTHENTICATE PLAIN"@, "NICK "@, 0);
    lemma_not_verb("CAP END"@, "JOIN "@, 0);
    lemma_not_verb("CAP REQ :sasl"@, "JOIN "@, 0);
    lemma_not_verb("AUTHENTICATE PLAIN"@, "JOIN "@, 0);
    assert forall|x: Seq<char>| !starts_with(#[trigger] ("AUTHENTICATE "@ + x), "NICK "@) by {
        lemma_not_verb("AUTHENTICATE "@ + x, "NICK "@, 0);
    }
    assert forall|x: Seq<char>| !starts_with(#[trigger] ("AUTHENTICATE "@ + x), "JOIN "@) by {
        lemma_not_verb("AUTHENTICATE "@ + x, "JOIN "@, 0);
    }
    assert forall|x: Seq<char>| !starts_with(#[trigger] ("PONG "@ + x), "NICK "@) by {
        lemma_not_verb("PONG "@ + x, "NICK "@, 0);
    }
    assert forall|x: Seq<char>| !starts_with(#[trigger] ("PONG "@ + x), "JOIN "@) by {
        lemma_not_verb("PONG "@ + x, "JOIN "@, 0);
    }
    assert forall|x: Seq<char>| !starts_with(#[trigger] ("NAMES "@ + x), "NICK "@) by {
        lemma_not_verb("NAMES "@ + x, "NICK "@, 1);
    }
    assert forall|x: Seq<char>| !starts_with(#[trigger] ("NAMES "@ + x), "JOIN "@) by {
        lemma_not_verb("NAMES "@ + x, "JOIN "@, 0);
    }
    assert forall|x: Seq<char>| !starts_with(#[trigger] ("NICK "@ + x), "JOIN "@) by {
        lemma_not_verb("NICK "@ + x, "JOIN "@, 0);
    }
    assert forall|x: Seq<char>| !starts_with(#[trigger] ("JOIN "@ + x), "NICK "@) by {
        lemma_not_verb("JOIN "@ + x, "NICK "@, 0);
    }
}

/// Routed lines only post UI events.
proof fn lemma_ui_actions_send_nothing(evs: Seq<UiEventV>, verb: Seq<char>)
    ensures
        forall|i: int| 0 <= i < ui_actions(evs).len() ==> !sends(#[trigger] ui_actions(evs)[i], verb),
{
}

/// A taken nick is not fought over forever: a step sends `NICK` only when
/// it uses up one of the `MAX_NICK_RETRIES` retries, so a connection sends
/// at most `1 + MAX_NICK_RETRIES` nicks before it is welcomed.
pub proof fn nick_retries_are_bounded(s: SessionV, line: Seq<char>, ts: Seq<char>, signon: Seq<char>)
    requires
        s.nick_retries <= MAX_NICK_RETRIES,
    ensures
        spec_step(s, line, ts, signon).0.nick_retries <= MAX_NICK_RETRIES,
        forall|i: int|
            0 <= i < spec_step(s, line, ts, signon).1.len() && sends(
                #[trigger] spec_step(s, line, ts, signon).1[i],
                "NICK "@,
            ) ==> spec_step(s, line, ts, signon).0.nick_retries == s.nick_retries + 1,
{
    lemma_sends_literals();
    let line2 = chomp(line);
    let p = msg_params(line2);
    let (s1, a1) = spec_reg(s, line2, p, ts);
    let (nick, evs) = spec_route(s1.conn_id, line2, s1.my_nick, ts, signon);
    lemma_ui_actions_send_nothing(evs, "NICK "@);
    let step = spec_step(s, line, ts, signon);
    assert forall|i: int| 0 <= i < step.1.len() && sends(#[trigger] step.1[i], "NICK "@) implies step.0.nick_retries
        == s.nick_retries + 1 by {
        if line2.len() > 0 && strip_prefix(line2, "PING "@) is None && !(p.len() > 0 && p[0] == "CAP"@)
            && !(p.len() > 0 && p[0] == "AUTHENTICATE"@) {
            assert(step.1 == a1 + ui_actions(evs));
            if i >= a1.len() {
                assert(step.1[i] == ui_actions(evs)[i - a1.len()]);
            }
        }
    }
}

/// The initial channel is joined once: after the welcome, no line makes
/// the connection send `JOIN` again.
pub proof fn welcome_joins_once(s: SessionV, line: Seq<char>, ts: Seq<char>, signon: Seq<char>)
    requires
        s.welcomed,
    ensures
        spec_step(s, line, ts, signon).0.welcomed,
        forall|i: int|
            0 <= i < spec_step(s, line, ts, signon).1.len() ==> !sends(
                #[trigger] spec_step(s, line, ts, signon).1[i],
                "JOIN "@,
            ),
{
    lemma_sends_literals();
    let line2 = chomp(line);
    let p = msg_params(line2);
    let (s1, a1) = spec_reg(s, line2, p, ts);
    let (nick, evs) = spec_route(s1.conn_id, line2, s1.my_nick, ts, signon);
    lemma_ui_actions_send_nothing(evs, "JOIN "@);
    let step = spec_step(s, line, ts, signon);
    assert forall|i: int| 0 <= i < step.1.len() implies !sends(#[trigger] step.1[i], "JOIN "@) by {
        if line2.len() > 0 && strip_prefix(line2, "PING "@) is None && !(p.len() > 0 && p[0] == "CAP"@)
            && !(p.len() > 0 && p[0] == "AUTHENTICATE"@) {
            assert(step.1 == a1 + ui_actions(evs));
            if i >= a1.len() {
                assert(step.1[i] == ui_actions(evs)[i - a1.len()]);
            }
        }
    }
}

} // verus!
