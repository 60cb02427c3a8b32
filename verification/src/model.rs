//! The values passed between the UI, the backend and the connections.
use vstd::prelude::*;
use crate::numerics::opt_string_view;
use crate::text::{
    chars_of, dec, extend_str, find_char, find_char_from, lemma_dec_digits,
    lemma_find_char_from, lemma_parse_dec, parse_u64, slice_of, spec_parse_u64, string_of, u64_dec,
    is_digit,
};

verus! {

/// How to reach one server.
#[derive(Debug, Clone)]
pub struct IrcConfig {
    pub server: String,
    pub port: u16,
    pub tls: bool,
    pub nick: String,
    pub initial_channel: String,
    /// Sent as `PASS` before registering (ZNC uses it for its credentials).
    pub server_password: Option<String>,
    /// SASL PLAIN credentials; both must be set for SASL to be attempted.
    pub sasl_username: Option<String>,
    pub sasl_password: Option<String>,
}

/// The mathematical value of an [`IrcConfig`].
pub struct IrcConfigV {
    pub server: Seq<char>,
    pub port: u16,
    pub tls: bool,
    pub nick: Seq<char>,
    pub initial_channel: Seq<char>,
    pub server_password: Option<Seq<char>>,
    pub sasl_username: Option<Seq<char>>,
    pub sasl_password: Option<Seq<char>>,
}

impl View for IrcConfig {
    type V = IrcConfigV;

    open spec fn view(&self) -> IrcConfigV {
        IrcConfigV {
            server: self.server@,
            port: self.port,
            tls: self.tls,
            nick: self.nick@,
            initial_channel: self.initial_channel@,
            server_password: opt_string_view(self.server_password),
            sasl_username: opt_string_view(self.sasl_username),
            sasl_password: opt_string_view(self.sasl_password),
        }
    }
}

/// What the UI asks of the backend.
#[derive(Debug, Clone)]
pub enum BackendCmd {
    Connect { conn_id: u64, cfg: IrcConfig },
    SendRaw { conn_id: u64, line: String },
    Disconnect { conn_id: u64, reason: String },
}

/// What a connection tells the UI.
#[derive(Debug, Clone)]
pub enum UiEvent {
    // Connection lifecycle
    ConnectionUp { conn_id: u64, server: String, nick: String, initial_channel: String },
    ConnectionDown { conn_id: u64, reason: String },
    // Buffer operations
    EnsureBuffer { conn_id: u64, buffer: String, make_current: bool },
    Append { conn_id: u64, buffer: String, line: String, bump_unread: bool, bump_highlight: bool },
    SetMyNick { conn_id: u64, nick: String },
    // User list per channel
    SetUsers { conn_id: u64, channel: String, users: Vec<String> },
    AddUser { conn_id: u64, channel: String, nick: String },
    RemoveUser { conn_id: u64, channel: String, nick: String },
    RemoveUserEverywhere { conn_id: u64, nick: String },
    RenameUserEverywhere { conn_id: u64, old: String, new_: String },
}

/// The mathematical value of a [`UiEvent`].
pub enum UiEventV {
    ConnectionUp { conn_id: u64, server: Seq<char>, nick: Seq<char>, initial_channel: Seq<char> },
    ConnectionDown { conn_id: u64, reason: Seq<char> },
    EnsureBuffer { conn_id: u64, buffer: Seq<char>, make_current: bool },
    Append {
        conn_id: u64,
        buffer: Seq<char>,
        line: Seq<char>,
        bump_unread: bool,
        bump_highlight: bool,
    },
    SetMyNick { conn_id: u64, nick: Seq<char> },
    SetUsers { conn_id: u64, channel: Seq<char>, users: Seq<Seq<char>> },
    AddUser { conn_id: u64, channel: Seq<char>, nick: Seq<char> },
    RemoveUser { conn_id: u64, channel: Seq<char>, nick: Seq<char> },
    RemoveUserEverywhere { conn_id: u64, nick: Seq<char> },
    RenameUserEverywhere { conn_id: u64, old: Seq<char>, new_: Seq<char> },
}

pub open spec fn strings_view(v: Seq<String>) -> Seq<Seq<char>> {
    v.map_values(|s: String| s@)
}

impl View for UiEvent {
    type V = UiEventV;

    open spec fn view(&self) -> UiEventV {
        match self {
            UiEvent::ConnectionUp { conn_id, server, nick, initial_channel } => UiEventV::ConnectionUp {
                conn_id: *conn_id,
                server: server@,
                nick: nick@,
                initial_channel: initial_channel@,
            },
            UiEvent::ConnectionDown { conn_id, reason } => UiEventV::ConnectionDown {
                conn_id: *conn_id,
                reason: reason@,
            },
            UiEvent::EnsureBuffer { conn_id, buffer, make_current } => UiEventV::EnsureBuffer {
                conn_id: *conn_id,
                buffer: buffer@,
                make_current: *make_current,
            },
            UiEvent::Append { conn_id, buffer, line, bump_unread, bump_highlight } => UiEventV::Append {
                conn_id: *conn_id,
                buffer: buffer@,
                line: line@,
                bump_unread: *bump_unread,
                bump_highlight: *bump_highlight,
            },
            UiEvent::SetMyNick { conn_id, nick } => UiEventV::SetMyNick { conn_id: *conn_id, nick: nick@ },
            UiEvent::SetUsers { conn_id, channel, users } => UiEventV::SetUsers {
                conn_id: *conn_id,
                channel: channel@,
                users: strings_view(users@),
            },
            UiEvent::AddUser { conn_id, channel, nick } => UiEventV::AddUser {
                conn_id: *conn_id,
                channel: channel@,
                nick: nick@,
            },
            UiEvent::RemoveUser { conn_id, channel, nick } => UiEventV::RemoveUser {
                conn_id: *conn_id,
                channel: channel@,
                nick: nick@,
            },
            UiEvent::RemoveUserEverywhere { conn_id, nick } => UiEventV::RemoveUserEverywhere {
                conn_id: *conn_id,
                nick: nick@,
            },
            UiEvent::RenameUserEverywhere { conn_id, old, new_ } => UiEventV::RenameUserEverywhere {
                conn_id: *conn_id,
                old: old@,
                new_: new_@,
            },
        }
    }
}

pub open spec fn events_view(v: Seq<UiEvent>) -> Seq<UiEventV> {
    v.map_values(|e: UiEvent| e@)
}

/// Identifies a buffer: the connection it belongs to and its name.
#[derive(Clone, Debug, PartialEq, Eq, Hash)]
pub struct BufferKey {
    pub conn_id: u64,
    pub name: String,
}

impl View for BufferKey {
    type V = (u64, Seq<char>);

    open spec fn view(&self) -> (u64, Seq<char>) {
        (self.conn_id, self.name@)
    }
}

/// The mathematical value of a [`BackendCmd`].
pub enum BackendCmdV {
    Connect { conn_id: u64, cfg: IrcConfigV },
    SendRaw { conn_id: u64, line: Seq<char> },
    Disconnect { conn_id: u64, reason: Seq<char> },
}

impl View for BackendCmd {
    type V = BackendCmdV;

    open spec fn view(&self) -> BackendCmdV {
        match self {
            BackendCmd::Connect { conn_id, cfg } => BackendCmdV::Connect { conn_id: *conn_id, cfg: cfg@ },
            BackendCmd::SendRaw { conn_id, line } => BackendCmdV::SendRaw { conn_id: *conn_id, line: line@ },
            BackendCmd::Disconnect { conn_id, reason } => BackendCmdV::Disconnect {
                conn_id: *conn_id,
                reason: reason@,
            },
        }
    }
}

/// `<conn_id>|<name>`, the key's text form.
pub open spec fn spec_key_text(conn_id: u64, name: Seq<char>) -> Seq<char> {
    dec(conn_id as nat) + seq!['|'] + name
}

/// The key a text form names: the connection id before the first `|`,
/// parsed as `u64::from_str` does, and the rest as the name.
pub open spec fn spec_key_of(s: Seq<char>) -> Option<(u64, Seq<char>)> {
    let i = find_char_from(s, '|', 0);
    if i >= s.len() {
        None
    } else {
        match spec_parse_u64(s.take(i)) {
            Some(id) => Some((id, s.skip(i + 1))),
            None => None,
        }
    }
}

impl BufferKey {
    pub fn new(conn_id: u64, name: &str) -> (r: Self)
        ensures
            r.conn_id == conn_id,
            r.name@ == name@,
    {
        BufferKey { conn_id, name: name.to_owned() }
    }

    /// A copy of the key.
    pub fn clone_key(&self) -> (r: Self)
        ensures
            r@ == self@,
    {
        BufferKey { conn_id: self.conn_id, name: self.name.clone() }
    }

    /// The key as `<conn_id>|<name>`.
    pub fn as_string(&self) -> (r: String)
        ensures
            r@ == spec_key_text(self.conn_id, self.name@),
    {
        let mut v = u64_dec(self.conn_id);
        v.push('|');
        extend_str(&mut v, self.name.as_str());
        string_of(&v)
    }

    /// Parses the text form back into a key.
    pub fn from_string(s: &str) -> (r: Option<Self>)
        ensures
            match r {
                Some(k) => spec_key_of(s@) == Some((k.conn_id, k.name@)),
                None => spec_key_of(s@) is None,
            },
    {
        let v = chars_of(s);
        let i = find_char(&v, '|', 0);
        if i >= v.len() {
            return None;
        }
        let head = slice_of(&v, 0, i);
        assert(head@ == v@.take(i as int));
        let conn_id = match parse_u64(&head) {
            Some(id) => id,
            None => {
                return None;
            },
        };
        let name = slice_of(&v, i + 1, v.len());
        assert(name@ == v@.skip(i + 1));
        Some(BufferKey { conn_id, name: string_of(&name) })
    }
}

/// Reading back a key's text form gives the key: its name may hold `|`, but
/// the connection id's digits never do.
pub proof fn key_text_round_trip(conn_id: u64, name: Seq<char>)
    ensures
        spec_key_of(spec_key_text(conn_id, name)) == Some((conn_id, name)),
{
    let d = dec(conn_id as nat);
    let s = spec_key_text(conn_id, name);
    lemma_dec_digits(conn_id as nat);
    lemma_parse_dec(conn_id);
    assert forall|k: int| 0 <= k < d.len() implies s[k] != '|' by {
        assert(s[k] == d[k]);
        assert(is_digit(d[k]));
    }
    assert(s[d.len() as int] == '|');
    lemma_find_char_from(s, '|', 0);
    let i = find_char_from(s, '|', 0);
    if i < d.len() {
        assert(s[i] == '|');
    }
    assert(i == d.len());
    assert(s.take(i) =~= d);
    assert(s.skip(i + 1) =~= name);
}

/// What the UI remembers of a connection.
#[derive(Debug, Clone)]
pub struct ConnMeta {
    pub server: String,
    pub nick: String,
    pub default_target: String,
}

} // verus!
