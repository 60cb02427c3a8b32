//! What the window shows, as state: connections, buffers and their unread
//! and highlight counters, channel user lists, and the sidebar.
//!
//! The window's widgets follow this state. Every change comes through a
//! method here, which updates the state and returns [`Effect`]s saying what
//! to do to the widgets (and what to ask of the backend).
use vstd::prelude::*;
use crate::model::{BackendCmd, BackendCmdV, BufferKey, ConnMeta, UiEvent, UiEventV, strings_view};
use crate::text::{chars_of, dec, eq_chars, eq_str, extend, extend_str, string_of, u64_dec};
use crate::users::{
    insert_nick, is_not, not_shown_as, remove_exact, retain_not_shown_as, set_insert,
    spec_dedupe_users, dedupe_users,
};
use crate::util::{display_chars, spec_nick_display};

verus! {

// ---------------------------------------------------------------------------
// Labels
// ---------------------------------------------------------------------------

/// What a buffer is called in its tab and in the sidebar: `name @ server`,
/// with the global Status buffer just `Status`.
pub open spec fn spec_display_for(key: (u64, Seq<char>), server: Option<Seq<char>>) -> Seq<char> {
    if key.0 == 0 {
        "Status"@
    } else {
        let srv = match server {
            Some(s) => s,
            None => "server"@,
        };
        if key.1 == "Status"@ {
            "Status @ "@ + srv
        } else {
            key.1 + " @ "@ + srv
        }
    }
}

/// What a buffer is called, given its connection's server if known.
pub fn display_for_buffer(key: &BufferKey, server: Option<&str>) -> (r: String)
    ensures
        r@ == spec_display_for(
            key@,
            match server {
                Some(s) => Some(s@),
                None => None,
            },
        ),
{
    if key.conn_id == 0 {
        return "Status".to_owned();
    }
    let srv = match server {
        Some(s) => chars_of(s),
        None => chars_of("server"),
    };
    let name = chars_of(key.name.as_str());
    let mut v = if eq_str(&name, "Status") {
        chars_of("Status @ ")
    } else {
        let mut v = name;
        extend_str(&mut v, " @ ");
        v
    };
    extend(&mut v, &srv);
    string_of(&v)
}

/// A tab's label: its name, then `(!h, u)`, `(!h)` or `(u)` for highlight
/// and unread counts that are not zero.
pub open spec fn spec_tab_label(base: Seq<char>, unread: u32, highlights: u32) -> Seq<char> {
    if highlights > 0 && unread > 0 {
        base + " (!"@ + dec(highlights as nat) + ", "@ + dec(unread as nat) + ")"@
    } else if highlights > 0 {
        base + " (!"@ + dec(highlights as nat) + ")"@
    } else if unread > 0 {
        base + " ("@ + dec(unread as nat) + ")"@
    } else {
        base
    }
}

pub fn tab_label(base: &str, unread: u32, highlights: u32) -> (r: String)
    ensures
        r@ == spec_tab_label(base@, unread, highlights),
{
    let mut v = chars_of(base);
    if highlights > 0 && unread > 0 {
        extend_str(&mut v, " (!");
        extend(&mut v, &u64_dec(highlights as u64));
        extend_str(&mut v, ", ");
        extend(&mut v, &u64_dec(unread as u64));
        extend_str(&mut v, ")");
    } else if highlights > 0 {
        extend_str(&mut v, " (!");
        extend(&mut v, &u64_dec(highlights as u64));
        extend_str(&mut v, ")");
    } else if unread > 0 {
        extend_str(&mut v, " (");
        extend(&mut v, &u64_dec(unread as u64));
        extend_str(&mut v, ")");
    }
    string_of(&v)
}

// ---------------------------------------------------------------------------
// The state
// ---------------------------------------------------------------------------

/// A connection the window knows of.
pub struct ConnEntry {
    pub conn_id: u64,
    pub meta: ConnMeta,
}

/// A buffer with a tab.
pub struct BufferInfo {
    pub key: BufferKey,
    /// The tab's name, before counters.
    pub base_label: String,
    pub unread: u32,
    pub highlights: u32,
}

/// The users of one channel, as an ordered set.
pub struct ChannelUsers {
    pub conn_id: u64,
    pub channel: String,
    pub users: Vec<String>,
}

/// A row of the sidebar.
pub enum SidebarItem {
    Header { conn_id: u64, title: String },
    Buffer { key: BufferKey, display: String, indent: u8 },
}

/// Everything the window shows that is not text.
pub struct UiState {
    pub conns: Vec<ConnEntry>,
    /// The buffer being looked at.
    pub current: BufferKey,
    pub buffers: Vec<BufferInfo>,
    pub users: Vec<ChannelUsers>,
    pub sidebar: Vec<SidebarItem>,
    /// The id the next connection gets.
    pub next_conn_id: u64,
}

/// What to do to the widgets, or ask of the backend.
pub enum Effect {
    /// Add a tab for a new buffer.
    CreateTab { key: BufferKey, label: String },
    /// Show a buffer's tab.
    Select { key: BufferKey },
    /// Append a line to a buffer's text (nothing if it has no tab).
    Append { key: BufferKey, line: String },
    /// Set a tab's label.
    Label { key: BufferKey, text: String },
    /// Redraw the user list from `user_panel`.
    Users,
    /// Redraw the sidebar from `sidebar_rows`.
    Sidebar,
    /// Send a command to the backend.
    Backend(BackendCmd),
    /// Close the dialog the command came from.
    Close,
}

pub struct ConnEntryV {
    pub conn_id: u64,
    pub server: Seq<char>,
    pub nick: Seq<char>,
    pub default_target: Seq<char>,
}

pub struct BufferInfoV {
    pub key: (u64, Seq<char>),
    pub base_label: Seq<char>,
    pub unread: u32,
    pub highlights: u32,
}

pub struct ChannelUsersV {
    pub conn_id: u64,
    pub channel: Seq<char>,
    pub users: Seq<Seq<char>>,
}

pub enum SidebarItemV {
    Header { conn_id: u64, title: Seq<char> },
    Buffer { key: (u64, Seq<char>), display: Seq<char>, indent: u8 },
}

pub struct UiStateV {
    pub conns: Seq<ConnEntryV>,
    pub current: (u64, Seq<char>),
    pub buffers: Seq<BufferInfoV>,
    pub users: Seq<ChannelUsersV>,
    pub sidebar: Seq<SidebarItemV>,
    pub next_conn_id: u64,
}

pub enum EffectV {
    CreateTab { key: (u64, Seq<char>), label: Seq<char> },
    Select { key: (u64, Seq<char>) },
    Append { key: (u64, Seq<char>), line: Seq<char> },
    Label { key: (u64, Seq<char>), text: Seq<char> },
    Users,
    Sidebar,
    Backend(BackendCmdV),
    Close,
}

impl View for ConnEntry {
    type V = ConnEntryV;

    open spec fn view(&self) -> ConnEntryV {
        ConnEntryV {
            conn_id: self.conn_id,
            server: self.meta.server@,
            nick: self.meta.nick@,
            default_target: self.meta.default_target@,
        }
    }
}

impl View for BufferInfo {
    type V = BufferInfoV;

    open spec fn view(&self) -> BufferInfoV {
        BufferInfoV {
            key: self.key@,
            base_label: self.base_label@,
            unread: self.unread,
            highlights: self.highlights,
        }
    }
}

impl View for ChannelUsers {
    type V = ChannelUsersV;

    open spec fn view(&self) -> ChannelUsersV {
        ChannelUsersV { conn_id: self.conn_id, channel: self.channel@, users: strings_view(self.users@) }
    }
}

impl View for SidebarItem {
    type V = SidebarItemV;

    open spec fn view(&self) -> SidebarItemV {
        match self {
            SidebarItem::Header { conn_id, title } => SidebarItemV::Header { conn_id: *conn_id, title: title@ },
            SidebarItem::Buffer { key, display, indent } => SidebarItemV::Buffer {
                key: key@,
                display: display@,
                indent: *indent,
            },
        }
    }
}

impl View for Effect {
    type V = EffectV;

    open spec fn view(&self) -> EffectV {
        match self {
            Effect::CreateTab { key, label } => EffectV::CreateTab { key: key@, label: label@ },
            Effect::Select { key } => EffectV::Select { key: key@ },
            Effect::Append { key, line } => EffectV::Append { key: key@, line: line@ },
            Effect::Label { key, text } => EffectV::Label { key: key@, text: text@ },
            Effect::Users => EffectV::Users,
            Effect::Sidebar => EffectV::Sidebar,
            Effect::Backend(c) => EffectV::Backend(c@),
            Effect::Close => EffectV::Close,
        }
    }
}

impl View for UiState {
    type V = UiStateV;

    open spec fn view(&self) -> UiStateV {
        UiStateV {
            conns: self.conns@.map_values(|c: ConnEntry| c@),
            current: self.current@,
            buffers: self.buffers@.map_values(|b: BufferInfo| b@),
            users: self.users@.map_values(|u: ChannelUsers| u@),
            sidebar: self.sidebar@.map_values(|i: SidebarItem| i@),
            next_conn_id: self.next_conn_id,
        }
    }
}

pub open spec fn effects_view(v: Seq<Effect>) -> Seq<EffectV> {
    v.map_values(|e: Effect| e@)
}

// ---------------------------------------------------------------------------
// Lookups
// ---------------------------------------------------------------------------

/// Index of the first connection `conn_id` at or after `i`, or the length.
pub open spec fn conn_index(c: Seq<ConnEntryV>, conn_id: u64, i: int) -> int
    decreases c.len() - i,
{
    if i < 0 || i >= c.len() {
        c.len() as int
    } else if c[i].conn_id == conn_id {
        i
    } else {
        conn_index(c, conn_id, i + 1)
    }
}

/// Index of the first buffer `key` at or after `i`, or the length.
pub open spec fn buffer_index(b: Seq<BufferInfoV>, key: (u64, Seq<char>), i: int) -> int
    decreases b.len() - i,
{
    if i < 0 || i >= b.len() {
        b.len() as int
    } else if b[i].key == key {
        i
    } else {
        buffer_index(b, key, i + 1)
    }
}

/// Index of the first user set of `(conn_id, channel)` at or after `i`, or
/// the length.
pub open spec fn users_index(u: Seq<ChannelUsersV>, conn_id: u64, channel: Seq<char>, i: int) -> int
    decreases u.len() - i,
{
    if i < 0 || i >= u.len() {
        u.len() as int
    } else if u[i].conn_id == conn_id && u[i].channel == channel {
        i
    } else {
        users_index(u, conn_id, channel, i + 1)
    }
}

/// Whether the sidebar lists buffer `key`.
pub open spec fn sidebar_has(s: Seq<SidebarItemV>, key: (u64, Seq<char>)) -> bool {
    exists|k: int| 0 <= k < s.len() && lists(#[trigger] s[k], key)
}

/// Whether a sidebar row is buffer `key`.
pub open spec fn lists(item: SidebarItemV, key: (u64, Seq<char>)) -> bool {
    match item {
        SidebarItemV::Buffer { key: k2, .. } => k2 == key,
        SidebarItemV::Header { .. } => false,
    }
}

pub open spec fn server_of(st: UiStateV, conn_id: u64) -> Option<Seq<char>> {
    let i = conn_index(st.conns, conn_id, 0);
    if i < st.conns.len() {
        Some(st.conns[i].server)
    } else {
        None
    }
}

pub open spec fn key_of(conn_id: u64, name: Seq<char>) -> (u64, Seq<char>) {
    (conn_id, name)
}

// ---------------------------------------------------------------------------
// Transitions
// ---------------------------------------------------------------------------

/// Makes sure buffer `key` has a tab, named `display` when new; shows it if
/// `make_current`.
pub open spec fn spec_ensure(st: UiStateV, key: (u64, Seq<char>), display: Seq<char>, make_current: bool) -> (
    UiStateV,
    Seq<EffectV>,
) {
    let sel = if make_current {
        seq![EffectV::Select { key }]
    } else {
        seq![]
    };
    if buffer_index(st.buffers, key, 0) < st.buffers.len() {
        (st, sel)
    } else {
        (
            UiStateV {
                buffers: st.buffers.push(BufferInfoV { key, base_label: display, unread: 0, highlights: 0 }),
                ..st
            },
            seq![EffectV::CreateTab { key, label: display }] + sel,
        )
    }
}

/// The sidebar indent of a buffer: Status sits above the others.
pub open spec fn indent_of(key: (u64, Seq<char>)) -> u8 {
    if key.1 == "Status"@ {
        1
    } else {
        2
    }
}

/// Lists buffer `key` in the sidebar if it is not there yet.
pub open spec fn spec_add_sidebar(st: UiStateV, key: (u64, Seq<char>), display: Seq<char>) -> (
    UiStateV,
    Seq<EffectV>,
) {
    if sidebar_has(st.sidebar, key) {
        (st, seq![])
    } else {
        (
            UiStateV {
                sidebar: st.sidebar.push(SidebarItemV::Buffer { key, display, indent: indent_of(key) }),
                ..st
            },
            seq![EffectV::Sidebar],
        )
    }
}

/// Opens buffer `key`: a tab and a sidebar row, named after it and its
/// server.
pub open spec fn spec_open(st: UiStateV, key: (u64, Seq<char>), make_current: bool) -> (
    UiStateV,
    Seq<EffectV>,
) {
    let display = spec_display_for(key, server_of(st, key.0));
    let (s1, e1) = spec_ensure(st, key, display, make_current);
    let (s2, e2) = spec_add_sidebar(s1, key, display);
    (s2, e1 + e2)
}

pub open spec fn sat_inc(x: u32) -> u32 {
    if x == u32::MAX {
        x
    } else {
        (x + 1) as u32
    }
}

/// A line for a buffer: its tab is opened if needed, and unless it is the
/// buffer being looked at, its counters go up as the line asks.
pub open spec fn spec_append(
    st: UiStateV,
    key: (u64, Seq<char>),
    line: Seq<char>,
    bump_unread: bool,
    bump_highlight: bool,
) -> (UiStateV, Seq<EffectV>) {
    let (s1, e1) = spec_open(st, key, false);
    let e2 = e1 + seq![EffectV::Append { key, line }];
    let i = buffer_index(s1.buffers, key, 0);
    if bump_unread && s1.current != key && i < s1.buffers.len() {
        let b = s1.buffers[i];
        let u = sat_inc(b.unread);
        let h = if bump_highlight {
            sat_inc(b.highlights)
        } else {
            b.highlights
        };
        (
            UiStateV { buffers: s1.buffers.update(i, BufferInfoV { unread: u, highlights: h, ..b }), ..s1 },
            e2 + seq![EffectV::Label { key, text: spec_tab_label(b.base_label, u, h) }],
        )
    } else {
        (s1, e2)
    }
}

/// Replaces (or adds) the user set of a channel.
pub open spec fn put_users(u: Seq<ChannelUsersV>, conn_id: u64, channel: Seq<char>, users: Seq<Seq<char>>) -> Seq<
    ChannelUsersV,
> {
    let i = users_index(u, conn_id, channel, 0);
    let e = ChannelUsersV { conn_id, channel, users };
    if i < u.len() {
        u.update(i, e)
    } else {
        u.push(e)
    }
}

/// The user set of a channel, empty if unknown.
pub open spec fn users_of(u: Seq<ChannelUsersV>, conn_id: u64, channel: Seq<char>) -> Seq<Seq<char>> {
    let i = users_index(u, conn_id, channel, 0);
    if i < u.len() {
        u[i].users
    } else {
        seq![]
    }
}

/// A nick changed on a connection: in each of its channels where someone
/// was shown as `old`, they are now `new`.
pub open spec fn rename_in(s: Seq<Seq<char>>, old: Seq<char>, new: Seq<char>) -> Seq<Seq<char>> {
    let f = s.filter(not_shown_as(spec_nick_display(old)));
    if f.len() < s.len() {
        set_insert(f, new)
    } else {
        f
    }
}

/// A channel's users once `nick` has quit connection `conn_id`.
pub open spec fn without_nick(conn_id: u64, nick: Seq<char>, e: ChannelUsersV) -> ChannelUsersV {
    if e.conn_id == conn_id {
        ChannelUsersV { users: e.users.filter(is_not(nick)), ..e }
    } else {
        e
    }
}

/// A channel's users once `old` is known as `new` on connection `conn_id`.
pub open spec fn renamed(conn_id: u64, old: Seq<char>, new: Seq<char>, e: ChannelUsersV) -> ChannelUsersV {
    if e.conn_id == conn_id {
        ChannelUsersV { users: rename_in(e.users, old, new), ..e }
    } else {
        e
    }
}

/// A UI event, stamped `ts`.
pub open spec fn spec_apply(st: UiStateV, ev: UiEventV, ts: Seq<char>) -> (UiStateV, Seq<EffectV>) {
    match ev {
        UiEventV::ConnectionUp { conn_id, server, nick, initial_channel } => if conn_index(
            st.conns,
            conn_id,
            0,
        ) < st.conns.len() {
            (st, seq![])
        } else {
            (
                UiStateV {
                    conns: st.conns.push(ConnEntryV { conn_id, server, nick, default_target: initial_channel }),
                    ..st
                },
                seq![],
            )
        },
        UiEventV::ConnectionDown { conn_id, reason } => {
            let key = key_of(conn_id, "Status"@);
            if buffer_index(st.buffers, key, 0) < st.buffers.len() {
                (st, seq![EffectV::Append { key, line: ts + " *** DISCONNECTED: "@ + reason }])
            } else {
                (st, seq![])
            }
        },
        UiEventV::EnsureBuffer { conn_id, buffer, make_current } => {
            let key = key_of(conn_id, buffer);
            let (s1, e1) = spec_open(st, key, make_current);
            if make_current {
                (UiStateV { current: key, ..s1 }, e1 + seq![EffectV::Select { key }])
            } else {
                (s1, e1)
            }
        },
        UiEventV::Append { conn_id, buffer, line, bump_unread, bump_highlight } => spec_append(
            st,
            key_of(conn_id, buffer),
            line,
            bump_unread,
            bump_highlight,
        ),
        UiEventV::SetMyNick { conn_id, nick } => {
            let i = conn_index(st.conns, conn_id, 0);
            if i < st.conns.len() {
                (UiStateV { conns: st.conns.update(i, ConnEntryV { nick, ..st.conns[i] }), ..st }, seq![])
            } else {
                (st, seq![])
            }
        },
        UiEventV::SetUsers { conn_id, channel, users } => (
            UiStateV { users: put_users(st.users, conn_id, channel, spec_dedupe_users(users)), ..st },
            seq![EffectV::Users],
        ),
        UiEventV::AddUser { conn_id, channel, nick } => (
            UiStateV {
                users: put_users(
                    st.users,
                    conn_id,
                    channel,
                    set_insert(
                        users_of(st.users, conn_id, channel).filter(not_shown_as(spec_nick_display(nick))),
                        nick,
                    ),
                ),
                ..st
            },
            seq![EffectV::Users],
        ),
        UiEventV::RemoveUser { conn_id, channel, nick } => (
            if users_index(st.users, conn_id, channel, 0) < st.users.len() {
                UiStateV {
                    users: put_users(
                        st.users,
                        conn_id,
                        channel,
                        users_of(st.users, conn_id, channel).filter(not_shown_as(spec_nick_display(nick))),
                    ),
                    ..st
                }
            } else {
                st
            },
            seq![EffectV::Users],
        ),
        UiEventV::RemoveUserEverywhere { conn_id, nick } => (
            UiStateV {
                users: st.users.map_values(|e: ChannelUsersV| without_nick(conn_id, nick, e)),
                ..st
            },
            seq![EffectV::Users],
        ),
        UiEventV::RenameUserEverywhere { conn_id, old, new_ } => (
            UiStateV {
                users: st.users.map_values(|e: ChannelUsersV| renamed(conn_id, old, new_, e)),
                ..st
            },
            seq![EffectV::Users],
        ),
    }
}



/// Looking at buffer `key`: it becomes current and its counters are cleared.
pub open spec fn spec_visit(st: UiStateV, key: (u64, Seq<char>)) -> (UiStateV, Seq<EffectV>) {
    let i = buffer_index(st.buffers, key, 0);
    let s1 = UiStateV { current: key, ..st };
    if i < st.buffers.len() {
        let b = st.buffers[i];
        (
            UiStateV { buffers: st.buffers.update(i, BufferInfoV { unread: 0, highlights: 0, ..b }), ..s1 },
            seq![EffectV::Label { key, text: b.base_label }, EffectV::Users],
        )
    } else {
        (s1, seq![EffectV::Users])
    }
}

/// Records connection `conn_id`, replacing what was known of it.
pub open spec fn put_conn(c: Seq<ConnEntryV>, e: ConnEntryV) -> Seq<ConnEntryV> {
    let i = conn_index(c, e.conn_id, 0);
    if i < c.len() {
        c.update(i, e)
    } else {
        c.push(e)
    }
}

/// The sidebar heading of a connection.
pub open spec fn header_title(conn_id: u64, server: Seq<char>) -> Seq<char> {
    "["@ + dec(conn_id as nat) + "] "@ + server
}

/// A new connection to `server` as `nick`, starting in `channel`: it gets
/// the next id, a sidebar heading, a Status buffer and the channel's
/// buffer, which becomes current.
pub open spec fn spec_add_connection(st: UiStateV, server: Seq<char>, nick: Seq<char>, channel: Seq<char>) -> (
    UiStateV,
    Seq<EffectV>,
) {
    let id = st.next_conn_id;
    let s0 = UiStateV {
        next_conn_id: (id + 1) as u64,
        conns: put_conn(st.conns, ConnEntryV { conn_id: id, server, nick, default_target: channel }),
        sidebar: st.sidebar.push(SidebarItemV::Header { conn_id: id, title: header_title(id, server) }),
        ..st
    };
    let (s1, e1) = spec_open(s0, key_of(id, "Status"@), false);
    let (s2, e2) = spec_open(s1, key_of(id, channel), true);
    (
        UiStateV { current: key_of(id, channel), ..s2 },
        seq![EffectV::Sidebar] + e1 + e2 + seq![EffectV::Select { key: key_of(id, channel) }],
    )
}

/// What a buffer is matched against by `/switch`: `<conn_id> <name>`.
pub open spec fn switch_text(key: (u64, Seq<char>)) -> Seq<char> {
    dec(key.0 as nat) + " "@ + key.1
}

/// Index of the first buffer from `i` on whose switch text contains
/// `query`, both lowercased, or the length.
pub open spec fn switch_index(b: Seq<BufferInfoV>, query: Seq<char>, i: int) -> int
    decreases b.len() - i,
{
    if i < 0 || i >= b.len() {
        b.len() as int
    } else if crate::text::contains_seq(
        crate::text::lowercase(switch_text(b[i].key)),
        crate::text::lowercase(query),
    ) {
        i
    } else {
        switch_index(b, query, i + 1)
    }
}

/// The buffer `/switch <query>` goes to: the first whose `<conn_id> <name>`
/// contains the query, ignoring case.
pub open spec fn spec_find_buffer(st: UiStateV, query: Seq<char>) -> Option<(u64, Seq<char>)> {
    let i = switch_index(st.buffers, query, 0);
    if i < st.buffers.len() {
        Some(st.buffers[i].key)
    } else {
        None
    }
}


/// The sidebar's order: headings by connection id, before all buffers;
/// buffers by connection id, then name.
pub open spec fn item_le(a: SidebarItemV, b: SidebarItemV) -> bool {
    match (a, b) {
        (SidebarItemV::Header { conn_id: ca, .. }, SidebarItemV::Header { conn_id: cb, .. }) => ca <= cb,
        (SidebarItemV::Header { .. }, SidebarItemV::Buffer { .. }) => true,
        (SidebarItemV::Buffer { .. }, SidebarItemV::Header { .. }) => false,
        (SidebarItemV::Buffer { key: ka, .. }, SidebarItemV::Buffer { key: kb, .. }) => ka.0 < kb.0 || (
        ka.0 == kb.0 && crate::complete::key_le(ka.1, kb.1)),
    }
}

pub open spec fn insert_item(r: Seq<SidebarItemV>, x: SidebarItemV) -> Seq<SidebarItemV>
    decreases r.len(),
{
    if r.len() == 0 || item_le(r.last(), x) {
        r.push(x)
    } else {
        insert_item(r.drop_last(), x).push(r.last())
    }
}

/// The sidebar's rows stably sorted in sidebar order.
pub open spec fn sort_items(s: Seq<SidebarItemV>) -> Seq<SidebarItemV>
    decreases s.len(),
{
    if s.len() == 0 {
        seq![]
    } else {
        insert_item(sort_items(s.drop_last()), s.last())
    }
}

pub open spec fn item_at(r: Seq<SidebarItemV>, x: SidebarItemV) -> int
    decreases r.len(),
{
    if r.len() == 0 || item_le(r.last(), x) {
        r.len() as int
    } else {
        item_at(r.drop_last(), x)
    }
}

proof fn lemma_item_at(r: Seq<SidebarItemV>, x: SidebarItemV)
    ensures
        0 <= item_at(r, x) <= r.len(),
        insert_item(r, x) == r.take(item_at(r, x)).push(x) + r.skip(item_at(r, x)),
    decreases r.len(),
{
    if r.len() == 0 || item_le(r.last(), x) {
        assert(r.take(r.len() as int) == r);
        assert(r.skip(r.len() as int) =~= Seq::<SidebarItemV>::empty());
    } else {
        let d = r.drop_last();
        lemma_item_at(d, x);
        let q = item_at(d, x);
        assert(d.take(q) == r.take(q));
        assert(r.skip(q) =~= d.skip(q).push(r.last()));
        assert(insert_item(r, x) =~= r.take(q).push(x) + r.skip(q));
    }
}

/// A row of the sidebar as shown: a heading, or a buffer's name indented
/// by two spaces per level, with the buffer it opens.
pub struct SidebarRow {
    pub text: String,
    pub key: Option<BufferKey>,
}

pub open spec fn row_of(item: SidebarItemV) -> (Seq<char>, Option<(u64, Seq<char>)>) {
    match item {
        SidebarItemV::Header { title, .. } => (title, None),
        SidebarItemV::Buffer { key, display, indent } => (
            crate::text::repeat_char(' ', 2 * indent as nat) + display,
            Some(key),
        ),
    }
}

pub open spec fn rows_view(v: Seq<SidebarRow>) -> Seq<(Seq<char>, Option<(u64, Seq<char>)>)> {
    v.map_values(
        |r: SidebarRow|
            (
                r.text@,
                match r.key {
                    Some(k) => Some(k@),
                    None => None,
                },
            ),
    )
}



// ---------------------------------------------------------------------------
// Scrollback
// ---------------------------------------------------------------------------

/// How many lines a buffer keeps; older lines are dropped.
pub const MAX_BUFFER_LINES: i32 = 5000;

/// How many of the oldest lines a buffer holding `lines` lines drops to
/// stay within `max`; a cap of zero or less keeps everything.
pub fn lines_to_drop(lines: usize, max: i32) -> (r: usize)
    ensures
        max <= 0 || lines <= max ==> r == 0,
        max > 0 && lines > max ==> r == lines - max,
{
    if max <= 0 {
        return 0;
    }
    let cap = max as usize;
    if lines <= cap {
        0
    } else {
        lines - cap
    }
}

// ---------------------------------------------------------------------------
// Laws
// ---------------------------------------------------------------------------

proof fn lemma_buffer_index(b: Seq<BufferInfoV>, key: (u64, Seq<char>), i: int)
    requires
        0 <= i <= b.len(),
    ensures
        i <= buffer_index(b, key, i) <= b.len(),
        buffer_index(b, key, i) < b.len() ==> b[buffer_index(b, key, i)].key == key,
        buffer_index(b, key, i) == b.len() ==> forall|k: int| i <= k < b.len() ==> (#[trigger] b[k]).key != key,
    decreases b.len() - i,
{
    if i < b.len() && b[i].key != key {
        lemma_buffer_index(b, key, i + 1);
    }
}

proof fn lemma_buffer_index_push(b: Seq<BufferInfoV>, x: BufferInfoV, i: int)
    requires
        0 <= i <= b.len(),
        buffer_index(b, x.key, i) == b.len(),
    ensures
        buffer_index(b.push(x), x.key, i) == b.len(),
    decreases b.len() - i,
{
    if i < b.len() {
        assert(b.push(x)[i] == b[i]);
        lemma_buffer_index_push(b, x, i + 1);
    }
}

/// After `spec_ensure`, buffer `key` has a tab.
proof fn lemma_ensure_opens(st: UiStateV, key: (u64, Seq<char>), display: Seq<char>, make_current: bool)
    ensures
        buffer_index(spec_ensure(st, key, display, make_current).0.buffers, key, 0)
            < spec_ensure(st, key, display, make_current).0.buffers.len(),
{
    lemma_buffer_index(st.buffers, key, 0);
    if buffer_index(st.buffers, key, 0) == st.buffers.len() {
        lemma_buffer_index_push(
            st.buffers,
            BufferInfoV { key, base_label: display, unread: 0, highlights: 0 },
            0,
        );
    }
}

/// No line is lost: a line for a buffer that has no tab yet opens one, and
/// the line goes to that buffer.
pub proof fn appended_lines_have_a_buffer(
    st: UiStateV,
    key: (u64, Seq<char>),
    line: Seq<char>,
    bump_unread: bool,
    bump_highlight: bool,
)
    ensures
        buffer_index(spec_append(st, key, line, bump_unread, bump_highlight).0.buffers, key, 0)
            < spec_append(st, key, line, bump_unread, bump_highlight).0.buffers.len(),
        spec_append(st, key, line, bump_unread, bump_highlight).1.contains(EffectV::Append { key, line }),
{
    let display = spec_display_for(key, server_of(st, key.0));
    lemma_ensure_opens(st, key, display, false);
    let (s1, e1) = spec_open(st, key, false);
    let (s2, _) = spec_ensure(st, key, display, false);
    assert(s1.buffers == s2.buffers);
    let i = buffer_index(s1.buffers, key, 0);
    lemma_buffer_index(s1.buffers, key, 0);
    let e2 = e1 + seq![EffectV::Append { key, line }];
    assert(e2[e1.len() as int] == EffectV::Append { key, line });
    if bump_unread && s1.current != key && i < s1.buffers.len() {
        let r = spec_append(st, key, line, bump_unread, bump_highlight);
        assert(r.0.buffers.len() == s1.buffers.len());
        assert(forall|k: int| 0 <= k < s1.buffers.len() ==> (#[trigger] r.0.buffers[k]).key == s1.buffers[k].key);
        lemma_buffer_index_same_keys(s1.buffers, r.0.buffers, key, 0);
        assert(r.1[e1.len() as int] == EffectV::Append { key, line });
    }
}

proof fn lemma_buffer_index_same_keys(a: Seq<BufferInfoV>, b: Seq<BufferInfoV>, key: (u64, Seq<char>), i: int)
    requires
        a.len() == b.len(),
        forall|k: int| 0 <= k < a.len() ==> (#[trigger] b[k]).key == a[k].key,
        0 <= i <= a.len(),
    ensures
        buffer_index(a, key, i) == buffer_index(b, key, i),
    decreases a.len() - i,
{
    if i < a.len() {
        assert(b[i].key == a[i].key);
        lemma_buffer_index_same_keys(a, b, key, i + 1);
    }
}

/// The buffer being looked at never collects unread or highlight counts:
/// a line for it leaves every counter as it was.
pub proof fn the_current_buffer_never_counts_unread(
    st: UiStateV,
    line: Seq<char>,
    bump_unread: bool,
    bump_highlight: bool,
)
    ensures
        spec_append(st, st.current, line, bump_unread, bump_highlight).0.buffers == spec_open(
            st,
            st.current,
            false,
        ).0.buffers,
{
}

/// Looking at a buffer clears its counters, and its label goes back to
/// its plain name.
pub proof fn visiting_clears_the_counters(st: UiStateV, key: (u64, Seq<char>))
    requires
        buffer_index(st.buffers, key, 0) < st.buffers.len(),
    ensures
        ({
            let i = buffer_index(st.buffers, key, 0);
            let after = spec_visit(st, key);
            &&& after.0.buffers[i].unread == 0
            &&& after.0.buffers[i].highlights == 0
            &&& after.0.current == key
            &&& after.1[0] == (EffectV::Label { key, text: spec_tab_label(after.0.buffers[i].base_label, 0, 0) })
        }),
{
    lemma_buffer_index(st.buffers, key, 0);
}

// ---------------------------------------------------------------------------
// The implementation
// ---------------------------------------------------------------------------

pub fn keys_equal(a: &BufferKey, b: &BufferKey) -> (r: bool)
    ensures
        r == (a@ == b@),
{
    a.conn_id == b.conn_id && eq_chars(&chars_of(a.name.as_str()), &chars_of(b.name.as_str()))
}

pub(crate) fn key_named(conn_id: u64, name: &str) -> (r: BufferKey)
    ensures
        r@ == key_of(conn_id, name@),
{
    BufferKey::new(conn_id, name)
}

/// `a` followed by `b`.
pub(crate) fn concat(a: Vec<Effect>, b: Vec<Effect>) -> (r: Vec<Effect>)
    ensures
        effects_view(r@) == effects_view(a@) + effects_view(b@),
{
    let mut a = a;
    let mut b = b;
    let ghost a0 = a@;
    let ghost b0 = b@;
    a.append(&mut b);
    assert(effects_view(a@) =~= effects_view(a0) + effects_view(b0));
    a
}

pub(crate) fn one(e: Effect) -> (r: Vec<Effect>)
    ensures
        effects_view(r@) == seq![e@],
{
    let mut v: Vec<Effect> = Vec::new();
    v.push(e);
    assert(effects_view(v@) =~= seq![e@]);
    v
}

pub(crate) fn none() -> (r: Vec<Effect>)
    ensures
        effects_view(r@) == Seq::<EffectV>::empty(),
{
    let v: Vec<Effect> = Vec::new();
    assert(effects_view(v@) =~= Seq::<EffectV>::empty());
    v
}

fn item_le_exec(a: &SidebarItem, b: &SidebarItem) -> (r: bool)
    ensures
        r == item_le(a@, b@),
{
    match (a, b) {
        (SidebarItem::Header { conn_id: ca, .. }, SidebarItem::Header { conn_id: cb, .. }) => *ca <= *cb,
        (SidebarItem::Header { .. }, SidebarItem::Buffer { .. }) => true,
        (SidebarItem::Buffer { .. }, SidebarItem::Header { .. }) => false,
        (SidebarItem::Buffer { key: ka, .. }, SidebarItem::Buffer { key: kb, .. }) => ka.conn_id < kb.conn_id || (
        ka.conn_id == kb.conn_id && crate::complete::key_le_exec(&chars_of(ka.name.as_str()), &chars_of(kb.name.as_str()))),
    }
}

impl UiState {
    /// The window's state before anything happened: the global Status
    /// buffer, current, with no connections.
    pub fn new() -> (r: (UiState, Vec<Effect>))
        ensures
            r.0@ == (UiStateV {
                conns: seq![],
                current: key_of(0, "Status"@),
                buffers: seq![BufferInfoV { key: key_of(0, "Status"@), base_label: "Status"@, unread: 0, highlights: 0 }],
                users: seq![],
                sidebar: seq![],
                next_conn_id: 1,
            }),
            effects_view(r.1@) == seq![
                EffectV::CreateTab { key: key_of(0, "Status"@), label: "Status"@ },
                EffectV::Select { key: key_of(0, "Status"@) },
            ],
    {
        let mut buffers: Vec<BufferInfo> = Vec::new();
        buffers.push(BufferInfo { key: key_named(0, "Status"), base_label: "Status".to_owned(), unread: 0, highlights: 0 });
        let st = UiState {
            conns: Vec::new(),
            current: key_named(0, "Status"),
            buffers,
            users: Vec::new(),
            sidebar: Vec::new(),
            next_conn_id: 1,
        };
        let mut e: Vec<Effect> = Vec::new();
        e.push(Effect::CreateTab { key: key_named(0, "Status"), label: "Status".to_owned() });
        e.push(Effect::Select { key: key_named(0, "Status") });
        assert(st@.conns =~= Seq::<ConnEntryV>::empty());
        assert(st@.users =~= Seq::<ChannelUsersV>::empty());
        assert(st@.sidebar =~= Seq::<SidebarItemV>::empty());
        assert(st@.buffers =~= seq![BufferInfoV { key: key_of(0, "Status"@), base_label: "Status"@, unread: 0, highlights: 0 }]);
        assert(effects_view(e@) =~= seq![
            EffectV::CreateTab { key: key_of(0, "Status"@), label: "Status"@ },
            EffectV::Select { key: key_of(0, "Status"@) },
        ]);
        (st, e)
    }

    pub fn conn_idx(&self, conn_id: u64) -> (r: usize)
        ensures
            r == conn_index(self@.conns, conn_id, 0),
            r <= self.conns.len(),
    {
        let mut i: usize = 0;
        while i < self.conns.len() && self.conns[i].conn_id != conn_id
            invariant
                i <= self.conns.len(),
                conn_index(self@.conns, conn_id, i as int) == conn_index(self@.conns, conn_id, 0),
            decreases self.conns.len() - i,
        {
            i += 1;
        }
        proof {
            if i < self.conns.len() {
                assert(self@.conns[i as int].conn_id == conn_id);
            }
        }
        i
    }

    pub fn buffer_idx(&self, key: &BufferKey) -> (r: usize)
        ensures
            r == buffer_index(self@.buffers, key@, 0),
            r <= self.buffers.len(),
    {
        let mut i: usize = 0;
        while i < self.buffers.len() && !keys_equal(&self.buffers[i].key, key)
            invariant
                i <= self.buffers.len(),
                buffer_index(self@.buffers, key@, i as int) == buffer_index(self@.buffers, key@, 0),
            decreases self.buffers.len() - i,
        {
            assert(self@.buffers[i as int].key == self.buffers@[i as int].key@);
            i += 1;
        }
        proof {
            if i < self.buffers.len() {
                assert(self@.buffers[i as int].key == self.buffers@[i as int].key@);
            }
        }
        i
    }

    pub fn users_idx(&self, conn_id: u64, channel: &str) -> (r: usize)
        ensures
            r == users_index(self@.users, conn_id, channel@, 0),
            r <= self.users.len(),
    {
        let cv = chars_of(channel);
        let mut i: usize = 0;
        while i < self.users.len() && !(self.users[i].conn_id == conn_id && eq_chars(
            &chars_of(self.users[i].channel.as_str()),
            &cv,
        ))
            invariant
                i <= self.users.len(),
                cv@ == channel@,
                users_index(self@.users, conn_id, channel@, i as int) == users_index(
                    self@.users,
                    conn_id,
                    channel@,
                    0,
                ),
            decreases self.users.len() - i,
        {
            assert(self@.users[i as int] == self.users@[i as int]@);
            i += 1;
        }
        proof {
            if i < self.users.len() {
                assert(self@.users[i as int] == self.users@[i as int]@);
            }
        }
        i
    }

    /// The server of connection `conn_id`, if known.
    pub fn server_of(&self, conn_id: u64) -> (r: Option<&str>)
        ensures
            match r {
                Some(s) => server_of(self@, conn_id) == Some(s@),
                None => server_of(self@, conn_id) is None,
            },
    {
        let i = self.conn_idx(conn_id);
        if i < self.conns.len() {
            Some(self.conns[i].meta.server.as_str())
        } else {
            None
        }
    }

    fn sidebar_lists(&self, key: &BufferKey) -> (r: bool)
        ensures
            r == sidebar_has(self@.sidebar, key@),
    {
        let mut i: usize = 0;
        while i < self.sidebar.len()
            invariant
                i <= self.sidebar.len(),
                forall|k: int| 0 <= k < i ==> !lists(#[trigger] self@.sidebar[k], key@),
            decreases self.sidebar.len() - i,
        {
            assert(self@.sidebar[i as int] == self.sidebar@[i as int]@);
            match &self.sidebar[i] {
                SidebarItem::Buffer { key: k, .. } => {
                    if keys_equal(k, key) {
                        assert(lists(self@.sidebar[i as int], key@));
                        return true;
                    }
                },
                SidebarItem::Header { .. } => {},
            }
            i += 1;
        }
        false
    }

    fn ensure(&mut self, key: &BufferKey, display: &str, make_current: bool) -> (r: Vec<Effect>)
        ensures
            final(self)@ == spec_ensure(old(self)@, key@, display@, make_current).0,
            effects_view(r@) == spec_ensure(old(self)@, key@, display@, make_current).1,
    {
        let sel = if make_current {
            one(Effect::Select { key: key.clone_key() })
        } else {
            none()
        };
        if self.buffer_idx(key) < self.buffers.len() {
            return sel;
        }
        let ghost pre = self@;
        self.buffers.push(BufferInfo { key: key.clone_key(), base_label: display.to_owned(), unread: 0, highlights: 0 });
        assert(self@.buffers =~= pre.buffers.push(BufferInfoV { key: key@, base_label: display@, unread: 0, highlights: 0 }));
        concat(one(Effect::CreateTab { key: key.clone_key(), label: display.to_owned() }), sel)
    }

    fn add_sidebar(&mut self, key: &BufferKey, display: &str) -> (r: Vec<Effect>)
        ensures
            final(self)@ == spec_add_sidebar(old(self)@, key@, display@).0,
            effects_view(r@) == spec_add_sidebar(old(self)@, key@, display@).1,
    {
        if self.sidebar_lists(key) {
            return none();
        }
        let indent: u8 = if eq_str(&chars_of(key.name.as_str()), "Status") {
            1
        } else {
            2
        };
        let ghost pre = self@;
        self.sidebar.push(SidebarItem::Buffer { key: key.clone_key(), display: display.to_owned(), indent });
        assert(self@.sidebar =~= pre.sidebar.push(SidebarItemV::Buffer { key: key@, display: display@, indent: indent_of(key@) }));
        one(Effect::Sidebar)
    }

    /// Opens buffer `key`: its tab and sidebar row, named after it and its
    /// connection's server, shown if `make_current`.
    pub fn open(&mut self, key: &BufferKey, make_current: bool) -> (r: Vec<Effect>)
        ensures
            final(self)@ == spec_open(old(self)@, key@, make_current).0,
            effects_view(r@) == spec_open(old(self)@, key@, make_current).1,
    {
        let display = display_for_buffer(key, self.server_of(key.conn_id));
        let e1 = self.ensure(key, display.as_str(), make_current);
        let e2 = self.add_sidebar(key, display.as_str());
        concat(e1, e2)
    }

    /// A line for buffer `key`.
    pub fn append(&mut self, key: &BufferKey, line: &str, bump_unread: bool, bump_highlight: bool) -> (r: Vec<Effect>)
        ensures
            final(self)@ == spec_append(old(self)@, key@, line@, bump_unread, bump_highlight).0,
            effects_view(r@) == spec_append(old(self)@, key@, line@, bump_unread, bump_highlight).1,
    {
        let e1 = self.open(key, false);
        let e2 = concat(e1, one(Effect::Append { key: key.clone_key(), line: line.to_owned() }));
        let i = self.buffer_idx(key);
        if bump_unread && !keys_equal(&self.current, key) && i < self.buffers.len() {
            let ghost pre = self@;
            let mut b = self.buffers.remove(i);
            assert(b@ == pre.buffers[i as int]);
            b.unread = if b.unread == u32::MAX {
                b.unread
            } else {
                b.unread + 1
            };
            if bump_highlight {
                b.highlights = if b.highlights == u32::MAX {
                    b.highlights
                } else {
                    b.highlights + 1
                };
            }
            let label = tab_label(b.base_label.as_str(), b.unread, b.highlights);
            self.buffers.insert(i, b);
            assert(self@.buffers =~= pre.buffers.update(i as int, self@.buffers[i as int]));
            concat(e2, one(Effect::Label { key: key.clone_key(), text: label }))
        } else {
            e2
        }
    }

    fn set_users(&mut self, conn_id: u64, channel: &str, users: Vec<String>)
        ensures
            final(self)@ == (UiStateV { users: put_users(old(self)@.users, conn_id, channel@, strings_view(users@)), ..old(self)@ }),
    {
        let i = self.users_idx(conn_id, channel);
        let ghost pre = self@;
        let e = ChannelUsers { conn_id, channel: channel.to_owned(), users };
        if i < self.users.len() {
            self.users.set(i, e);
        } else {
            self.users.push(e);
        }
        assert(self@.users =~= put_users(pre.users, conn_id, channel@, strings_view(e.users@)));
    }

    fn users_copy(&self, i: usize) -> (r: Vec<String>)
        requires
            i < self.users.len(),
        ensures
            strings_view(r@) == self@.users[i as int].users,
    {
        let src = &self.users[i].users;
        let mut out: Vec<String> = Vec::new();
        let mut k: usize = 0;
        while k < src.len()
            invariant
                k <= src.len(),
                strings_view(out@) == strings_view(src@).take(k as int),
            decreases src.len() - k,
        {
            let ghost pre = strings_view(out@);
            out.push(src[k].clone());
            assert(strings_view(out@) =~= pre.push(src@[k as int]@));
            k += 1;
            assert(strings_view(src@).take(k as int) =~= strings_view(src@).take(k - 1).push(src@[k - 1]@));
        }
        assert(strings_view(src@).take(src.len() as int) == strings_view(src@));
        assert(self@.users[i as int] == self.users@[i as int]@);
        out
    }


    /// Looking at buffer `key` (its tab was switched to or its sidebar row
    /// chosen).
    pub fn visit(&mut self, key: &BufferKey) -> (r: Vec<Effect>)
        ensures
            final(self)@ == spec_visit(old(self)@, key@).0,
            effects_view(r@) == spec_visit(old(self)@, key@).1,
    {
        let i = self.buffer_idx(key);
        self.current = key.clone_key();
        if i < self.buffers.len() {
            let ghost pre = self@;
            let mut b = self.buffers.remove(i);
            assert(b@ == pre.buffers[i as int]);
            b.unread = 0;
            b.highlights = 0;
            let label = b.base_label.clone();
            self.buffers.insert(i, b);
            assert(self@.buffers =~= pre.buffers.update(i as int, self@.buffers[i as int]));
            concat(one(Effect::Label { key: key.clone_key(), text: label }), one(Effect::Users))
        } else {
            one(Effect::Users)
        }
    }

    /// Adds a connection to `server` as `nick`, starting in `channel`, and
    /// returns its id.
    pub fn add_connection(&mut self, server: &str, nick: &str, channel: &str) -> (r: (u64, Vec<Effect>))
        requires
            old(self).next_conn_id < u64::MAX,
        ensures
            r.0 == old(self).next_conn_id,
            final(self)@ == spec_add_connection(old(self)@, server@, nick@, channel@).0,
            effects_view(r.1@) == spec_add_connection(old(self)@, server@, nick@, channel@).1,
    {
        let id = self.next_conn_id;
        self.next_conn_id = id + 1;
        let ghost pre = self@;
        let e = ConnEntry {
            conn_id: id,
            meta: ConnMeta { server: server.to_owned(), nick: nick.to_owned(), default_target: channel.to_owned() },
        };
        let ghost ev = e@;
        let i = self.conn_idx(id);
        if i < self.conns.len() {
            self.conns.set(i, e);
        } else {
            self.conns.push(e);
        }
        assert(self@.conns =~= put_conn(pre.conns, ev));
        let mut t = chars_of("[");
        extend(&mut t, &u64_dec(id));
        extend_str(&mut t, "] ");
        extend_str(&mut t, server);
        let ghost pre2 = self@;
        self.sidebar.push(SidebarItem::Header { conn_id: id, title: string_of(&t) });
        assert(self@.sidebar =~= pre2.sidebar.push(SidebarItemV::Header { conn_id: id, title: header_title(id, server@) }));
        let status = key_named(id, "Status");
        let e1 = self.open(&status, false);
        let chan = key_named(id, channel);
        let e2 = self.open(&chan, true);
        self.current = chan.clone_key();
        let effects = concat(concat(concat(one(Effect::Sidebar), e1), e2), one(Effect::Select { key: chan }));
        (id, effects)
    }

    /// The buffer `/switch <query>` goes to.
    pub fn find_buffer(&self, query: &str) -> (r: Option<BufferKey>)
        ensures
            match r {
                Some(k) => spec_find_buffer(self@, query@) == Some(k@),
                None => spec_find_buffer(self@, query@) is None,
            },
    {
        let q = crate::text::lower_chars(&chars_of(query));
        let mut i: usize = 0;
        while i < self.buffers.len()
            invariant
                i <= self.buffers.len(),
                q@ == crate::text::lowercase(query@),
                switch_index(self@.buffers, query@, i as int) == switch_index(self@.buffers, query@, 0),
            decreases self.buffers.len() - i,
        {
            let k = &self.buffers[i].key;
            assert(self@.buffers[i as int].key == k@);
            let mut t = u64_dec(k.conn_id);
            t.push(' ');
            extend_str(&mut t, k.name.as_str());
            proof {
                reveal_strlit(" ");
            }
            assert(t@ == switch_text(k@));
            if crate::text::contains_chars(&crate::text::lower_chars(&t), &q) {
                return Some(k.clone_key());
            }
            i += 1;
        }
        None
    }


    /// The sidebar's rows, in sidebar order.
    pub fn sidebar_rows(&self) -> (r: Vec<SidebarRow>)
        ensures
            rows_view(r@) == sort_items(self@.sidebar).map_values(|i: SidebarItemV| row_of(i)),
    {
        let ghost items = self@.sidebar;
        // Indices into the sidebar, in sorted order.
        let mut order: Vec<usize> = Vec::new();
        let mut n: usize = 0;
        while n < self.sidebar.len()
            invariant
                n <= self.sidebar.len(),
                items == self@.sidebar,
                forall|k: int| 0 <= k < order@.len() ==> (#[trigger] order@[k]) < self.sidebar.len(),
                order@.map_values(|i: usize| items[i as int]) == sort_items(items.take(n as int)),
            decreases self.sidebar.len() - n,
        {
            let ghost x = items[n as int];
            let ghost before = order@.map_values(|i: usize| items[i as int]);
            assert(items.take(n + 1).drop_last() == items.take(n as int));
            assert(items.take(n + 1).last() == x);
            assert(before.take(order.len() as int) == before);
            let mut j = order.len();
            while j > 0 && !item_le_exec(&self.sidebar[order[j - 1]], &self.sidebar[n])
                invariant
                    j <= order@.len(),
                    n < self.sidebar.len(),
                    items == self@.sidebar,
                    x == items[n as int],
                    forall|k: int| 0 <= k < order@.len() ==> (#[trigger] order@[k]) < self.sidebar.len(),
                    before == order@.map_values(|i: usize| items[i as int]),
                    item_at(before.take(j as int), x) == item_at(before, x),
                decreases j,
            {
                assert(before.take(j as int).drop_last() == before.take(j - 1));
                assert(before.take(j as int).last() == before[j - 1]);
                assert(before[j - 1] == items[order@[j - 1] as int]);
                j -= 1;
            }
            proof {
                if j > 0 {
                    assert(before.take(j as int).last() == before[j - 1]);
                    assert(before[j - 1] == items[order@[j - 1] as int]);
                }
                assert(item_at(before.take(j as int), x) == j);
                lemma_item_at(before, x);
            }
            order.insert(j, n);
            assert(order@.map_values(|i: usize| items[i as int]) =~= before.take(j as int).push(x) + before.skip(j as int));
            n += 1;
        }
        assert(items.take(self.sidebar.len() as int) == items);
        let ghost sorted = sort_items(items);
        let mut rows: Vec<SidebarRow> = Vec::new();
        let mut k: usize = 0;
        while k < order.len()
            invariant
                k <= order@.len(),
                items == self@.sidebar,
                forall|m: int| 0 <= m < order@.len() ==> (#[trigger] order@[m]) < self.sidebar.len(),
                order@.map_values(|i: usize| items[i as int]) == sorted,
                rows_view(rows@) == sorted.take(k as int).map_values(|i: SidebarItemV| row_of(i)),
            decreases order@.len() - k,
        {
            let idx = order[k];
            assert(sorted[k as int] == items[idx as int]);
            assert(items[idx as int] == self.sidebar@[idx as int]@);
            let row = match &self.sidebar[idx] {
                SidebarItem::Header { title, .. } => SidebarRow { text: title.clone(), key: None },
                SidebarItem::Buffer { key, display, indent } => {
                    let mut t = crate::text::repeat_exec(' ', 2 * (*indent as usize));
                    extend_str(&mut t, display.as_str());
                    SidebarRow { text: string_of(&t), key: Some(key.clone_key()) }
                },
            };
            let ghost pre = rows_view(rows@);
            rows.push(row);
            assert(rows_view(rows@) =~= pre.push(row_of(sorted[k as int])));
            k += 1;
            assert(sorted.take(k as int).map_values(|i: SidebarItemV| row_of(i)) =~= sorted.take(k - 1).map_values(
                |i: SidebarItemV| row_of(i),
            ).push(row_of(sorted[k - 1])));
        }
        assert(sorted.take(order@.len() as int) == sorted);
        rows
    }

    /// Applies a UI event, stamped `ts`.
    pub fn apply(&mut self, ev: UiEvent, ts: &str) -> (r: Vec<Effect>)
        ensures
            final(self)@ == spec_apply(old(self)@, ev@, ts@).0,
            effects_view(r@) == spec_apply(old(self)@, ev@, ts@).1,
    {
        match ev {
            UiEvent::ConnectionUp { conn_id, server, nick, initial_channel } => {
                if self.conn_idx(conn_id) < self.conns.len() {
                    return none();
                }
                let ghost pre = self@;
                let e = ConnEntry { conn_id, meta: ConnMeta { server, nick, default_target: initial_channel } };
                let ghost ev = e@;
                self.conns.push(e);
                assert(self@.conns =~= pre.conns.push(ev));
                none()
            },
            UiEvent::ConnectionDown { conn_id, reason } => {
                let key = key_named(conn_id, "Status");
                if self.buffer_idx(&key) < self.buffers.len() {
                    let mut l = chars_of(ts);
                    extend_str(&mut l, " *** DISCONNECTED: ");
                    extend_str(&mut l, reason.as_str());
                    one(Effect::Append { key, line: string_of(&l) })
                } else {
                    none()
                }
            },
            UiEvent::EnsureBuffer { conn_id, buffer, make_current } => {
                let key = key_named(conn_id, buffer.as_str());
                let e1 = self.open(&key, make_current);
                if make_current {
                    self.current = key.clone_key();
                    concat(e1, one(Effect::Select { key }))
                } else {
                    e1
                }
            },
            UiEvent::Append { conn_id, buffer, line, bump_unread, bump_highlight } => {
                let key = key_named(conn_id, buffer.as_str());
                self.append(&key, line.as_str(), bump_unread, bump_highlight)
            },
            UiEvent::SetMyNick { conn_id, nick } => {
                let i = self.conn_idx(conn_id);
                if i < self.conns.len() {
                    let ghost pre = self@;
                    let mut e = self.conns.remove(i);
                    assert(e@ == pre.conns[i as int]);
                    e.meta.nick = nick;
                    self.conns.insert(i, e);
                    assert(self@.conns =~= pre.conns.update(i as int, ConnEntryV { nick: self@.conns[i as int].nick, ..pre.conns[i as int] }));
                }
                none()
            },
            UiEvent::SetUsers { conn_id, channel, users } => {
                let set = dedupe_users(users);
                self.set_users(conn_id, channel.as_str(), set);
                one(Effect::Users)
            },
            UiEvent::AddUser { conn_id, channel, nick } => {
                let i = self.users_idx(conn_id, channel.as_str());
                let mut set = if i < self.users.len() {
                    self.users_copy(i)
                } else {
                    Vec::new()
                };
                assert(strings_view(set@) == users_of(self@.users, conn_id, channel@));
                let disp = display_chars(&chars_of(nick.as_str()));
                retain_not_shown_as(&mut set, &disp);
                insert_nick(&mut set, nick);
                self.set_users(conn_id, channel.as_str(), set);
                one(Effect::Users)
            },
            UiEvent::RemoveUser { conn_id, channel, nick } => {
                let i = self.users_idx(conn_id, channel.as_str());
                if i < self.users.len() {
                    let mut set = self.users_copy(i);
                    let disp = display_chars(&chars_of(nick.as_str()));
                    retain_not_shown_as(&mut set, &disp);
                    self.set_users(conn_id, channel.as_str(), set);
                }
                one(Effect::Users)
            },
            UiEvent::RemoveUserEverywhere { conn_id, nick } => {
                let nv = chars_of(nick.as_str());
                let ghost pre = self@;

                let mut i: usize = 0;
                while i < self.users.len()
                    invariant
                        i <= self.users.len(),
                        self.users.len() == pre.users.len(),
                        self@.conns == pre.conns && self@.current == pre.current && self@.buffers
                            == pre.buffers && self@.sidebar == pre.sidebar && self@.next_conn_id
                            == pre.next_conn_id,
                        forall|k: int| 0 <= k < i ==> self@.users[k] == without_nick(conn_id, nv@, pre.users[k]),
                        forall|k: int| i <= k < self.users.len() ==> self@.users[k] == pre.users[k],
                    decreases self.users.len() - i,
                {
                    if self.users[i].conn_id == conn_id {
                        let ghost mid = self@;
                        let ghost mid_exec = self.users@;
                        let mut e = self.users.remove(i);
                        assert(e@ == mid.users[i as int]);
                        let ghost before_e = e@;
                        remove_exact(&mut e.users, &nv);
                        let ghost after = e@;
                        assert(before_e == pre.users[i as int]);
                        assert(after.conn_id == before_e.conn_id);
                        assert(after.channel == before_e.channel);
                        assert(after.users == before_e.users.filter(is_not(nv@)));
                        assert(after == without_nick(conn_id, nv@, pre.users[i as int]));
                        self.users.insert(i, e);
                        assert(self.users@[i as int]@ == after);
                        assert(self@.users[i as int] == after);
                        assert forall|k: int| 0 <= k < self.users.len() && k != i implies self@.users[k] == mid.users[k] by {
                            assert(self.users@[k] == mid_exec[k]);
                            assert(mid.users[k] == mid_exec[k]@);
                            assert(self@.users[k] == self.users@[k]@);
                        }
                        assert forall|k: int| 0 <= k < i implies self@.users[k] == without_nick(conn_id, nv@, pre.users[k]) by {
                            assert(self@.users[k] == mid.users[k]);
                        }
                    } else {
                        assert(self@.users[i as int] == self.users@[i as int]@);
                    }
                    i += 1;
                }
                assert(self@.users =~= pre.users.map_values(|e: ChannelUsersV| without_nick(conn_id, nick@, e)));
                one(Effect::Users)
            },
            UiEvent::RenameUserEverywhere { conn_id, old, new_ } => {
                let od = display_chars(&chars_of(old.as_str()));
                let ghost pre = self@;

                let mut i: usize = 0;
                while i < self.users.len()
                    invariant
                        i <= self.users.len(),
                        self.users.len() == pre.users.len(),
                        od@ == spec_nick_display(old@),
                        self@.conns == pre.conns && self@.current == pre.current && self@.buffers
                            == pre.buffers && self@.sidebar == pre.sidebar && self@.next_conn_id
                            == pre.next_conn_id,
                        forall|k: int| 0 <= k < i ==> self@.users[k] == renamed(conn_id, old@, new_@, pre.users[k]),
                        forall|k: int| i <= k < self.users.len() ==> self@.users[k] == pre.users[k],
                    decreases self.users.len() - i,
                {
                    if self.users[i].conn_id == conn_id {
                        let ghost mid = self@;
                        let ghost mid_exec = self.users@;
                        let mut e = self.users.remove(i);
                        assert(e@ == mid.users[i as int]);
                        let removed = retain_not_shown_as(&mut e.users, &od);
                        if removed {
                            insert_nick(&mut e.users, new_.clone());
                        }
                        let ghost after = e@;
                        assert(after == renamed(conn_id, old@, new_@, pre.users[i as int]));
                        self.users.insert(i, e);
                        assert(self.users@[i as int]@ == after);
                        assert(self@.users[i as int] == after);
                        assert forall|k: int| 0 <= k < self.users.len() && k != i implies self@.users[k] == mid.users[k] by {
                            assert(self.users@[k] == mid_exec[k]);
                            assert(mid.users[k] == mid_exec[k]@);
                            assert(self@.users[k] == self.users@[k]@);
                        }
                        assert forall|k: int| 0 <= k < i implies self@.users[k] == renamed(conn_id, old@, new_@, pre.users[k]) by {
                            assert(self@.users[k] == mid.users[k]);
                        }
                    } else {
                        assert(self@.users[i as int] == self.users@[i as int]@);
                    }
                    i += 1;
                }
                assert(self@.users =~= pre.users.map_values(|e: ChannelUsersV| renamed(conn_id, old@, new_@, e)));
                one(Effect::Users)
            },
        }
    }
}

} // verus!
