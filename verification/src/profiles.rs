//! Saved connection profiles: what a profile connects with, how the
//! profile editor's fields become a profile, and the list kept in
//! `profiles.toml` (reading and writing the file is the caller's).
use vstd::prelude::*;
use crate::complete::{key_le, key_le_exec};
use crate::model::{IrcConfig, IrcConfigV};
use crate::numerics::opt_string_view;
use vstd::utf8::encode_utf8;
use crate::text::{
    extend_bytes,
    chars_of, dec, eq_str, extend, extend_str, lower_chars, parse_u64, lowercase, ascii_lower, eq_ignore_ascii_case,
    spec_parse_u64, string_of, trim, trim_vec, u64_dec,
};

verus! {

/// One saved connection.
#[derive(Debug)]
pub struct Profile {
    pub name: String,
    pub server: String,
    pub port: u16,
    pub tls: bool,
    pub nick: String,
    pub initial_channel: String,
    /// ZNC credentials: when username and password are set, they are sent
    /// as the IRC `PASS`, `username/network:password` (or
    /// `username:password` without a network).
    pub znc_username: Option<String>,
    pub znc_network: Option<String>,
    pub znc_password: Option<String>,
    /// SASL PLAIN credentials.
    pub sasl_username: Option<String>,
    pub sasl_password: Option<String>,
}

/// The contents of `profiles.toml`.
#[derive(Debug)]
pub struct ProfilesFile {
    pub profiles: Vec<Profile>,
}

impl Default for ProfilesFile {
    fn default() -> (r: Self)
        ensures
            r.profiles@.len() == 0,
    {
        ProfilesFile { profiles: Vec::new() }
    }
}

pub struct ProfileV {
    pub name: Seq<char>,
    pub server: Seq<char>,
    pub port: u16,
    pub tls: bool,
    pub nick: Seq<char>,
    pub initial_channel: Seq<char>,
    pub znc_username: Option<Seq<char>>,
    pub znc_network: Option<Seq<char>>,
    pub znc_password: Option<Seq<char>>,
    pub sasl_username: Option<Seq<char>>,
    pub sasl_password: Option<Seq<char>>,
}

impl View for Profile {
    type V = ProfileV;

    open spec fn view(&self) -> ProfileV {
        ProfileV {
            name: self.name@,
            server: self.server@,
            port: self.port,
            tls: self.tls,
            nick: self.nick@,
            initial_channel: self.initial_channel@,
            znc_username: opt_string_view(self.znc_username),
            znc_network: opt_string_view(self.znc_network),
            znc_password: opt_string_view(self.znc_password),
            sasl_username: opt_string_view(self.sasl_username),
            sasl_password: opt_string_view(self.sasl_password),
        }
    }
}

pub open spec fn profiles_view(v: Seq<Profile>) -> Seq<ProfileV> {
    v.map_values(|p: Profile| p@)
}

// ---------------------------------------------------------------------------
// Connecting with a profile
// ---------------------------------------------------------------------------

/// An optional field, trimmed, and absent when blank.
pub open spec fn filled(o: Option<Seq<char>>) -> Option<Seq<char>> {
    match o {
        Some(s) => if trim(s).len() > 0 {
            Some(trim(s))
        } else {
            None
        },
        None => None,
    }
}

/// The IRC `PASS` ZNC expects: `user/network:password`, or
/// `user:password` without a network; none unless user and password are
/// both filled in.
pub open spec fn spec_znc_pass(
    user: Option<Seq<char>>,
    network: Option<Seq<char>>,
    pass: Option<Seq<char>>,
) -> Option<Seq<char>> {
    match (filled(user), filled(pass)) {
        (Some(u), Some(p)) => match filled(network) {
            Some(n) => Some(u + "/"@ + n + ":"@ + p),
            None => Some(u + ":"@ + p),
        },
        _ => None,
    }
}

fn filled_exec(o: Option<&str>) -> (r: Option<Vec<char>>)
    ensures
        match r {
            Some(v) => filled(
                match o {
                    Some(s) => Some(s@),
                    None => None,
                },
            ) == Some(v@),
            None => filled(
                match o {
                    Some(s) => Some(s@),
                    None => None,
                },
            ) is None,
        },
{
    match o {
        Some(s) => {
            let t = trim_vec(&chars_of(s));
            if t.len() > 0 {
                Some(t)
            } else {
                None
            }
        },
        None => None,
    }
}

pub open spec fn opt_str_view(o: Option<&str>) -> Option<Seq<char>> {
    match o {
        Some(s) => Some(s@),
        None => None,
    }
}

/// The ZNC `PASS` line's argument for these credentials, if they are complete.
pub fn build_znc_pass(user: Option<&str>, network: Option<&str>, pass: Option<&str>) -> (r: Option<String>)
    ensures
        opt_string_view(r) == spec_znc_pass(opt_str_view(user), opt_str_view(network), opt_str_view(pass)),
{
    let u = filled_exec(user);
    let p = filled_exec(pass);
    let (u, p) = match (u, p) {
        (Some(u), Some(p)) => (u, p),
        _ => {
            return None;
        },
    };
    let mut out = u;
    match filled_exec(network) {
        Some(n) => {
            out.push('/');
            extend(&mut out, &n);
        },
        None => {},
    }
    out.push(':');
    extend(&mut out, &p);
    proof {
        reveal_strlit("/");
        reveal_strlit(":");
    }
    Some(string_of(&out))
}

fn opt_as_str(o: &Option<String>) -> (r: Option<&str>)
    ensures
        opt_str_view(r) == opt_string_view(*o),
{
    match o {
        Some(s) => Some(s.as_str()),
        None => None,
    }
}

fn opt_copy(o: &Option<String>) -> (r: Option<String>)
    ensures
        opt_string_view(r) == opt_string_view(*o),
{
    match o {
        Some(s) => Some(s.clone()),
        None => None,
    }
}

pub open spec fn spec_to_irc_config(p: ProfileV) -> IrcConfigV {
    IrcConfigV {
        server: p.server,
        port: p.port,
        tls: p.tls,
        nick: p.nick,
        initial_channel: p.initial_channel,
        server_password: spec_znc_pass(p.znc_username, p.znc_network, p.znc_password),
        sasl_username: p.sasl_username,
        sasl_password: p.sasl_password,
    }
}

/// Whether a profile goes through ZNC.
pub open spec fn spec_is_znc(p: ProfileV) -> bool {
    p.znc_username is Some && p.znc_password is Some
}

impl Profile {
    /// The connection settings this profile stands for.
    pub fn to_irc_config(&self) -> (r: IrcConfig)
        ensures
            r@ == spec_to_irc_config(self@),
    {
        let server_password = build_znc_pass(
            opt_as_str(&self.znc_username),
            opt_as_str(&self.znc_network),
            opt_as_str(&self.znc_password),
        );
        IrcConfig {
            server: self.server.clone(),
            port: self.port,
            tls: self.tls,
            nick: self.nick.clone(),
            initial_channel: self.initial_channel.clone(),
            server_password,
            sasl_username: opt_copy(&self.sasl_username),
            sasl_password: opt_copy(&self.sasl_password),
        }
    }

    /// Whether this profile goes through ZNC: it is listed under ZNC, not
    /// Regular.
    pub fn is_znc(&self) -> (b: bool)
        ensures
            b == spec_is_znc(self@),
    {
        self.znc_username.is_some() && self.znc_password.is_some()
    }

    /// The profile's line in the profile list.
    pub fn summary(&self) -> (r: String)
        ensures
            r@ == spec_summary(self@),
    {
        let mut v = chars_of(self.name.as_str());
        extend_str(&mut v, "  →  ");
        extend_str(&mut v, self.server.as_str());
        v.push(':');
        extend(&mut v, &u64_dec(self.port as u64));
        extend_str(&mut v, "  ");
        if self.tls {
            extend_str(&mut v, "TLS");
        } else {
            extend_str(&mut v, "PLAINTEXT");
        }
        extend_str(&mut v, "  nick=");
        extend_str(&mut v, self.nick.as_str());
        extend_str(&mut v, "  chan=");
        extend_str(&mut v, self.initial_channel.as_str());
        if self.is_znc() {
            extend_str(&mut v, "  znc_user=");
            extend_str(&mut v, or_empty(&self.znc_username));
            extend_str(&mut v, "  net=");
            extend_str(&mut v, or_empty(&self.znc_network));
        } else {
            extend_str(&mut v, "  sasl=");
            if self.sasl_username.is_some() {
                extend_str(&mut v, "yes");
            } else {
                extend_str(&mut v, "no");
            }
        }
        proof {
            reveal_strlit(":");
        }
        string_of(&v)
    }
}

fn or_empty(o: &Option<String>) -> (r: &str)
    ensures
        r@ == or_empty_spec(opt_string_view(*o)),
{
    match o {
        Some(s) => s.as_str(),
        None => "",
    }
}

pub open spec fn or_empty_spec(o: Option<Seq<char>>) -> Seq<char> {
    match o {
        Some(s) => s,
        None => ""@,
    }
}

/// `name  →  server:port  TLS  nick=…  chan=…` followed by the ZNC user and
/// network for a ZNC profile, or whether SASL is set for a regular one.
pub open spec fn spec_summary(p: ProfileV) -> Seq<char> {
    p.name + "  →  "@ + p.server + ":"@ + dec(p.port as nat) + "  "@ + (if p.tls {
        "TLS"@
    } else {
        "PLAINTEXT"@
    }) + "  nick="@ + p.nick + "  chan="@ + p.initial_channel + if spec_is_znc(p) {
        "  znc_user="@ + or_empty_spec(p.znc_username) + "  net="@ + or_empty_spec(p.znc_network)
    } else {
        "  sasl="@ + (if p.sasl_username is Some {
            "yes"@
        } else {
            "no"@
        })
    }
}

// ---------------------------------------------------------------------------
// The profile editor
// ---------------------------------------------------------------------------

/// What `str::parse::<u16>` gives.
pub open spec fn spec_parse_u16(s: Seq<char>) -> Option<u16> {
    match spec_parse_u64(s) {
        Some(n) => if n <= u16::MAX {
            Some(n as u16)
        } else {
            None
        },
        None => None,
    }
}

fn ascii_lower_exec(c: char) -> (r: char)
    ensures
        r == ascii_lower(c),
{
    if 'A' <= c && c <= 'Z' {
        ((c as u8) + 32) as char
    } else {
        c
    }
}

fn eq_ignore_ascii_case_exec(a: &Vec<char>, b: &str) -> (r: bool)
    ensures
        r == eq_ignore_ascii_case(a@, b@),
{
    let bv = chars_of(b);
    if a.len() != bv.len() {
        return false;
    }
    let mut i: usize = 0;
    while i < a.len()
        invariant
            i <= a.len() == bv.len(),
            bv@ == b@,
            forall|k: int| 0 <= k < i ==> ascii_lower(#[trigger] a@[k]) == ascii_lower(bv@[k]),
        decreases a.len() - i,
    {
        if ascii_lower_exec(a[i]) != ascii_lower_exec(bv[i]) {
            return false;
        }
        i += 1;
    }
    true
}

/// A trimmed field, absent when blank.
pub open spec fn field(s: Seq<char>) -> Option<Seq<char>> {
    if trim(s).len() > 0 {
        Some(trim(s))
    } else {
        None
    }
}

/// What the editor's fields, as typed, are saved as: everything trimmed, a
/// port that does not parse taken as 6697, TLS on when the field reads
/// `true` in any case, blank optional fields absent. Name, server, nick and
/// initial channel are required.
pub open spec fn spec_profile_from_form(
    name: Seq<char>,
    server: Seq<char>,
    port: Seq<char>,
    tls: Seq<char>,
    nick: Seq<char>,
    chan: Seq<char>,
    znc_user: Seq<char>,
    znc_net: Seq<char>,
    znc_pass: Seq<char>,
    sasl_user: Seq<char>,
    sasl_pass: Seq<char>,
) -> Option<ProfileV> {
    if trim(name).len() == 0 || trim(server).len() == 0 || trim(nick).len() == 0 || trim(chan).len() == 0 {
        None
    } else {
        Some(
            ProfileV {
                name: trim(name),
                server: trim(server),
                port: match spec_parse_u16(trim(port)) {
                    Some(p) => p,
                    None => 6697,
                },
                tls: eq_ignore_ascii_case(trim(tls), "true"@),
                nick: trim(nick),
                initial_channel: trim(chan),
                znc_username: field(znc_user),
                znc_network: field(znc_net),
                znc_password: field(znc_pass),
                sasl_username: field(sasl_user),
                sasl_password: field(sasl_pass),
            },
        )
    }
}

fn field_exec(s: &str) -> (r: Option<String>)
    ensures
        opt_string_view(r) == field(s@),
{
    let t = trim_vec(&chars_of(s));
    if t.len() > 0 {
        Some(string_of(&t))
    } else {
        None
    }
}

/// The message shown when a required field is blank.
pub open spec fn missing_fields_message() -> Seq<char> {
    "Missing required fields: name, server, nick, initial channel."@
}

/// The profile the editor's fields describe, or the message to show when a
/// required field is blank.
pub fn profile_from_form(
    name: &str,
    server: &str,
    port: &str,
    tls: &str,
    nick: &str,
    chan: &str,
    znc_user: &str,
    znc_net: &str,
    znc_pass: &str,
    sasl_user: &str,
    sasl_pass: &str,
) -> (r: Result<Profile, String>)
    ensures
        match r {
            Ok(p) => spec_profile_from_form(
                name@,
                server@,
                port@,
                tls@,
                nick@,
                chan@,
                znc_user@,
                znc_net@,
                znc_pass@,
                sasl_user@,
                sasl_pass@,
            ) == Some(p@),
            Err(m) => spec_profile_from_form(
                name@,
                server@,
                port@,
                tls@,
                nick@,
                chan@,
                znc_user@,
                znc_net@,
                znc_pass@,
                sasl_user@,
                sasl_pass@,
            ) is None && m@ == missing_fields_message(),
        },
{
    let name_v = trim_vec(&chars_of(name));
    let server_v = trim_vec(&chars_of(server));
    let nick_v = trim_vec(&chars_of(nick));
    let chan_v = trim_vec(&chars_of(chan));
    if name_v.len() == 0 || server_v.len() == 0 || nick_v.len() == 0 || chan_v.len() == 0 {
        return Err("Missing required fields: name, server, nick, initial channel.".to_owned());
    }
    let port_t = trim_vec(&chars_of(port));
    let port_v: u16 = match parse_u64(&port_t) {
        Some(n) => if n <= 65535 {
            n as u16
        } else {
            6697
        },
        None => 6697,
    };
    let tls_v = eq_ignore_ascii_case_exec(&trim_vec(&chars_of(tls)), "true");
    let p = Profile {
        name: string_of(&name_v),
        server: string_of(&server_v),
        port: port_v,
        tls: tls_v,
        nick: string_of(&nick_v),
        initial_channel: string_of(&chan_v),
        znc_username: field_exec(znc_user),
        znc_network: field_exec(znc_net),
        znc_password: field_exec(znc_pass),
        sasl_username: field_exec(sasl_user),
        sasl_password: field_exec(sasl_pass),
    };
    Ok(p)
}


// ---------------------------------------------------------------------------
// The list of profiles
// ---------------------------------------------------------------------------

/// The profile a fresh install starts with.
pub open spec fn example_profile() -> ProfileV {
    ProfileV {
        name: "Libera (example)"@,
        server: "irc.libera.chat"@,
        port: 6697,
        tls: true,
        nick: "hexrust"@,
        initial_channel: "#hexrust"@,
        znc_username: None,
        znc_network: None,
        znc_password: None,
        sasl_username: None,
        sasl_password: None,
    }
}

/// Adds the example profile to an empty list; says whether it did, so the
/// caller knows to save.
pub fn seed_example_if_empty(pf: &mut ProfilesFile) -> (added: bool)
    ensures
        added == (old(pf).profiles@.len() == 0),
        added ==> profiles_view(final(pf).profiles@) == seq![example_profile()],
        !added ==> final(pf).profiles@ == old(pf).profiles@,
{
    if !pf.profiles.is_empty() {
        return false;
    }
    pf.profiles.push(
        Profile {
            name: "Libera (example)".to_owned(),
            server: "irc.libera.chat".to_owned(),
            port: 6697,
            tls: true,
            nick: "hexrust".to_owned(),
            initial_channel: "#hexrust".to_owned(),
            znc_username: None,
            znc_network: None,
            znc_password: None,
            sasl_username: None,
            sasl_password: None,
        },
    );
    assert(profiles_view(pf.profiles@) =~= seq![example_profile()]);
    true
}

/// Whether a profile is not named `name`.
pub open spec fn not_named(name: Seq<char>) -> spec_fn(ProfileV) -> bool {
    |q: ProfileV| q.name != name
}

/// The first profile named `name`.
pub open spec fn find_named(s: Seq<ProfileV>, name: Seq<char>) -> Option<ProfileV>
    decreases s.len(),
{
    if s.len() == 0 {
        None
    } else {
        match find_named(s.drop_last(), name) {
            Some(p) => Some(p),
            None => if s.last().name == name {
                Some(s.last())
            } else {
                None
            },
        }
    }
}

/// `s` with its first profile named like `p` replaced by `p`.
pub open spec fn replace_first(s: Seq<ProfileV>, p: ProfileV) -> Seq<ProfileV>
    decreases s.len(),
{
    if s.len() == 0 {
        s
    } else if find_named(s.drop_last(), p.name) is Some {
        replace_first(s.drop_last(), p).push(s.last())
    } else if s.last().name == p.name {
        s.drop_last().push(p)
    } else {
        s
    }
}

/// The sort key of a profile: its name, lowercased.
pub open spec fn name_key(p: ProfileV) -> Seq<char> {
    lowercase(p.name)
}

/// One step of a stable insertion sort by name key.
pub open spec fn insert_by_name(r: Seq<ProfileV>, x: ProfileV) -> Seq<ProfileV>
    decreases r.len(),
{
    if r.len() == 0 || key_le(name_key(r.last()), name_key(x)) {
        r.push(x)
    } else {
        insert_by_name(r.drop_last(), x).push(r.last())
    }
}

/// `s` stably sorted by lowercase name.
pub open spec fn sort_by_name(s: Seq<ProfileV>) -> Seq<ProfileV>
    decreases s.len(),
{
    if s.len() == 0 {
        seq![]
    } else {
        insert_by_name(sort_by_name(s.drop_last()), s.last())
    }
}

/// Saving `p`: it replaces the first profile of the same name, or is added,
/// and the list is kept sorted by lowercase name.
pub open spec fn spec_upsert(s: Seq<ProfileV>, p: ProfileV) -> Seq<ProfileV> {
    sort_by_name(
        if find_named(s, p.name) is Some {
            replace_first(s, p)
        } else {
            s.push(p)
        },
    )
}

/// Index of the first profile named `name` at or after `i`, or `s.len()`.
pub open spec fn first_named_from(s: Seq<ProfileV>, name: Seq<char>, i: int) -> int
    decreases s.len() - i,
{
    if i < 0 || i >= s.len() {
        s.len() as int
    } else if s[i].name == name {
        i
    } else {
        first_named_from(s, name, i + 1)
    }
}

proof fn lemma_first_named(s: Seq<ProfileV>, name: Seq<char>)
    ensures
        ({
            let i = first_named_from(s, name, 0);
            &&& 0 <= i <= s.len()
            &&& (i < s.len() <==> find_named(s, name) is Some)
            &&& i < s.len() ==> find_named(s, name) == Some(s[i]) && s[i].name == name
        }),
    decreases s.len(),
{
    if s.len() > 0 {
        let d = s.drop_last();
        lemma_first_named(d, name);
        lemma_first_named_prefix(s, name, 0);
    }
}

/// The first match in `s` is the first match in `s` without its last
/// element, if there is one there.
proof fn lemma_first_named_prefix(s: Seq<ProfileV>, name: Seq<char>, i: int)
    requires
        s.len() > 0,
        0 <= i <= s.len(),
    ensures
        first_named_from(s.drop_last(), name, i) < s.len() - 1 ==> first_named_from(s, name, i)
            == first_named_from(s.drop_last(), name, i),
        first_named_from(s.drop_last(), name, i) >= s.len() - 1 ==> (first_named_from(s, name, i)
            == if i <= s.len() - 1 && s.last().name == name {
            s.len() - 1
        } else {
            s.len() as int
        }),
    decreases s.len() - i,
{
    let d = s.drop_last();
    if i < s.len() - 1 {
        assert(d[i] == s[i]);
        lemma_first_named_prefix(s, name, i + 1);
        if s[i].name == name {
            assert(first_named_from(d, name, i) == i);
            assert(first_named_from(s, name, i) == i);
        } else {
            assert(first_named_from(d, name, i) == first_named_from(d, name, i + 1));
            assert(first_named_from(s, name, i) == first_named_from(s, name, i + 1));
        }
    } else if i == s.len() - 1 {
        assert(first_named_from(d, name, i) == d.len());
        assert(first_named_from(s, name, i + 1) == s.len());
    } else {
        assert(first_named_from(d, name, i) == d.len());
        assert(first_named_from(s, name, i) == s.len());
    }
}

proof fn lemma_replace_first(s: Seq<ProfileV>, p: ProfileV)
    requires
        find_named(s, p.name) is Some,
    ensures
        replace_first(s, p) == s.update(first_named_from(s, p.name, 0), p),
        find_named(replace_first(s, p), p.name) == Some(p),
    decreases s.len(),
{
    let d = s.drop_last();
    lemma_first_named(s, p.name);
    lemma_first_named(d, p.name);
    lemma_first_named_prefix(s, p.name, 0);
    if find_named(d, p.name) is Some {
        lemma_replace_first(d, p);
        let i = first_named_from(d, p.name, 0);
        assert(replace_first(s, p) =~= s.update(i, p));
        assert(replace_first(s, p).drop_last() == replace_first(d, p));
    } else {
        assert(replace_first(s, p) =~= s.update(s.len() - 1, p));
        assert(replace_first(s, p).drop_last() == d);
    }
}

pub proof fn lemma_key_le_refl(a: Seq<char>)
    ensures
        key_le(a, a),
    decreases a.len(),
{
    if a.len() > 0 {
        lemma_key_le_refl(a.drop_first());
    }
}

/// Inserting by key does not change which profile a name finds first.
proof fn lemma_find_insert(r: Seq<ProfileV>, x: ProfileV, name: Seq<char>)
    ensures
        find_named(insert_by_name(r, x), name) == find_named(r.push(x), name),
    decreases r.len(),
{
    assert(r.push(x).drop_last() == r);
    assert(r.push(x).last() == x);
    if !(r.len() == 0 || key_le(name_key(r.last()), name_key(x))) {
        let d = r.drop_last();
        let l = r.last();
        lemma_find_insert(d, x, name);
        lemma_ins_at(d, x);
        let t = insert_by_name(d, x);
        assert(insert_by_name(r, x) == t.push(l));
        assert(t.push(l).drop_last() == t);
        assert(t.push(l).last() == l);
        assert(d.push(x).drop_last() == d);
        assert(d.push(x).last() == x);
        assert(find_named(r, name) == (match find_named(d, name) {
            Some(q) => Some(q),
            None => if l.name == name {
                Some(l)
            } else {
                None
            },
        }));
        assert(find_named(d.push(x), name) == (match find_named(d, name) {
            Some(q) => Some(q),
            None => if x.name == name {
                Some(x)
            } else {
                None
            },
        }));
        assert(find_named(t.push(l), name) == (match find_named(t, name) {
            Some(q) => Some(q),
            None => if l.name == name {
                Some(l)
            } else {
                None
            },
        }));
        if find_named(d, name) is None && x.name == name && l.name == name {
            lemma_key_le_refl(name_key(x));
        }
    }
}

/// Sorting by key does not change which profile a name finds first.
proof fn lemma_find_sort(s: Seq<ProfileV>, name: Seq<char>)
    ensures
        find_named(sort_by_name(s), name) == find_named(s, name),
    decreases s.len(),
{
    if s.len() > 0 {
        lemma_find_sort(s.drop_last(), name);
        lemma_find_insert(sort_by_name(s.drop_last()), s.last(), name);
        assert(sort_by_name(s.drop_last()).push(s.last()).drop_last() == sort_by_name(s.drop_last()));
    }
}

/// A saved profile is what its name finds afterwards: connecting by name
/// right after saving uses what was saved.
pub proof fn saved_profile_is_found_by_name(s: Seq<ProfileV>, p: ProfileV)
    ensures
        find_named(spec_upsert(s, p), p.name) == Some(p),
{
    let pre = if find_named(s, p.name) is Some {
        replace_first(s, p)
    } else {
        s.push(p)
    };
    lemma_find_sort(pre, p.name);
    if find_named(s, p.name) is Some {
        lemma_replace_first(s, p);
    } else {
        assert(s.push(p).drop_last() == s);
    }
}

fn names_equal(p: &Profile, name: &str) -> (b: bool)
    ensures
        b == (p@.name == name@),
{
    eq_str(&chars_of(p.name.as_str()), name)
}

impl ProfilesFile {
    /// The first profile named `name`.
    pub fn find_named(&self, name: &str) -> (r: Option<&Profile>)
        ensures
            match r {
                Some(p) => find_named(profiles_view(self.profiles@), name@) == Some(p@),
                None => find_named(profiles_view(self.profiles@), name@) is None,
            },
    {
        let ghost s = profiles_view(self.profiles@);
        let mut i: usize = 0;
        while i < self.profiles.len()
            invariant
                i <= self.profiles.len(),
                s == profiles_view(self.profiles@),
                first_named_from(s, name@, i as int) == first_named_from(s, name@, 0),
            decreases self.profiles.len() - i,
        {
            if names_equal(&self.profiles[i], name) {
                assert(s[i as int] == self.profiles@[i as int]@);
                assert(first_named_from(s, name@, i as int) == i);
                proof {
                    lemma_first_named(s, name@);
                }
                return Some(&self.profiles[i]);
            }
            i += 1;
        }
        proof {
            lemma_first_named(s, name@);
        }
        None
    }

    /// Deletes every profile named `name`.
    pub fn remove_named(&mut self, name: &str)
        ensures
            profiles_view(final(self).profiles@) == profiles_view(old(self).profiles@).filter(
                not_named(name@),
            ),
    {
        let ghost s = profiles_view(self.profiles@);
        let mut kept: Vec<Profile> = Vec::new();
        let mut rest: Vec<Profile> = Vec::new();
        std::mem::swap(&mut rest, &mut self.profiles);
        let ghost n: int = 0;
        while rest.len() > 0
            invariant
                0 <= n <= s.len(),
                rest@.len() == s.len() - n,
                profiles_view(rest@) == s.skip(n),
                profiles_view(kept@) == s.take(n).filter(not_named(name@)),
            decreases rest.len(),
        {
            let p = rest.remove(0);
            assert(s.take(n + 1).drop_last() == s.take(n));
            assert(s.skip(n)[0] == s[n]);
            assert(s.skip(n + 1) =~= s.skip(n).drop_first());
            let ghost pre = profiles_view(kept@);
            assert(s.take(n + 1).last() == s[n]);
            proof {
                reveal(Seq::filter);
            }
            if !names_equal(&p, name) {
                kept.push(p);
                assert(profiles_view(kept@) =~= pre.push(s[n]));
            }
            proof {
                n = n + 1;
            }
        }
        assert(s.take(n) == s);
        self.profiles = kept;
    }

    /// Saves `p`: it replaces the first profile of the same name, or is
    /// added, and the list is sorted by lowercase name (ties keep their
    /// order).
    pub fn upsert(&mut self, p: Profile)
        ensures
            profiles_view(final(self).profiles@) == spec_upsert(profiles_view(old(self).profiles@), p@),
    {
        let ghost s = profiles_view(self.profiles@);
        proof {
            lemma_first_named(s, p@.name);
        }
        let mut i: usize = 0;
        while i < self.profiles.len() && !names_equal(&self.profiles[i], p.name.as_str())
            invariant
                i <= self.profiles.len(),
                s == profiles_view(self.profiles@),
                first_named_from(s, p@.name, i as int) == first_named_from(s, p@.name, 0),
            decreases self.profiles.len() - i,
        {
            i += 1;
        }
        assert(i < self.profiles.len() ==> first_named_from(s, p@.name, i as int) == i);
        let ghost pv = p@;
        if i < self.profiles.len() {
            proof {
                lemma_replace_first(s, pv);
            }
            self.profiles.set(i, p);
            assert(profiles_view(self.profiles@) =~= replace_first(s, pv));
        } else {
            self.profiles.push(p);
            assert(profiles_view(self.profiles@) =~= s.push(pv));
        }
        self.sort_by_name();
    }

    /// Stable sort by lowercase name.
    fn sort_by_name(&mut self)
        ensures
            profiles_view(final(self).profiles@) == sort_by_name(profiles_view(old(self).profiles@)),
    {
        let ghost s = profiles_view(self.profiles@);
        let mut rest: Vec<Profile> = Vec::new();
        std::mem::swap(&mut rest, &mut self.profiles);
        let mut sorted: Vec<Profile> = Vec::new();
        let mut keys: Vec<Vec<char>> = Vec::new();
        let ghost n: int = 0;
        while rest.len() > 0
            invariant
                0 <= n <= s.len(),
                rest@.len() == s.len() - n,
                profiles_view(rest@) == s.skip(n),
                profiles_view(sorted@) == sort_by_name(s.take(n)),
                keys@.len() == sorted@.len(),
                forall|k: int| 0 <= k < keys@.len() ==> (#[trigger] keys@[k])@ == name_key(sorted@[k]@),
            decreases rest.len(),
        {
            let p = rest.remove(0);
            let ghost x = p@;
            assert(s.skip(n)[0] == s[n]);
            assert(s.skip(n + 1) =~= s.skip(n).drop_first());
            assert(s.take(n + 1).drop_last() == s.take(n));
            assert(s.take(n + 1).last() == s[n]);
            let key = lower_chars(&chars_of(p.name.as_str()));
            let ghost before = profiles_view(sorted@);
            assert(before.take(sorted.len() as int) == before);
            let mut j = sorted.len();
            while j > 0 && !key_le_exec(&keys[j - 1], &key)
                invariant
                    j <= sorted.len(),
                    keys@.len() == sorted@.len(),
                    before == profiles_view(sorted@),
                    key@ == name_key(x),
                    forall|k: int| 0 <= k < keys@.len() ==> (#[trigger] keys@[k])@ == name_key(sorted@[k]@),
                    ins_at(before.take(j as int), x) == ins_at(before, x),
                decreases j,
            {
                assert(before.take(j as int).drop_last() == before.take(j - 1));
                assert(before.take(j as int).last() == before[j - 1]);
                j -= 1;
            }
            proof {
                if j > 0 {
                    assert(before.take(j as int).last() == before[j - 1]);
                }
                assert(ins_at(before.take(j as int), x) == j);
                lemma_ins_at(before, x);
            }
            sorted.insert(j, p);
            keys.insert(j, key);
            assert(profiles_view(sorted@) =~= before.take(j as int).push(x) + before.skip(j as int));
            proof {
                n = n + 1;
            }
        }
        assert(s.take(n) == s);
        self.profiles = sorted;
    }
}

/// Where `insert_by_name` puts `x`.
pub open spec fn ins_at(r: Seq<ProfileV>, x: ProfileV) -> int
    decreases r.len(),
{
    if r.len() == 0 || key_le(name_key(r.last()), name_key(x)) {
        r.len() as int
    } else {
        ins_at(r.drop_last(), x)
    }
}

proof fn lemma_ins_at(r: Seq<ProfileV>, x: ProfileV)
    ensures
        0 <= ins_at(r, x) <= r.len(),
        insert_by_name(r, x) == r.take(ins_at(r, x)).push(x) + r.skip(ins_at(r, x)),
    decreases r.len(),
{
    if r.len() == 0 || key_le(name_key(r.last()), name_key(x)) {
        assert(r.take(r.len() as int) == r);
        assert(r.skip(r.len() as int) =~= Seq::<ProfileV>::empty());
    } else {
        let d = r.drop_last();
        lemma_ins_at(d, x);
        let q = ins_at(d, x);
        assert(d.take(q) == r.take(q));
        assert(r.skip(q) =~= d.skip(q).push(r.last()));
        assert(insert_by_name(r, x) =~= r.take(q).push(x) + r.skip(q));
    }
}


// ---------------------------------------------------------------------------
// Where the file lives
// ---------------------------------------------------------------------------

/// `dirs::config_dir`: where per-user configuration goes (`~/.config` on
/// Linux), as the bytes of its path (`OsString::into_encoded_bytes`), so
/// that a path that is not UTF-8 is kept as it is. It comes from the
/// environment, so nothing is promised of it.
#[verifier::external_body]
fn config_dir() -> (r: Option<Vec<u8>>) {
    match dirs::config_dir() {
        Some(p) => Some(p.into_os_string().into_encoded_bytes()),
        None => None,
    }
}

/// The profiles file under a configuration directory: the directory's
/// path followed by `/hexrust/profiles.toml` in UTF-8.
pub open spec fn spec_profiles_file(config: Seq<u8>) -> Seq<u8> {
    config + encode_utf8("/hexrust/profiles.toml"@)
}

/// The profiles file under the configuration directory whose path is
/// `config`.
pub fn profiles_file_in(config: &[u8]) -> (r: Vec<u8>)
    ensures
        r@ == spec_profiles_file(config@),
{
    let mut v: Vec<u8> = Vec::new();
    extend_bytes(&mut v, config);
    extend_bytes(&mut v, "/hexrust/profiles.toml".as_bytes());
    assert(v@ =~= spec_profiles_file(config@));
    v
}

/// Where the profiles are kept, or `None` when the configuration directory
/// cannot be found. Which directory that is, and whether it is found, the
/// environment decides; what is built on it is `profiles_file_in`.
pub fn default_path() -> (r: Option<Vec<u8>>)
    ensures
        r matches Some(p) ==> exists|config: Seq<u8>| p@ == #[trigger] spec_profiles_file(config),
{
    match config_dir() {
        Some(c) => Some(profiles_file_in(c.as_slice())),
        None => None,
    }
}
} // verus!
