//! Slash commands that only talk to the server.
//!
//! These produce wire lines and echo text and nothing else, so they are pure
//! functions, specified here by what each command sends. Commands that also
//! change the UI (opening buffers, switching tabs) are planned in `ui`.
use vstd::prelude::*;
use crate::text::{
    chars_of, extend, extend_str, join_sp, join_words, repeat_char, repeat_exec,
    skip_word, skip_word_exec, slice_of, uppercase, split_words, starts_with,
    starts_with_str, string_of, trim, trim_start, trim_start_vec, trim_vec, upper_chars, views,
    words, eq_str, is_ws, lemma_back_ws, lemma_skip_word, lemma_skip_ws, skip_ws,
};

verus! {

/// What the caller should do as a result of a command.
#[derive(Debug, Clone, PartialEq, Eq)]
pub enum Out {
    /// Send this line to the server verbatim.
    Raw(String),
    /// Echo this text into the current buffer (caller adds the timestamp).
    Info(String),
}

/// The mathematical value of an [`Out`].
pub enum OutV {
    Raw(Seq<char>),
    Info(Seq<char>),
}

impl View for Out {
    type V = OutV;

    open spec fn view(&self) -> OutV {
        match self {
            Out::Raw(s) => OutV::Raw(s@),
            Out::Info(s) => OutV::Info(s@),
        }
    }
}

pub open spec fn outs_view(v: Seq<Out>) -> Seq<OutV> {
    v.map_values(|o: Out| o@)
}

pub open spec fn opt_outs_view(r: Option<Vec<Out>>) -> Option<Seq<OutV>> {
    match r {
        Some(v) => Some(outs_view(v@)),
        None => None,
    }
}

/// Everything a command needs to know about where it was typed.
pub struct Ctx<'a> {
    /// Name of the active buffer: "Status", a channel, or a nick.
    pub current_buffer: &'a str,
    /// Channel to fall back to when the active buffer is not a channel.
    pub default_target: &'a str,
}

/// The channel prefixes of RFC 2811.
pub open spec fn spec_is_channel(s: Seq<char>) -> bool {
    s.len() > 0 && (s[0] == '#' || s[0] == '&' || s[0] == '+' || s[0] == '!')
}

pub fn is_channel_chars(v: &Vec<char>) -> (b: bool)
    ensures
        b == spec_is_channel(v@),
{
    v.len() > 0 && (v[0] == '#' || v[0] == '&' || v[0] == '+' || v[0] == '!')
}

/// True for the channel prefixes in RFC 2811.
pub fn is_channel(s: &str) -> (b: bool)
    ensures
        b == spec_is_channel(s@),
{
    let v = chars_of(s);
    is_channel_chars(&v)
}

/// The channel a command acts on when none is given: the active buffer if it
/// is a channel, else the connection's default if that is one.
pub open spec fn spec_implied(cur: Seq<char>, def: Seq<char>) -> Option<Seq<char>> {
    if spec_is_channel(cur) {
        Some(cur)
    } else if spec_is_channel(def) {
        Some(def)
    } else {
        None
    }
}

impl Ctx<'_> {
    pub open spec fn implied(&self) -> Option<Seq<char>> {
        spec_implied(self.current_buffer@, self.default_target@)
    }

    /// The channel a command should act on when none is given.
    fn implied_channel(&self) -> (r: Option<Vec<char>>)
        ensures
            match r {
                Some(c) => self.implied() == Some(c@),
                None => self.implied() is None,
            },
    {
        let cur = chars_of(self.current_buffer);
        if is_channel_chars(&cur) {
            return Some(cur);
        }
        let def = chars_of(self.default_target);
        if is_channel_chars(&def) {
            Some(def)
        } else {
            None
        }
    }
}

/// Splits off the first whitespace-delimited word: (word, rest with its
/// leading whitespace removed).
pub open spec fn spec_word(s: Seq<char>) -> (Seq<char>, Seq<char>) {
    let t = trim_start(s);
    let i = skip_word(t, 0);
    (t.take(i), trim_start(t.skip(i)))
}

fn word(s: &Vec<char>) -> (r: (Vec<char>, Vec<char>))
    ensures
        (r.0@, r.1@) == spec_word(s@),
{
    let t = trim_start_vec(s);
    let i = skip_word_exec(&t, 0);
    let w = slice_of(&t, 0, i);
    let rest = slice_of(&t, i, t.len());
    let rest = trim_start_vec(&rest);
    assert(t@.subrange(0, i as int) == t@.take(i as int));
    assert(t@.subrange(i as int, t@.len() as int) == t@.skip(i as int));
    (w, rest)
}

pub open spec fn usage_text(text: Seq<char>) -> Seq<OutV> {
    seq![OutV::Info("*** Usage: "@ + text)]
}

fn usage(text: &str) -> (r: Option<Vec<Out>>)
    ensures
        opt_outs_view(r) == Some(usage_text(text@)),
{
    let mut v = chars_of("*** Usage: ");
    extend_str(&mut v, text);
    let mut outs: Vec<Out> = Vec::new();
    outs.push(Out::Info(string_of(&v)));
    assert(outs_view(outs@) =~= usage_text(text@));
    Some(outs)
}

/// A single raw line.
pub open spec fn raw1(line: Seq<char>) -> Option<Seq<OutV>> {
    Some(seq![OutV::Raw(line)])
}

fn raw_out(v: &Vec<char>) -> (r: Option<Vec<Out>>)
    ensures
        opt_outs_view(r) == raw1(v@),
{
    let mut outs: Vec<Out> = Vec::new();
    outs.push(Out::Raw(string_of(v)));
    assert(outs_view(outs@) =~= seq![OutV::Raw(v@)]);
    Some(outs)
}

fn raw_info(raw: &Vec<char>, info: &Vec<char>) -> (r: Option<Vec<Out>>)
    ensures
        opt_outs_view(r) == Some(seq![OutV::Raw(raw@), OutV::Info(info@)]),
{
    let mut outs: Vec<Out> = Vec::new();
    outs.push(Out::Raw(string_of(raw)));
    outs.push(Out::Info(string_of(info)));
    assert(outs_view(outs@) =~= seq![OutV::Raw(raw@), OutV::Info(info@)]);
    Some(outs)
}

/// `<head><x>` or `<head><x> :<trail>` when `trail` is not empty.
pub open spec fn with_trailing(head: Seq<char>, trail: Seq<char>) -> Seq<char> {
    if trail.len() == 0 {
        head
    } else {
        head + " :"@ + trail
    }
}

fn with_trailing_exec(head: Vec<char>, trail: &Vec<char>) -> (r: Vec<char>)
    ensures
        r@ == with_trailing(head@, trail@),
{
    let mut r = head;
    if trail.len() > 0 {
        extend_str(&mut r, " :");
        extend(&mut r, trail);
    }
    r
}

/// `<prefix><s>`.
fn prefixed(prefix: &str, s: &Vec<char>) -> (r: Vec<char>)
    ensures
        r@ == prefix@ + s@,
{
    let mut r = chars_of(prefix);
    extend(&mut r, s);
    r
}

// ---------------------------------------------------------------------------
// The plan, command by command
// ---------------------------------------------------------------------------

/// `/part [#chan] [reason]` (and `/leave`).
pub open spec fn plan_part_spec(args: Seq<char>, ctx: Option<Seq<char>>) -> Option<Seq<OutV>> {
    let (first, rest) = spec_word(args);
    if spec_is_channel(first) {
        raw1(with_trailing("PART "@ + first, rest))
    } else {
        match ctx {
            Some(chan) => raw1(with_trailing("PART "@ + chan, args)),
            None => None,
        }
    }
}

/// `/quit [reason]`: a reason is always sent.
pub open spec fn plan_quit_spec(args: Seq<char>) -> Option<Seq<OutV>> {
    if args.len() == 0 {
        raw1("QUIT :hexrust"@)
    } else {
        raw1("QUIT :"@ + args)
    }
}

/// `/topic [#chan] [text]`: asks when there is no text, sets otherwise.
pub open spec fn plan_topic_spec(args: Seq<char>, ctx: Option<Seq<char>>) -> Option<Seq<OutV>> {
    let (first, rest) = spec_word(args);
    if spec_is_channel(first) {
        raw1(with_trailing("TOPIC "@ + first, rest))
    } else {
        match ctx {
            Some(chan) => raw1(with_trailing("TOPIC "@ + chan, args)),
            None => None,
        }
    }
}

/// `/whois <nick>` and `/whowas <nick>`.
pub open spec fn plan_lookup_spec(verb: Seq<char>, usage: Seq<char>, args: Seq<char>) -> Option<
    Seq<OutV>,
> {
    if args.len() == 0 {
        Some(usage_text(usage))
    } else {
        raw1(verb + args)
    }
}

/// `/kick [#chan] <nick> [reason]`.
pub open spec fn plan_kick_spec(args: Seq<char>, ctx: Option<Seq<char>>) -> Option<Seq<OutV>> {
    let (first, rest) = spec_word(args);
    if spec_is_channel(first) {
        let (victim, reason) = spec_word(rest);
        if victim.len() == 0 {
            Some(usage_text("/kick [#chan] <nick> [reason]"@))
        } else {
            raw1(with_trailing("KICK "@ + first + " "@ + victim, reason))
        }
    } else {
        match ctx {
            Some(chan) => if first.len() == 0 {
                Some(usage_text("/kick [#chan] <nick> [reason]"@))
            } else {
                raw1(with_trailing("KICK "@ + chan + " "@ + first, rest))
            },
            None => None,
        }
    }
}

/// `/mode [target] <modes>`: the channel is inferred only when the target
/// is missing (no arguments, or arguments opening with `+` or `-`).
pub open spec fn plan_mode_spec(args: Seq<char>, ctx: Option<Seq<char>>) -> Option<Seq<OutV>> {
    if args.len() == 0 {
        match ctx {
            Some(chan) => raw1("MODE "@ + chan),
            None => None,
        }
    } else {
        let (first, _rest) = spec_word(args);
        if starts_with(first, "+"@) || starts_with(first, "-"@) {
            match ctx {
                Some(chan) => raw1("MODE "@ + chan + " "@ + args),
                None => None,
            }
        } else {
            raw1("MODE "@ + args)
        }
    }
}

/// `/op` and friends: one flag letter per nick.
pub open spec fn plan_flag_spec(
    cmd: Seq<char>,
    sign: char,
    letter: char,
    args: Seq<char>,
    ctx: Option<Seq<char>>,
) -> Option<Seq<OutV>> {
    if args.len() == 0 {
        Some(usage_text("/"@ + cmd + " <nick>"@))
    } else {
        match ctx {
            Some(chan) => {
                let nicks = words(args);
                raw1(
                    "MODE "@ + chan + " "@ + seq![sign] + repeat_char(letter, nicks.len()) + " "@
                        + join_sp(nicks),
                )
            },
            None => None,
        }
    }
}

/// `/ban <mask>` and `/unban <mask>`.
pub open spec fn plan_ban_spec(
    cmd: Seq<char>,
    sign: Seq<char>,
    args: Seq<char>,
    ctx: Option<Seq<char>>,
) -> Option<Seq<OutV>> {
    if args.len() == 0 {
        Some(usage_text("/"@ + cmd + " <mask>"@))
    } else {
        match ctx {
            Some(chan) => raw1("MODE "@ + chan + " "@ + sign + " "@ + args),
            None => None,
        }
    }
}

/// `/notice <target> <text>`, echoed locally since the server does not.
pub open spec fn plan_notice_spec(args: Seq<char>) -> Option<Seq<OutV>> {
    let (target, text) = spec_word(args);
    if target.len() == 0 || text.len() == 0 {
        Some(usage_text("/notice <target> <text>"@))
    } else {
        Some(
            seq![
                OutV::Raw("NOTICE "@ + target + " :"@ + text),
                OutV::Info("-> -"@ + target + "- "@ + text),
            ],
        )
    }
}

pub open spec fn away_cleared() -> Seq<OutV> {
    seq![OutV::Raw("AWAY"@), OutV::Info("*** Away status cleared"@)]
}

/// `/away [reason]`.
pub open spec fn plan_away_spec(args: Seq<char>) -> Option<Seq<OutV>> {
    if args.len() == 0 {
        Some(away_cleared())
    } else {
        Some(seq![OutV::Raw("AWAY :"@ + args), OutV::Info("*** Now away: "@ + args)])
    }
}

/// `/list [params]`.
pub open spec fn plan_list_spec(args: Seq<char>) -> Option<Seq<OutV>> {
    if args.len() == 0 {
        raw1("LIST"@)
    } else {
        raw1("LIST "@ + args)
    }
}

/// `/names [#chan]`.
pub open spec fn plan_names_spec(args: Seq<char>, ctx: Option<Seq<char>>) -> Option<Seq<OutV>> {
    if spec_is_channel(args) {
        raw1("NAMES "@ + args)
    } else {
        match ctx {
            Some(chan) => raw1("NAMES "@ + chan),
            None => None,
        }
    }
}

/// `/invite <nick> [#chan]`.
pub open spec fn plan_invite_spec(args: Seq<char>, ctx: Option<Seq<char>>) -> Option<Seq<OutV>> {
    let (nick, rest) = spec_word(args);
    if nick.len() == 0 {
        Some(usage_text("/invite <nick> [#chan]"@))
    } else if spec_is_channel(rest) {
        raw1("INVITE "@ + nick + " "@ + rest)
    } else {
        match ctx {
            Some(chan) => raw1("INVITE "@ + nick + " "@ + chan),
            None => None,
        }
    }
}

/// A CTCP request line and its local echo.
pub open spec fn ctcp_outs(target: Seq<char>, payload: Seq<char>) -> Seq<OutV> {
    seq![
        OutV::Raw("PRIVMSG "@ + target + " :"@ + seq!['\u{1}'] + payload + seq!['\u{1}']),
        OutV::Info("-> ["@ + target + "] CTCP "@ + payload),
    ]
}

/// `/ctcp <target> <command> [args]`: the payload is uppercased.
pub open spec fn plan_ctcp_spec(args: Seq<char>) -> Option<Seq<OutV>> {
    let (target, rest) = spec_word(args);
    if target.len() == 0 || rest.len() == 0 {
        Some(usage_text("/ctcp <target> <command> [args]"@))
    } else {
        Some(ctcp_outs(target, uppercase(rest)))
    }
}

/// `/ping <nick>`.
pub open spec fn plan_ping_spec(args: Seq<char>) -> Option<Seq<OutV>> {
    if args.len() == 0 {
        Some(usage_text("/ping <nick>"@))
    } else {
        Some(ctcp_outs(args, "PING"@))
    }
}

/// `/version [nick]`: bare, it asks the server.
pub open spec fn plan_version_spec(args: Seq<char>) -> Option<Seq<OutV>> {
    if args.len() == 0 {
        raw1("VERSION"@)
    } else {
        Some(ctcp_outs(args, "VERSION"@))
    }
}

/// `/oper <user> <password>`: never echoed, since it holds a password.
pub open spec fn plan_oper_spec(args: Seq<char>) -> Option<Seq<OutV>> {
    let (user, pass) = spec_word(args);
    if user.len() == 0 || pass.len() == 0 {
        Some(usage_text("/oper <user> <password>"@))
    } else {
        raw1("OPER "@ + user + " "@ + pass)
    }
}

/// The text of `/help`.
pub open spec fn help_texts() -> Seq<Seq<char>> {
    seq![
        "*** Commands:"@,
        "***   /join #chan            /part [#chan] [reason]"@,
        "***   /msg <nick> <text>     /query <nick>"@,
        "***   /me <action>           /notice <target> <text>"@,
        "***   /nick <newnick>        /away [reason]   /back"@,
        "***   /topic [#chan] [text]  /names [#chan]"@,
        "***   /whois <nick>          /whowas <nick>"@,
        "***   /kick [#chan] <nick> [reason]"@,
        "***   /ban <mask>            /unban <mask>"@,
        "***   /op /deop /voice /devoice <nick>"@,
        "***   /mode [target] <modes>  /invite <nick> [#chan]"@,
        "***   /ctcp <target> <cmd>   /ping <nick>   /version [nick]"@,
        "***   /list [params]         /motd          /oper <user> <pass>"@,
        "***   /switch <buffer>       /server <id> <raw>"@,
        "***   /raw <line>            /quit [reason]"@,
    ]
}

pub open spec fn help_outs() -> Seq<OutV> {
    help_texts().map_values(|t: Seq<char>| OutV::Info(t))
}

/// Which mode flag a `/op`-style command stands for.
pub open spec fn flag_of(cmd: Seq<char>) -> Option<(char, char)> {
    if cmd == "op"@ {
        Some(('+', 'o'))
    } else if cmd == "deop"@ {
        Some(('-', 'o'))
    } else if cmd == "voice"@ {
        Some(('+', 'v'))
    } else if cmd == "devoice"@ {
        Some(('-', 'v'))
    } else if cmd == "halfop"@ {
        Some(('+', 'h'))
    } else if cmd == "dehalfop"@ {
        Some(('-', 'h'))
    } else {
        None
    }
}

/// What `/cmd args` sends and echoes, typed with `cur` active and `def` the
/// connection's default channel; `None` when the command is not owned here
/// or needs a channel that neither names.
pub open spec fn spec_plan(cmd: Seq<char>, args0: Seq<char>, cur: Seq<char>, def: Seq<char>) -> Option<
    Seq<OutV>,
> {
    let args = trim(args0);
    let ctx = spec_implied(cur, def);
    if cmd == "part"@ || cmd == "leave"@ {
        plan_part_spec(args, ctx)
    } else if cmd == "quit"@ {
        plan_quit_spec(args)
    } else if cmd == "topic"@ {
        plan_topic_spec(args, ctx)
    } else if cmd == "whois"@ {
        plan_lookup_spec("WHOIS "@, "/whois <nick>"@, args)
    } else if cmd == "whowas"@ {
        plan_lookup_spec("WHOWAS "@, "/whowas <nick>"@, args)
    } else if cmd == "kick"@ {
        plan_kick_spec(args, ctx)
    } else if cmd == "mode"@ {
        plan_mode_spec(args, ctx)
    } else {
        match flag_of(cmd) {
            Some(f) => plan_flag_spec(cmd, f.0, f.1, args, ctx),
            None => spec_plan_rest(cmd, args, ctx),
        }
    }
}

/// The commands of [`spec_plan`] after the mode family.
pub open spec fn spec_plan_rest(cmd: Seq<char>, args: Seq<char>, ctx: Option<Seq<char>>) -> Option<
    Seq<OutV>,
> {
    if cmd == "ban"@ {
        plan_ban_spec(cmd, "+b"@, args, ctx)
    } else if cmd == "unban"@ {
        plan_ban_spec(cmd, "-b"@, args, ctx)
    } else if cmd == "notice"@ {
        plan_notice_spec(args)
    } else if cmd == "away"@ {
        plan_away_spec(args)
    } else if cmd == "back"@ {
        Some(away_cleared())
    } else if cmd == "list"@ {
        plan_list_spec(args)
    } else if cmd == "names"@ {
        plan_names_spec(args, ctx)
    } else if cmd == "invite"@ {
        plan_invite_spec(args, ctx)
    } else if cmd == "ctcp"@ {
        plan_ctcp_spec(args)
    } else if cmd == "ping"@ {
        plan_ping_spec(args)
    } else if cmd == "version"@ {
        plan_version_spec(args)
    } else if cmd == "motd"@ {
        raw1("MOTD"@)
    } else if cmd == "oper"@ {
        plan_oper_spec(args)
    } else if cmd == "help"@ {
        Some(help_outs())
    } else {
        None
    }
}

fn plan_part(args: &Vec<char>, ctx: Option<Vec<char>>, verb: &str) -> (r: Option<Vec<Out>>)
    requires
        verb@ == "PART "@ || verb@ == "TOPIC "@,
    ensures
        verb@ == "PART "@ ==> opt_outs_view(r) == plan_part_spec(args@, opt_view(ctx)),
        verb@ == "TOPIC "@ ==> opt_outs_view(r) == plan_topic_spec(args@, opt_view(ctx)),
{
    let (first, rest) = word(args);
    if is_channel_chars(&first) {
        let line = with_trailing_exec(prefixed(verb, &first), &rest);
        raw_out(&line)
    } else {
        match ctx {
            Some(chan) => {
                let line = with_trailing_exec(prefixed(verb, &chan), args);
                raw_out(&line)
            },
            None => None,
        }
    }
}

pub open spec fn opt_view(c: Option<Vec<char>>) -> Option<Seq<char>> {
    match c {
        Some(v) => Some(v@),
        None => None,
    }
}

fn plan_kick(args: &Vec<char>, ctx: Option<Vec<char>>) -> (r: Option<Vec<Out>>)
    ensures
        opt_outs_view(r) == plan_kick_spec(args@, opt_view(ctx)),
{
    let (first, rest) = word(args);
    if is_channel_chars(&first) {
        let (victim, reason) = word(&rest);
        if victim.len() == 0 {
            return usage("/kick [#chan] <nick> [reason]");
        }
        let mut head = prefixed("KICK ", &first);
        head.push(' ');
        extend(&mut head, &victim);
        assert(head@ == "KICK "@ + first@ + " "@ + victim@) by {
            reveal_strlit(" ");
        }
        raw_out(&with_trailing_exec(head, &reason))
    } else {
        match ctx {
            Some(chan) => {
                if first.len() == 0 {
                    return usage("/kick [#chan] <nick> [reason]");
                }
                let mut head = prefixed("KICK ", &chan);
                head.push(' ');
                extend(&mut head, &first);
                assert(head@ == "KICK "@ + chan@ + " "@ + first@) by {
                    reveal_strlit(" ");
                }
                raw_out(&with_trailing_exec(head, &rest))
            },
            None => None,
        }
    }
}

fn plan_mode(args: &Vec<char>, ctx: Option<Vec<char>>) -> (r: Option<Vec<Out>>)
    ensures
        opt_outs_view(r) == plan_mode_spec(args@, opt_view(ctx)),
{
    if args.len() == 0 {
        return match ctx {
            Some(chan) => raw_out(&prefixed("MODE ", &chan)),
            None => None,
        };
    }
    let (first, _rest) = word(args);
    if starts_with_str(&first, "+") || starts_with_str(&first, "-") {
        match ctx {
            Some(chan) => {
                let mut line = prefixed("MODE ", &chan);
                line.push(' ');
                extend(&mut line, args);
                assert(line@ == "MODE "@ + chan@ + " "@ + args@) by {
                    reveal_strlit(" ");
                }
                raw_out(&line)
            },
            None => None,
        }
    } else {
        raw_out(&prefixed("MODE ", args))
    }
}

fn plan_flag(cmd: &Vec<char>, sign: char, letter: char, args: &Vec<char>, ctx: Option<Vec<char>>) -> (r:
    Option<Vec<Out>>)
    ensures
        opt_outs_view(r) == plan_flag_spec(cmd@, sign, letter, args@, opt_view(ctx)),
{
    if args.len() == 0 {
        let mut u = prefixed("/", cmd);
        extend_str(&mut u, " <nick>");
        let s = string_of(&u);
        return usage(s.as_str());
    }
    match ctx {
        Some(chan) => {
            let nicks = split_words(args);
            let mut line = prefixed("MODE ", &chan);
            line.push(' ');
            line.push(sign);
            let letters = repeat_exec(letter, nicks.len());
            extend(&mut line, &letters);
            line.push(' ');
            let joined = join_words(&nicks);
            extend(&mut line, &joined);
            assert(views(nicks@).len() == nicks@.len());
            assert(line@ == "MODE "@ + chan@ + " "@ + seq![sign] + repeat_char(
                letter,
                words(args@).len(),
            ) + " "@ + join_sp(words(args@))) by {
                reveal_strlit(" ");
            }
            raw_out(&line)
        },
        None => None,
    }
}

fn plan_ban(cmd: &Vec<char>, sign: &str, args: &Vec<char>, ctx: Option<Vec<char>>) -> (r: Option<
    Vec<Out>,
>)
    ensures
        opt_outs_view(r) == plan_ban_spec(cmd@, sign@, args@, opt_view(ctx)),
{
    if args.len() == 0 {
        let mut u = prefixed("/", cmd);
        extend_str(&mut u, " <mask>");
        let s = string_of(&u);
        return usage(s.as_str());
    }
    match ctx {
        Some(chan) => {
            let mut line = prefixed("MODE ", &chan);
            line.push(' ');
            extend_str(&mut line, sign);
            line.push(' ');
            extend(&mut line, args);
            assert(line@ == "MODE "@ + chan@ + " "@ + sign@ + " "@ + args@) by {
                reveal_strlit(" ");
            }
            raw_out(&line)
        },
        None => None,
    }
}

fn plan_notice(args: &Vec<char>) -> (r: Option<Vec<Out>>)
    ensures
        opt_outs_view(r) == plan_notice_spec(args@),
{
    let (target, text) = word(args);
    if target.len() == 0 || text.len() == 0 {
        return usage("/notice <target> <text>");
    }
    let mut raw = prefixed("NOTICE ", &target);
    extend_str(&mut raw, " :");
    extend(&mut raw, &text);
    let mut info = prefixed("-> -", &target);
    extend_str(&mut info, "- ");
    extend(&mut info, &text);
    raw_info(&raw, &info)
}

fn plan_away(args: &Vec<char>) -> (r: Option<Vec<Out>>)
    ensures
        opt_outs_view(r) == plan_away_spec(args@),
{
    if args.len() == 0 {
        away_cleared_exec()
    } else {
        raw_info(&prefixed("AWAY :", args), &prefixed("*** Now away: ", args))
    }
}

fn away_cleared_exec() -> (r: Option<Vec<Out>>)
    ensures
        opt_outs_view(r) == Some(away_cleared()),
{
    raw_info(&chars_of("AWAY"), &chars_of("*** Away status cleared"))
}

fn plan_names(args: &Vec<char>, ctx: Option<Vec<char>>) -> (r: Option<Vec<Out>>)
    ensures
        opt_outs_view(r) == plan_names_spec(args@, opt_view(ctx)),
{
    if is_channel_chars(args) {
        raw_out(&prefixed("NAMES ", args))
    } else {
        match ctx {
            Some(chan) => raw_out(&prefixed("NAMES ", &chan)),
            None => None,
        }
    }
}

fn plan_invite(args: &Vec<char>, ctx: Option<Vec<char>>) -> (r: Option<Vec<Out>>)
    ensures
        opt_outs_view(r) == plan_invite_spec(args@, opt_view(ctx)),
{
    let (nick, rest) = word(args);
    if nick.len() == 0 {
        return usage("/invite <nick> [#chan]");
    }
    let chan = if is_channel_chars(&rest) {
        rest
    } else {
        match ctx {
            Some(c) => c,
            None => {
                return None;
            },
        }
    };
    let mut line = prefixed("INVITE ", &nick);
    line.push(' ');
    extend(&mut line, &chan);
    assert(line@ == "INVITE "@ + nick@ + " "@ + chan@) by {
        reveal_strlit(" ");
    }
    raw_out(&line)
}

fn ctcp(target: &Vec<char>, payload: &Vec<char>) -> (r: Option<Vec<Out>>)
    ensures
        opt_outs_view(r) == Some(ctcp_outs(target@, payload@)),
{
    let mut raw = prefixed("PRIVMSG ", target);
    extend_str(&mut raw, " :");
    let ghost r0 = raw@;
    raw.push('\u{1}');
    let ghost r1 = raw@;
    extend(&mut raw, payload);
    let ghost r2 = raw@;
    raw.push('\u{1}');
    assert(r1 == r0 + seq!['\u{1}']);
    assert(raw@ == r2 + seq!['\u{1}']);
    let mut info = prefixed("-> [", target);
    extend_str(&mut info, "] CTCP ");
    extend(&mut info, payload);
    raw_info(&raw, &info)
}

fn plan_ctcp(args: &Vec<char>) -> (r: Option<Vec<Out>>)
    ensures
        opt_outs_view(r) == plan_ctcp_spec(args@),
{
    let (target, rest) = word(args);
    if target.len() == 0 || rest.len() == 0 {
        return usage("/ctcp <target> <command> [args]");
    }
    let payload = upper_chars(&rest);
    ctcp(&target, &payload)
}

fn plan_oper(args: &Vec<char>) -> (r: Option<Vec<Out>>)
    ensures
        opt_outs_view(r) == plan_oper_spec(args@),
{
    let (user, pass) = word(args);
    if user.len() == 0 || pass.len() == 0 {
        return usage("/oper <user> <password>");
    }
    let mut line = prefixed("OPER ", &user);
    line.push(' ');
    extend(&mut line, &pass);
    assert(line@ == "OPER "@ + user@ + " "@ + pass@) by {
        reveal_strlit(" ");
    }
    raw_out(&line)
}

fn help_lines() -> (r: Vec<Out>)
    ensures
        outs_view(r@) == help_outs(),
{
    let texts = [
        "*** Commands:",
        "***   /join #chan            /part [#chan] [reason]",
        "***   /msg <nick> <text>     /query <nick>",
        "***   /me <action>           /notice <target> <text>",
        "***   /nick <newnick>        /away [reason]   /back",
        "***   /topic [#chan] [text]  /names [#chan]",
        "***   /whois <nick>          /whowas <nick>",
        "***   /kick [#chan] <nick> [reason]",
        "***   /ban <mask>            /unban <mask>",
        "***   /op /deop /voice /devoice <nick>",
        "***   /mode [target] <modes>  /invite <nick> [#chan]",
        "***   /ctcp <target> <cmd>   /ping <nick>   /version [nick]",
        "***   /list [params]         /motd          /oper <user> <pass>",
        "***   /switch <buffer>       /server <id> <raw>",
        "***   /raw <line>            /quit [reason]",
    ];
    let mut r: Vec<Out> = Vec::new();
    let mut i: usize = 0;
    while i < 15
        invariant
            i <= 15,
            texts@.len() == 15,
            forall|k: int| 0 <= k < 15 ==> #[trigger] texts@[k]@ == help_texts()[k],
            outs_view(r@) == help_outs().take(i as int),
            r@.len() == i,
        decreases 15 - i,
    {
        let t = texts[i];
        let ghost pre = r@;
        let owned = t.to_owned();
        assert(owned@ == help_texts()[i as int]);
        r.push(Out::Info(owned));
        assert(r@ == pre.push(Out::Info(owned)));
        assert(help_texts().len() == 15);
        assert(help_outs().len() == 15);
        assert(pre.len() == i);
        assert(help_outs()[i as int] == OutV::Info(help_texts()[i as int]));
        assert(outs_view(r@).len() == i + 1);
        assert(outs_view(r@)[i as int] == r@[i as int]@);
        assert(outs_view(r@)[i as int] == help_outs()[i as int]);
        i += 1;
        assert(outs_view(r@) =~= help_outs().take(i as int));
    }
    assert(help_outs().take(15) =~= help_outs());
    r
}

/// Maps a slash command to wire lines.
///
/// `cmd` is the command with no leading slash, already lowercased. `args` is
/// the untouched remainder of the line. Returns `None` for commands this
/// module does not own, so the caller can handle them itself, and for the
/// channel commands when no channel can be resolved.
pub fn plan(cmd: &str, args: &str, ctx: &Ctx) -> (r: Option<Vec<Out>>)
    ensures
        opt_outs_view(r) == spec_plan(cmd@, args@, ctx.current_buffer@, ctx.default_target@),
{
    let a = chars_of(args);
    let args = trim_vec(&a);
    let c = chars_of(cmd);
    let ctxc = ctx.implied_channel();
    if eq_str(&c, "part") || eq_str(&c, "leave") {
        plan_part(&args, ctxc, "PART ")
    } else if eq_str(&c, "quit") {
        if args.len() == 0 {
            raw_out(&chars_of("QUIT :hexrust"))
        } else {
            raw_out(&prefixed("QUIT :", &args))
        }
    } else if eq_str(&c, "topic") {
        plan_part(&args, ctxc, "TOPIC ")
    } else if eq_str(&c, "whois") {
        if args.len() == 0 {
            usage("/whois <nick>")
        } else {
            raw_out(&prefixed("WHOIS ", &args))
        }
    } else if eq_str(&c, "whowas") {
        if args.len() == 0 {
            usage("/whowas <nick>")
        } else {
            raw_out(&prefixed("WHOWAS ", &args))
        }
    } else if eq_str(&c, "kick") {
        plan_kick(&args, ctxc)
    } else if eq_str(&c, "mode") {
        plan_mode(&args, ctxc)
    } else if eq_str(&c, "op") {
        plan_flag(&c, '+', 'o', &args, ctxc)
    } else if eq_str(&c, "deop") {
        plan_flag(&c, '-', 'o', &args, ctxc)
    } else if eq_str(&c, "voice") {
        plan_flag(&c, '+', 'v', &args, ctxc)
    } else if eq_str(&c, "devoice") {
        plan_flag(&c, '-', 'v', &args, ctxc)
    } else if eq_str(&c, "halfop") {
        plan_flag(&c, '+', 'h', &args, ctxc)
    } else if eq_str(&c, "dehalfop") {
        plan_flag(&c, '-', 'h', &args, ctxc)
    } else if eq_str(&c, "ban") {
        plan_ban(&c, "+b", &args, ctxc)
    } else if eq_str(&c, "unban") {
        plan_ban(&c, "-b", &args, ctxc)
    } else if eq_str(&c, "notice") {
        plan_notice(&args)
    } else if eq_str(&c, "away") {
        plan_away(&args)
    } else if eq_str(&c, "back") {
        away_cleared_exec()
    } else if eq_str(&c, "list") {
        if args.len() == 0 {
            raw_out(&chars_of("LIST"))
        } else {
            raw_out(&prefixed("LIST ", &args))
        }
    } else if eq_str(&c, "names") {
        plan_names(&args, ctxc)
    } else if eq_str(&c, "invite") {
        plan_invite(&args, ctxc)
    } else if eq_str(&c, "ctcp") {
        plan_ctcp(&args)
    } else if eq_str(&c, "ping") {
        if args.len() == 0 {
            usage("/ping <nick>")
        } else {
            ctcp(&args, &chars_of("PING"))
        }
    } else if eq_str(&c, "version") {
        if args.len() == 0 {
            raw_out(&chars_of("VERSION"))
        } else {
            ctcp(&args, &chars_of("VERSION"))
        }
    } else if eq_str(&c, "motd") {
        raw_out(&chars_of("MOTD"))
    } else if eq_str(&c, "oper") {
        plan_oper(&args)
    } else if eq_str(&c, "help") {
        Some(help_lines())
    } else {
        None
    }
}

/// The commands that this module owns and that can only work inside a channel.
pub open spec fn spec_needs_channel(cmd: Seq<char>) -> bool {
    ||| cmd == "mode"@
    ||| cmd == "part"@
    ||| cmd == "leave"@
    ||| cmd == "topic"@
    ||| cmd == "kick"@
    ||| cmd == "names"@
    ||| cmd == "invite"@
    ||| cmd == "op"@
    ||| cmd == "deop"@
    ||| cmd == "voice"@
    ||| cmd == "devoice"@
    ||| cmd == "halfop"@
    ||| cmd == "dehalfop"@
    ||| cmd == "ban"@
    ||| cmd == "unban"@
}

/// True for commands this module owns that can only work inside a channel.
///
/// `plan` returns `None` both for commands it does not own and for these when
/// no channel can be resolved. The caller needs to tell those apart: the first
/// is passed through to the server, the second is a user error worth
/// reporting instead of sending a malformed line.
pub fn needs_channel(cmd: &str) -> (b: bool)
    ensures
        b == spec_needs_channel(cmd@),
{
    let c = chars_of(cmd);
    eq_str(&c, "mode") || eq_str(&c, "part") || eq_str(&c, "leave") || eq_str(&c, "topic")
        || eq_str(&c, "kick") || eq_str(&c, "names") || eq_str(&c, "invite") || eq_str(&c, "op")
        || eq_str(&c, "deop") || eq_str(&c, "voice") || eq_str(&c, "devoice") || eq_str(
        &c,
        "halfop",
    ) || eq_str(&c, "dehalfop") || eq_str(&c, "ban") || eq_str(&c, "unban")
}

/// The commands known to tab completion, in byte order.
pub open spec fn command_names() -> Seq<Seq<char>> {
    seq![
        "away"@, "back"@, "ban"@, "ctcp"@, "dehalfop"@, "deop"@, "devoice"@, "halfop"@,
        "help"@, "invite"@, "join"@, "kick"@, "leave"@, "list"@, "me"@, "mode"@, "motd"@,
        "msg"@, "names"@, "nick"@, "notice"@, "op"@, "oper"@, "part"@, "ping"@, "query"@,
        "quit"@, "raw"@, "server"@, "switch"@, "topic"@, "unban"@, "version"@, "voice"@,
        "whois"@, "whowas"@,
    ]
}

/// The command names, as character vectors.
pub fn commands() -> (r: Vec<Vec<char>>)
    ensures
        crate::text::views(r@) == command_names(),
{
    let names = [
        "away", "back", "ban", "ctcp", "dehalfop", "deop", "devoice", "halfop", "help", "invite",
        "join", "kick", "leave", "list", "me", "mode", "motd", "msg", "names", "nick", "notice",
        "op", "oper", "part", "ping", "query", "quit", "raw", "server", "switch", "topic", "unban",
        "version", "voice", "whois", "whowas",
    ];
    let mut r: Vec<Vec<char>> = Vec::new();
    let mut i: usize = 0;
    while i < 36
        invariant
            i <= 36,
            names@.len() == 36,
            command_names().len() == 36,
            forall|k: int| 0 <= k < 36 ==> #[trigger] names@[k]@ == command_names()[k],
            r@.len() == i,
            crate::text::views(r@) == command_names().take(i as int),
        decreases 36 - i,
    {
        let ghost pre = r@;
        let v = chars_of(names[i]);
        r.push(v);
        assert(r@ == pre.push(v));
        i += 1;
        assert(crate::text::views(r@) =~= command_names().take(i as int));
    }
    assert(command_names().take(36) =~= command_names());
    r
}

// ---------------------------------------------------------------------------
// Laws
// ---------------------------------------------------------------------------

/// `/ban <mask>` sets a ban on the mask in the channel the command acts on,
/// and `/unban <mask>` lifts that same ban: both send one `MODE` line for
/// that channel and mask, with `+b` and `-b` respectively.
pub proof fn ban_sets_and_unban_lifts(args: Seq<char>, cur: Seq<char>, def: Seq<char>)
    requires
        trim(args).len() > 0,
        spec_implied(cur, def) is Some,
    ensures
        spec_plan("ban"@, args, cur, def) == Some(
            seq![OutV::Raw("MODE "@ + spec_implied(cur, def)->Some_0 + " +b "@ + trim(args))],
        ),
        spec_plan("unban"@, args, cur, def) == Some(
            seq![OutV::Raw("MODE "@ + spec_implied(cur, def)->Some_0 + " -b "@ + trim(args))],
        ),
{
    reveal_strlit("ban");
    reveal_strlit("unban");
    reveal_strlit("part");
    reveal_strlit("leave");
    reveal_strlit("quit");
    reveal_strlit("topic");
    reveal_strlit("whois");
    reveal_strlit("whowas");
    reveal_strlit("kick");
    reveal_strlit("mode");
    reveal_strlit("op");
    reveal_strlit("deop");
    reveal_strlit("voice");
    reveal_strlit("devoice");
    reveal_strlit("halfop");
    reveal_strlit("dehalfop");
    reveal_strlit(" ");
    reveal_strlit("+b");
    reveal_strlit("-b");
    reveal_strlit(" +b ");
    reveal_strlit(" -b ");
    let chan = spec_implied(cur, def)->Some_0;
    let a = trim(args);
    let ctx = spec_implied(cur, def);
    assert("unban"@[0] != "leave"@[0] && "unban"@[0] != "topic"@[0] && "unban"@[0] != "whois"@[0]);
    assert("unban"@ != "part"@ && "unban"@ != "leave"@ && "unban"@ != "quit"@ && "unban"@ != "topic"@);
    assert("unban"@ != "whois"@ && "unban"@ != "whowas"@ && "unban"@ != "kick"@ && "unban"@ != "mode"@);
    assert("ban"@.len() == 3 && "part"@.len() == 4 && "leave"@.len() == 5 && "quit"@.len() == 4);
    assert("topic"@.len() == 5 && "whois"@.len() == 5 && "whowas"@.len() == 6 && "kick"@.len() == 4);
    assert("mode"@.len() == 4);
    assert("ban"@ != "part"@ && "ban"@ != "leave"@ && "ban"@ != "quit"@ && "ban"@ != "topic"@);
    assert("ban"@ != "whois"@ && "ban"@ != "whowas"@ && "ban"@ != "kick"@ && "ban"@ != "mode"@);
    assert(flag_of("ban"@) is None);
    assert(flag_of("unban"@) is None);
    assert(spec_plan("ban"@, args, cur, def) == spec_plan_rest("ban"@, a, ctx));
    assert(spec_plan("unban"@, args, cur, def) == spec_plan_rest("unban"@, a, ctx));
    assert(spec_plan_rest("unban"@, a, ctx) == plan_ban_spec("unban"@, "-b"@, a, ctx));
    assert("MODE "@ + chan + " "@ + "+b"@ + " "@ + a =~= "MODE "@ + chan + " +b "@ + a);
    assert("MODE "@ + chan + " "@ + "-b"@ + " "@ + a =~= "MODE "@ + chan + " -b "@ + a);
}

/// `/op`, `/voice` and `/halfop` give their flag (`o`, `v`, `h`), and
/// `/deop`, `/devoice` and `/dehalfop` take it away, in one `MODE` line for
/// the channel the command acts on that names the flag once per nick and
/// then the nicks: `/op alice bob` sends `MODE #c +oo alice bob`.
pub proof fn op_and_friends_give_and_take_their_flag(args: Seq<char>, cur: Seq<char>, def: Seq<char>)
    requires
        trim(args).len() > 0,
        spec_implied(cur, def) is Some,
    ensures
        ({
            let chan = spec_implied(cur, def)->Some_0;
            let nicks = words(trim(args));
            let n = nicks.len();
            let who = " "@ + join_sp(nicks);
            &&& spec_plan("op"@, args, cur, def) == Some(
                seq![OutV::Raw("MODE "@ + chan + " +"@ + repeat_char('o', n) + who)],
            )
            &&& spec_plan("deop"@, args, cur, def) == Some(
                seq![OutV::Raw("MODE "@ + chan + " -"@ + repeat_char('o', n) + who)],
            )
            &&& spec_plan("voice"@, args, cur, def) == Some(
                seq![OutV::Raw("MODE "@ + chan + " +"@ + repeat_char('v', n) + who)],
            )
            &&& spec_plan("devoice"@, args, cur, def) == Some(
                seq![OutV::Raw("MODE "@ + chan + " -"@ + repeat_char('v', n) + who)],
            )
            &&& spec_plan("halfop"@, args, cur, def) == Some(
                seq![OutV::Raw("MODE "@ + chan + " +"@ + repeat_char('h', n) + who)],
            )
            &&& spec_plan("dehalfop"@, args, cur, def) == Some(
                seq![OutV::Raw("MODE "@ + chan + " -"@ + repeat_char('h', n) + who)],
            )
        }),
{
    reveal_strlit("part");
    reveal_strlit("leave");
    reveal_strlit("quit");
    reveal_strlit("topic");
    reveal_strlit("whois");
    reveal_strlit("whowas");
    reveal_strlit("kick");
    reveal_strlit("mode");
    reveal_strlit("op");
    reveal_strlit("deop");
    reveal_strlit("voice");
    reveal_strlit("devoice");
    reveal_strlit("halfop");
    reveal_strlit("dehalfop");
    assert("part"@.len() == 4 && "part"@[0] == 'p' && "part"@[1] == 'a');
    assert("leave"@.len() == 5 && "leave"@[0] == 'l' && "leave"@[1] == 'e');
    assert("quit"@.len() == 4 && "quit"@[0] == 'q' && "quit"@[1] == 'u');
    assert("topic"@.len() == 5 && "topic"@[0] == 't' && "topic"@[1] == 'o');
    assert("whois"@.len() == 5 && "whois"@[0] == 'w' && "whois"@[1] == 'h');
    assert("whowas"@.len() == 6 && "whowas"@[0] == 'w' && "whowas"@[1] == 'h');
    assert("kick"@.len() == 4 && "kick"@[0] == 'k' && "kick"@[1] == 'i');
    assert("mode"@.len() == 4 && "mode"@[0] == 'm' && "mode"@[1] == 'o');
    assert("op"@.len() == 2 && "op"@[0] == 'o' && "op"@[1] == 'p');
    assert("deop"@.len() == 4 && "deop"@[0] == 'd' && "deop"@[1] == 'e');
    assert("voice"@.len() == 5 && "voice"@[0] == 'v' && "voice"@[1] == 'o');
    assert("devoice"@.len() == 7 && "devoice"@[0] == 'd' && "devoice"@[1] == 'e');
    assert("halfop"@.len() == 6 && "halfop"@[0] == 'h' && "halfop"@[1] == 'a');
    assert("dehalfop"@.len() == 8 && "dehalfop"@[0] == 'd' && "dehalfop"@[1] == 'e');
    reveal_strlit(" ");
    reveal_strlit(" +");
    reveal_strlit(" -");
    let chan = spec_implied(cur, def)->Some_0;
    let nicks = words(trim(args));
    let n = nicks.len();
    let j = join_sp(nicks);
    assert forall|c: char| #![auto] c == 'o' || c == 'v' || c == 'h' implies "MODE "@ + chan + " "@ + seq!['+']
        + repeat_char(c, n) + " "@ + j =~= "MODE "@ + chan + " +"@ + repeat_char(c, n) + (" "@ + j)
        && "MODE "@ + chan + " "@ + seq!['-'] + repeat_char(c, n) + " "@ + j =~= "MODE "@ + chan
        + " -"@ + repeat_char(c, n) + (" "@ + j) by {}
}

/// The command words `plan` tells apart, spelled out so that proofs can
/// tell them apart too.
proof fn lemma_command_words()
    ensures
        "part"@.len() == 4 && "part"@[0] == 'p' && "part"@[1] == 'a' && "part"@[2] == 'r',
        "leave"@.len() == 5 && "leave"@[0] == 'l' && "leave"@[1] == 'e' && "leave"@[2] == 'a',
        "quit"@.len() == 4 && "quit"@[0] == 'q' && "quit"@[1] == 'u' && "quit"@[2] == 'i',
        "topic"@.len() == 5 && "topic"@[0] == 't' && "topic"@[1] == 'o' && "topic"@[2] == 'p',
        "whois"@.len() == 5 && "whois"@[0] == 'w' && "whois"@[1] == 'h' && "whois"@[2] == 'o',
        "whowas"@.len() == 6 && "whowas"@[0] == 'w' && "whowas"@[1] == 'h' && "whowas"@[2] == 'o',
        "kick"@.len() == 4 && "kick"@[0] == 'k' && "kick"@[1] == 'i' && "kick"@[2] == 'c',
        "mode"@.len() == 4 && "mode"@[0] == 'm' && "mode"@[1] == 'o' && "mode"@[2] == 'd',
        "op"@.len() == 2 && "op"@[0] == 'o' && "op"@[1] == 'p',
        "deop"@.len() == 4 && "deop"@[0] == 'd' && "deop"@[1] == 'e' && "deop"@[2] == 'o',
        "voice"@.len() == 5 && "voice"@[0] == 'v' && "voice"@[1] == 'o' && "voice"@[2] == 'i',
        "devoice"@.len() == 7 && "devoice"@[0] == 'd' && "devoice"@[1] == 'e' && "devoice"@[2] == 'v',
        "halfop"@.len() == 6 && "halfop"@[0] == 'h' && "halfop"@[1] == 'a' && "halfop"@[2] == 'l',
        "dehalfop"@.len() == 8 && "dehalfop"@[0] == 'd' && "dehalfop"@[1] == 'e' && "dehalfop"@[2] == 'h',
        "ban"@.len() == 3 && "ban"@[0] == 'b' && "ban"@[1] == 'a' && "ban"@[2] == 'n',
        "unban"@.len() == 5 && "unban"@[0] == 'u' && "unban"@[1] == 'n' && "unban"@[2] == 'b',
        "notice"@.len() == 6 && "notice"@[0] == 'n' && "notice"@[1] == 'o' && "notice"@[2] == 't',
        "away"@.len() == 4 && "away"@[0] == 'a' && "away"@[1] == 'w' && "away"@[2] == 'a',
        "back"@.len() == 4 && "back"@[0] == 'b' && "back"@[1] == 'a' && "back"@[2] == 'c',
        "list"@.len() == 4 && "list"@[0] == 'l' && "list"@[1] == 'i' && "list"@[2] == 's',
        "names"@.len() == 5 && "names"@[0] == 'n' && "names"@[1] == 'a' && "names"@[2] == 'm',
        "invite"@.len() == 6 && "invite"@[0] == 'i' && "invite"@[1] == 'n' && "invite"@[2] == 'v',
        "ctcp"@.len() == 4 && "ctcp"@[0] == 'c' && "ctcp"@[1] == 't' && "ctcp"@[2] == 'c',
        "ping"@.len() == 4 && "ping"@[0] == 'p' && "ping"@[1] == 'i' && "ping"@[2] == 'n',
        "version"@.len() == 7 && "version"@[0] == 'v' && "version"@[1] == 'e' && "version"@[2] == 'r',
        "motd"@.len() == 4 && "motd"@[0] == 'm' && "motd"@[1] == 'o' && "motd"@[2] == 't',
        "oper"@.len() == 4 && "oper"@[0] == 'o' && "oper"@[1] == 'p' && "oper"@[2] == 'e',
        "help"@.len() == 4 && "help"@[0] == 'h' && "help"@[1] == 'e' && "help"@[2] == 'l',
{
    reveal_strlit("part");
    reveal_strlit("leave");
    reveal_strlit("quit");
    reveal_strlit("topic");
    reveal_strlit("whois");
    reveal_strlit("whowas");
    reveal_strlit("kick");
    reveal_strlit("mode");
    reveal_strlit("op");
    reveal_strlit("deop");
    reveal_strlit("voice");
    reveal_strlit("devoice");
    reveal_strlit("halfop");
    reveal_strlit("dehalfop");
    reveal_strlit("ban");
    reveal_strlit("unban");
    reveal_strlit("notice");
    reveal_strlit("away");
    reveal_strlit("back");
    reveal_strlit("list");
    reveal_strlit("names");
    reveal_strlit("invite");
    reveal_strlit("ctcp");
    reveal_strlit("ping");
    reveal_strlit("version");
    reveal_strlit("motd");
    reveal_strlit("oper");
    reveal_strlit("help");
}

/// `/quit` always sends a reason: the one given, or `hexrust`.
pub proof fn quit_always_sends_a_reason(args: Seq<char>, cur: Seq<char>, def: Seq<char>)
    ensures
        ({
            let reason = if trim(args).len() == 0 {
                "hexrust"@
            } else {
                trim(args)
            };
            &&& reason.len() > 0
            &&& spec_plan("quit"@, args, cur, def) == Some(seq![OutV::Raw("QUIT :"@ + reason)])
        }),
{
    lemma_command_words();
    reveal_strlit("hexrust");
    reveal_strlit("QUIT :");
    reveal_strlit("QUIT :hexrust");
    assert("QUIT :hexrust"@ =~= "QUIT :"@ + "hexrust"@);
}

/// `/oper` never echoes anything taken from what was typed, since that
/// holds a password: the only local text it can give is its usage line.
pub proof fn oper_is_never_echoed(args: Seq<char>, cur: Seq<char>, def: Seq<char>)
    ensures
        spec_plan("oper"@, args, cur, def) is Some,
        forall|k: int|
            0 <= k < spec_plan("oper"@, args, cur, def)->Some_0.len() ==> (#[trigger] spec_plan(
                "oper"@,
                args,
                cur,
                def,
            )->Some_0[k] is Info ==> spec_plan("oper"@, args, cur, def)->Some_0[k]
                == OutV::Info("*** Usage: /oper <user> <password>"@)),
{
    lemma_command_words();
    assert(flag_of("oper"@) is None);
    reveal_strlit("*** Usage: ");
    reveal_strlit("/oper <user> <password>");
    reveal_strlit("*** Usage: /oper <user> <password>");
    assert("*** Usage: "@ + "/oper <user> <password>"@ =~= "*** Usage: /oper <user> <password>"@);
}

/// A command that needs an argument sends nothing to the server when it
/// is given none: it answers with its usage, or declines.
pub proof fn missing_arguments_send_nothing(cmd: Seq<char>, args: Seq<char>, cur: Seq<char>, def: Seq<char>)
    requires
        cmd == "whois"@ || cmd == "whowas"@ || cmd == "kick"@ || cmd == "notice"@ || cmd == "invite"@
            || cmd == "ctcp"@ || cmd == "ping"@ || cmd == "oper"@ || cmd == "ban"@ || cmd == "unban"@
            || cmd == "op"@ || cmd == "deop"@ || cmd == "voice"@ || cmd == "devoice"@ || cmd == "halfop"@
            || cmd == "dehalfop"@,
        trim(args).len() == 0,
    ensures
        spec_plan(cmd, args, cur, def) matches Some(outs) ==> forall|k: int|
            0 <= k < outs.len() ==> !(#[trigger] outs[k] is Raw),
{
    lemma_command_words();
    let a = trim(args);
    assert(trim_start(a) =~= a);
    assert(skip_word(a, 0) == 0);
    assert(a.take(0) =~= a);
    assert(spec_word(a).0.len() == 0);
}

/// The first word of what was typed starts with its first character.
proof fn lemma_first_word_leads(args: Seq<char>)
    ensures
        trim(args).len() > 0 ==> spec_word(trim(args)).0.len() > 0 && spec_word(trim(args)).0[0] == trim(
            args,
        )[0],
{
    let ts = trim_start(args);
    lemma_skip_ws(args, 0);
    let a = trim(args);
    if a.len() > 0 {
        lemma_back_ws(ts, ts.len() as int);
        assert(a[0] == ts[0]);
        assert(ts[0] == args[skip_ws(args, 0)]);
        assert(!is_ws(a[0]));
        assert(skip_ws(a, 0) == 0);
        assert(trim_start(a) =~= a);
        lemma_skip_word(a, 1);
        assert(skip_word(a, 0) == skip_word(a, 1));
    }
}

/// A command that acts on a channel sends nothing to the server when none
/// can be had: it names none, and neither the current buffer nor the
/// connection's default is one.
pub proof fn channel_commands_decline_outside_a_channel(
    cmd: Seq<char>,
    args: Seq<char>,
    cur: Seq<char>,
    def: Seq<char>,
)
    requires
        cmd == "part"@ || cmd == "leave"@ || cmd == "topic"@ || cmd == "kick"@ || cmd == "names"@ || cmd
            == "ban"@ || cmd == "unban"@ || cmd == "op"@ || cmd == "deop"@ || cmd == "voice"@ || cmd
            == "devoice"@ || cmd == "halfop"@ || cmd == "dehalfop"@,
        spec_implied(cur, def) is None,
        !spec_is_channel(spec_word(trim(args)).0),
    ensures
        spec_plan(cmd, args, cur, def) matches Some(outs) ==> forall|k: int|
            0 <= k < outs.len() ==> !(#[trigger] outs[k] is Raw),
{
    lemma_command_words();
    lemma_first_word_leads(args);
}

} // verus!
