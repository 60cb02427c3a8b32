//! Rendering of numeric replies into readable lines.
//!
//! Numerics arrive as positional parameters with the human-readable part in a
//! trailing `:` argument. Printed as-is they read as protocol rather than
//! prose, and the WHOIS family is the worst of it: the fields are unlabelled,
//! some read backwards, and the idle reply is two bare integers.
use vstd::prelude::*;
use crate::clock::{human_time, is_time_text};
use crate::text::{
    all_digits, chars_of, dec, eq_chars, eq_str, extend, extend_str, find_char, find_char_from,
    is_ascii_digit, is_digit, join_sp, join_words, lemma_find_char_from, parse_i64, parse_u64,
    slice_of, spec_parse_i64, spec_parse_u64, string_of, u64_dec, views,
};

verus! {

/// Index of the first character at or after `i` that is not a space.
pub open spec fn skip_spaces(s: Seq<char>, i: int) -> int
    decreases s.len() - i,
{
    if 0 <= i < s.len() && s[i] == ' ' {
        skip_spaces(s, i + 1)
    } else {
        i
    }
}

pub proof fn lemma_skip_spaces(s: Seq<char>, i: int)
    requires
        0 <= i <= s.len(),
    ensures
        i <= skip_spaces(s, i) <= s.len(),
        skip_spaces(s, i) < s.len() ==> s[skip_spaces(s, i)] != ' ',
    decreases s.len() - i,
{
    if i < s.len() && s[i] == ' ' {
        lemma_skip_spaces(s, i + 1);
    }
}

/// The parameters of an IRC message in `s[i..]`: space-separated, except
/// that everything after a leading `:` is one parameter, spaces included.
pub open spec fn params_from(s: Seq<char>, i: int) -> Seq<Seq<char>>
    decreases s.len() - i,
{
    if i < 0 || i > s.len() {
        seq![]
    } else {
        let a = skip_spaces(s, i);
        if a >= s.len() {
            seq![]
        } else if s[a] == ':' {
            seq![s.subrange(a + 1, s.len() as int)]
        } else {
            let b = find_char_from(s, ' ', a);
            if b < s.len() {
                proof {
                    lemma_skip_spaces(s, i);
                    lemma_find_char_from(s, ' ', a);
                }
                seq![s.subrange(a, b)] + params_from(s, b)
            } else {
                seq![s.subrange(a, s.len() as int)]
            }
        }
    }
}

/// Splits the parameters of an IRC message, honouring the trailing argument.
pub fn split_params(s: &Vec<char>) -> (r: Vec<Vec<char>>)
    ensures
        views(r@) == params_from(s@, 0),
{
    let mut out: Vec<Vec<char>> = Vec::new();
    let mut i: usize = 0;
    loop
        invariant
            i <= s.len(),
            views(out@) + params_from(s@, i as int) == params_from(s@, 0),
        decreases s.len() - i,
    {
        let ghost pre = out@;
        let mut a = i;
        while a < s.len() && s[a] == ' '
            invariant
                i <= a <= s.len(),
                skip_spaces(s@, a as int) == skip_spaces(s@, i as int),
            decreases s.len() - a,
        {
            a += 1;
        }
        if a >= s.len() {
            assert(params_from(s@, i as int) =~= Seq::<Seq<char>>::empty());
            assert(views(out@) + Seq::<Seq<char>>::empty() == views(out@));
            return out;
        }
        if s[a] == ':' {
            let p = slice_of(s, a + 1, s.len());
            out.push(p);
            assert(views(out@) =~= views(pre) + params_from(s@, i as int));
            return out;
        }
        let b = find_char(s, ' ', a);
        proof {
            lemma_find_char_from(s@, ' ', a as int);
        }
        if b < s.len() {
            let p = slice_of(s, a, b);
            out.push(p);
            assert(views(out@) == views(pre).push(p@));
            assert(params_from(s@, i as int) == seq![p@] + params_from(s@, b as int));
            assert(views(out@) + params_from(s@, b as int) =~= views(pre) + params_from(
                s@,
                i as int,
            ));
            i = b;
        } else {
            let p = slice_of(s, a, s.len());
            out.push(p);
            assert(views(out@) =~= views(pre) + params_from(s@, i as int));
            return out;
        }
    }
}

/// A numeric reply's code and parameters: the line is `:server code params`
/// with a three-digit code, and a leading parameter naming us (or `*`) is
/// dropped, since it carries nothing for the reader.
pub open spec fn spec_parse(line: Seq<char>, my_nick: Seq<char>) -> Option<
    (Seq<char>, Seq<Seq<char>>),
> {
    if !(line.len() > 0 && line[0] == ':') {
        None
    } else {
        let rest = line.skip(1);
        let i = find_char_from(rest, ' ', 0);
        if i >= rest.len() {
            None
        } else {
            let rest2 = rest.skip(i + 1);
            let j = find_char_from(rest2, ' ', 0);
            if j >= rest2.len() {
                None
            } else {
                let code = rest2.take(j);
                if !(code.len() == 3 && all_digits(code)) {
                    None
                } else {
                    let p = params_from(rest2.skip(j + 1), 0);
                    if p.len() > 0 && (p[0] == my_nick || p[0] == "*"@) {
                        Some((code, p.drop_first()))
                    } else {
                        Some((code, p))
                    }
                }
            }
        }
    }
}

/// The line after `:server code `, if it is a numeric line.
fn numeric_head(line: &Vec<char>) -> (r: Option<(Vec<char>, Vec<char>)>)
    ensures
        match r {
            Some((code, rest)) => {
                &&& line@.len() > 0 && line@[0] == ':'
                &&& find_char_from(line@.skip(1), ' ', 0) < line@.skip(1).len()
                &&& ({
                    let rest2 = line@.skip(1).skip(find_char_from(line@.skip(1), ' ', 0) + 1);
                    let j = find_char_from(rest2, ' ', 0);
                    &&& j < rest2.len()
                    &&& code@ == rest2.take(j)
                    &&& rest@ == rest2.skip(j + 1)
                    &&& code@.len() == 3 && all_digits(code@)
                })
            },
            None => !({
                &&& line@.len() > 0 && line@[0] == ':'
                &&& find_char_from(line@.skip(1), ' ', 0) < line@.skip(1).len()
                &&& ({
                    let rest2 = line@.skip(1).skip(find_char_from(line@.skip(1), ' ', 0) + 1);
                    let j = find_char_from(rest2, ' ', 0);
                    &&& j < rest2.len()
                    &&& rest2.take(j).len() == 3 && all_digits(rest2.take(j))
                })
            }),
        },
{
    if !(line.len() > 0 && line[0] == ':') {
        return None;
    }
    let rest = slice_of(line, 1, line.len());
    assert(rest@ == line@.skip(1));
    let i = find_char(&rest, ' ', 0);
    if i >= rest.len() {
        return None;
    }
    let rest2 = slice_of(&rest, i + 1, rest.len());
    assert(rest2@ == rest@.skip(i + 1));
    let j = find_char(&rest2, ' ', 0);
    if j >= rest2.len() {
        return None;
    }
    let code = slice_of(&rest2, 0, j);
    assert(code@ == rest2@.take(j as int));
    let tail = slice_of(&rest2, j + 1, rest2.len());
    assert(tail@ == rest2@.skip(j + 1));
    if code.len() != 3 || !is_ascii_digit(code[0]) || !is_ascii_digit(code[1]) || !is_ascii_digit(
        code[2],
    ) {
        proof {
            if code@.len() == 3 && all_digits(code@) {
                assert(is_digit(code@[0]) && is_digit(code@[1]) && is_digit(code@[2]));
            }
        }
        return None;
    }
    assert(all_digits(code@)) by {
        assert forall|k: int| 0 <= k < code@.len() implies is_digit(#[trigger] code@[k]) by {
            assert(k == 0 || k == 1 || k == 2);
        }
    }
    Some((code, tail))
}

/// Splits a numeric line into its code and parameters.
fn parse(line: &Vec<char>, my_nick: &Vec<char>) -> (r: Option<(Vec<char>, Vec<Vec<char>>)>)
    ensures
        match r {
            Some((code, p)) => spec_parse(line@, my_nick@) == Some((code@, views(p@))),
            None => spec_parse(line@, my_nick@) is None,
        },
{
    let (code, rest) = match numeric_head(line) {
        Some(x) => x,
        None => {
            return None;
        },
    };
    let mut p = split_params(&rest);
    if p.len() > 0 && (eq_chars(&p[0], my_nick) || eq_str(&p[0], "*")) {
        let ghost pre = views(p@);
        p.remove(0);
        assert(views(p@) =~= pre.drop_first());
    }
    Some((code, p))
}

/// A duration in seconds as a compact span: days, hours and minutes, and
/// seconds when under a day; `0s` for zero.
pub open spec fn spec_duration(secs: nat) -> Seq<char> {
    if secs == 0 {
        "0s"@
    } else {
        let d = secs / 86400;
        let h = (secs % 86400) / 3600;
        let m = (secs % 3600) / 60;
        let s = secs % 60;
        join_sp(
            (if d > 0 { seq![dec(d) + seq!['d']] } else { seq![] }) + (if h > 0 {
                seq![dec(h) + seq!['h']]
            } else {
                seq![]
            }) + (if m > 0 { seq![dec(m) + seq!['m']] } else { seq![] }) + (if s > 0 && d == 0 {
                seq![dec(s) + seq!['s']]
            } else {
                seq![]
            }),
        )
    }
}

fn unit(n: u64, c: char) -> (r: Vec<char>)
    ensures
        r@ == dec(n as nat) + seq![c],
{
    let mut r = u64_dec(n);
    r.push(c);
    r
}

/// Formats a duration in seconds as a compact human span.
fn human_duration(secs: u64) -> (r: Vec<char>)
    ensures
        r@ == spec_duration(secs as nat),
{
    if secs == 0 {
        return chars_of("0s");
    }
    let d = secs / 86_400;
    let h = (secs % 86_400) / 3_600;
    let m = (secs % 3_600) / 60;
    let s = secs % 60;
    let mut parts: Vec<Vec<char>> = Vec::new();
    let ghost mut want: Seq<Seq<char>> = seq![];
    if d > 0 {
        parts.push(unit(d, 'd'));
        proof {
            want = want + seq![dec(d as nat) + seq!['d']];
        }
    }
    if h > 0 {
        parts.push(unit(h, 'h'));
        proof {
            want = want + seq![dec(h as nat) + seq!['h']];
        }
    }
    if m > 0 {
        parts.push(unit(m, 'm'));
        proof {
            want = want + seq![dec(m as nat) + seq!['m']];
        }
    }
    if s > 0 && d == 0 {
        parts.push(unit(s, 's'));
        proof {
            want = want + seq![dec(s as nat) + seq!['s']];
        }
    }
    assert(views(parts@) =~= want);
    join_words(&parts)
}

/// The `i`th parameter, or nothing.
pub open spec fn arg(p: Seq<Seq<char>>, i: int) -> Seq<char> {
    if 0 <= i < p.len() {
        p[i]
    } else {
        seq![]
    }
}

/// Codes whose reply reads correctly as `<nick> <text>`.
pub open spec fn is_flag_code(code: Seq<char>) -> bool {
    ||| code == "276"@
    ||| code == "307"@
    ||| code == "313"@
    ||| code == "320"@
    ||| code == "335"@
    ||| code == "378"@
    ||| code == "379"@
    ||| code == "671"@
}

/// The sentence for a numeric with code `code` and parameters `p`, where
/// `signon` is how the sign-on time of an idle reply is shown.
pub open spec fn render_body(code: Seq<char>, p: Seq<Seq<char>>, signon: Seq<char>) -> Option<
    Seq<char>,
> {
    let nick = arg(p, 0);
    if code == "311"@ || code == "314"@ {
        let real_name = if p.len() > 0 { p.last() } else { seq![] };
        Some(nick + " is "@ + arg(p, 1) + "@"@ + arg(p, 2) + " ("@ + real_name + ")"@)
    } else if code == "312"@ {
        Some(nick + " using "@ + arg(p, 1) + " ("@ + arg(p, 2) + ")"@)
    } else if code == "319"@ {
        Some(nick + " on "@ + arg(p, 1))
    } else if code == "317"@ {
        match (spec_parse_u64(arg(p, 1)), spec_parse_i64(arg(p, 2))) {
            (Some(i), Some(_s)) => Some(
                nick + " idle "@ + spec_duration(i as nat) + ", signed on "@ + signon,
            ),
            (Some(i), None) => Some(nick + " idle "@ + spec_duration(i as nat)),
            _ => None,
        }
    } else if code == "330"@ || code == "338"@ {
        Some(nick + " "@ + arg(p, 2) + " "@ + arg(p, 1))
    } else if code == "301"@ {
        Some(nick + " is away: "@ + arg(p, 1))
    } else if code == "318"@ {
        Some("End of WHOIS for "@ + nick)
    } else if code == "369"@ {
        Some("End of WHOWAS for "@ + nick)
    } else if is_flag_code(code) {
        Some(nick + " "@ + arg(p, 1))
    } else {
        None
    }
}

/// The readable rendering of a numeric line addressed to `my_nick`, with
/// `signon` standing for the sign-on time of an idle reply.
pub open spec fn spec_render(line: Seq<char>, my_nick: Seq<char>, signon: Seq<char>) -> Option<
    Seq<char>,
> {
    match spec_parse(line, my_nick) {
        None => None,
        Some((code, p)) => if arg(p, 0).len() == 0 {
            None
        } else {
            match render_body(code, p, signon) {
                Some(b) => Some("*** "@ + b),
                None => None,
            }
        },
    }
}

/// The sign-on timestamp of an idle reply, when the reply has a valid idle
/// count and one.
pub open spec fn signon_of(line: Seq<char>, my_nick: Seq<char>) -> Option<i64> {
    match spec_parse(line, my_nick) {
        Some((code, p)) => if code == "317"@ && spec_parse_u64(arg(p, 1)) is Some {
            spec_parse_i64(arg(p, 2))
        } else {
            None
        },
        None => None,
    }
}

pub open spec fn opt_string_view(r: Option<String>) -> Option<Seq<char>> {
    match r {
        Some(s) => Some(s@),
        None => None,
    }
}

fn arg_exec(p: &Vec<Vec<char>>, i: usize) -> (r: Vec<char>)
    ensures
        r@ == arg(views(p@), i as int),
{
    if i < p.len() {
        slice_of(&p[i], 0, p[i].len())
    } else {
        Vec::new()
    }
}

fn render_parsed(code: &Vec<char>, p: &Vec<Vec<char>>, signon: &Vec<char>) -> (r: Option<Vec<char>>)
    ensures
        match r {
            Some(b) => render_body(code@, views(p@), signon@) == Some(b@),
            None => render_body(code@, views(p@), signon@) is None,
        },
{
    let nick = arg_exec(p, 0);
    if eq_str(code, "311") || eq_str(code, "314") {
        let real_name = if p.len() > 0 { slice_of(&p[p.len() - 1], 0, p[p.len() - 1].len()) } else { Vec::new() };
        let mut b = nick;
        extend_str(&mut b, " is ");
        extend(&mut b, &arg_exec(p, 1));
        extend_str(&mut b, "@");
        extend(&mut b, &arg_exec(p, 2));
        extend_str(&mut b, " (");
        extend(&mut b, &real_name);
        extend_str(&mut b, ")");
        Some(b)
    } else if eq_str(code, "312") {
        let mut b = nick;
        extend_str(&mut b, " using ");
        extend(&mut b, &arg_exec(p, 1));
        extend_str(&mut b, " (");
        extend(&mut b, &arg_exec(p, 2));
        extend_str(&mut b, ")");
        Some(b)
    } else if eq_str(code, "319") {
        let mut b = nick;
        extend_str(&mut b, " on ");
        extend(&mut b, &arg_exec(p, 1));
        Some(b)
    } else if eq_str(code, "317") {
        let a1 = arg_exec(p, 1);
        let a2 = arg_exec(p, 2);
        match parse_u64(&a1) {
            Some(i) => {
                let mut b = nick;
                extend_str(&mut b, " idle ");
                extend(&mut b, &human_duration(i));
                match parse_i64(&a2) {
                    Some(_s) => {
                        extend_str(&mut b, ", signed on ");
                        extend(&mut b, signon);
                    },
                    None => {},
                }
                Some(b)
            },
            None => None,
        }
    } else if eq_str(code, "330") || eq_str(code, "338") {
        let mut b = nick;
        extend_str(&mut b, " ");
        extend(&mut b, &arg_exec(p, 2));
        extend_str(&mut b, " ");
        extend(&mut b, &arg_exec(p, 1));
        Some(b)
    } else if eq_str(code, "301") {
        let mut b = nick;
        extend_str(&mut b, " is away: ");
        extend(&mut b, &arg_exec(p, 1));
        Some(b)
    } else if eq_str(code, "318") {
        let mut b = chars_of("End of WHOIS for ");
        extend(&mut b, &nick);
        Some(b)
    } else if eq_str(code, "369") {
        let mut b = chars_of("End of WHOWAS for ");
        extend(&mut b, &nick);
        Some(b)
    } else if eq_str(code, "276") || eq_str(code, "307") || eq_str(code, "313") || eq_str(
        code,
        "320",
    ) || eq_str(code, "335") || eq_str(code, "378") || eq_str(code, "379") || eq_str(code, "671") {
        let mut b = nick;
        extend_str(&mut b, " ");
        extend(&mut b, &arg_exec(p, 1));
        Some(b)
    } else {
        None
    }
}

/// The rendering of a numeric line, given how its sign-on time (if it is an
/// idle reply carrying one) is to be shown.
pub fn render_at(line: &str, my_nick: &str, signon: &str) -> (r: Option<String>)
    ensures
        opt_string_view(r) == spec_render(line@, my_nick@, signon@),
{
    let l = chars_of(line);
    let n = chars_of(my_nick);
    let (code, p) = match parse(&l, &n) {
        Some(x) => x,
        None => {
            return None;
        },
    };
    if p.len() == 0 || p[0].len() == 0 {
        return None;
    }
    let s = chars_of(signon);
    match render_parsed(&code, &p, &s) {
        Some(b) => {
            let mut out = chars_of("*** ");
            extend(&mut out, &b);
            Some(string_of(&out))
        },
        None => None,
    }
}

/// The sign-on timestamp of an idle reply, if the line is one and carries it.
pub fn signon_time(line: &str, my_nick: &str) -> (r: Option<i64>)
    ensures
        r == signon_of(line@, my_nick@),
{
    let l = chars_of(line);
    let n = chars_of(my_nick);
    match parse(&l, &n) {
        Some((code, p)) => {
            if eq_str(&code, "317") {
                match parse_u64(&arg_exec(&p, 1)) {
                    Some(_) => parse_i64(&arg_exec(&p, 2)),
                    None => None,
                }
            } else {
                None
            }
        },
        None => None,
    }
}

/// A readable rendering of a numeric, or None if this module has no opinion
/// about that code and the caller should fall back to `strip_preamble`.
///
/// The sign-on time of an idle reply is shown as a local date and time,
/// which depends on the machine's time zone.
pub fn render(line: &str, my_nick: &str) -> (r: Option<String>)
    ensures
        signon_of(line@, my_nick@) is None ==> opt_string_view(r) == spec_render(
            line@,
            my_nick@,
            seq![],
        ),
        signon_of(line@, my_nick@) matches Some(s) ==> exists|t: Seq<char>|
            is_time_text(s, t) && opt_string_view(r) == #[trigger] spec_render(
                line@,
                my_nick@,
                t,
            ),
{
    let signon = signon_time(line, my_nick);
    match signon {
        Some(s) => {
            let t = human_time(s);
            let ts = string_of(&t);
            render_at(line, my_nick, ts.as_str())
        },
        None => render_at(line, my_nick, ""),
    }
}

/// The remainder of a numeric line after `:server code` and a leading
/// target naming us (or `*`), with a `:` opening it removed.
pub open spec fn spec_strip_preamble(line: Seq<char>, my_nick: Seq<char>) -> Option<Seq<char>> {
    if !(line.len() > 0 && line[0] == ':') {
        None
    } else {
        let rest = line.skip(1);
        let i = find_char_from(rest, ' ', 0);
        if i >= rest.len() {
            None
        } else {
            let rest2 = rest.skip(i + 1);
            let j = find_char_from(rest2, ' ', 0);
            if j >= rest2.len() {
                None
            } else {
                let code = rest2.take(j);
                if !(code.len() == 3 && all_digits(code)) {
                    None
                } else {
                    let r = rest2.skip(j + 1);
                    let k = find_char_from(r, ' ', 0);
                    let r2 = if k < r.len() && (r.take(k) == my_nick || r.take(k) == "*"@) {
                        r.skip(k + 1)
                    } else {
                        r
                    };
                    if r2.len() > 0 && r2[0] == ':' {
                        Some(r2.skip(1))
                    } else {
                        Some(r2)
                    }
                }
            }
        }
    }
}

/// Strips the `:server 251 mynick` preamble, leaving the readable remainder.
///
/// The generic fallback for numerics `render` has no special handling for.
pub fn strip_preamble(line: &str, my_nick: &str) -> (r: Option<String>)
    ensures
        opt_string_view(r) == spec_strip_preamble(line@, my_nick@),
{
    let l = chars_of(line);
    let n = chars_of(my_nick);
    let (_code, rest) = match numeric_head(&l) {
        Some(x) => x,
        None => {
            return None;
        },
    };
    let k = find_char(&rest, ' ', 0);
    let mut r2 = rest;
    if k < r2.len() {
        let target = slice_of(&r2, 0, k);
        assert(target@ == r2@.take(k as int));
        if eq_chars(&target, &n) || eq_str(&target, "*") {
            let t = slice_of(&r2, k + 1, r2.len());
            assert(t@ == r2@.skip(k + 1));
            r2 = t;
        }
    }
    if r2.len() > 0 && r2[0] == ':' {
        let t = slice_of(&r2, 1, r2.len());
        assert(t@ == r2@.skip(1));
        Some(string_of(&t))
    } else {
        Some(string_of(&r2))
    }
}

/// The account (330) and actual-host (338) replies read forwards: the
/// trailing text comes before the value it describes, so
/// `:srv 338 me alice 203.0.113.5 :actually using host` reads
/// `*** alice actually using host 203.0.113.5`, and
/// `:srv 330 me alice acct :is logged in as` reads
/// `*** alice is logged in as acct`.
pub proof fn account_and_host_replies_read_forwards(line: Seq<char>, my_nick: Seq<char>, signon: Seq<char>)
    requires
        spec_parse(line, my_nick) is Some,
        spec_parse(line, my_nick)->Some_0.0 == "330"@ || spec_parse(line, my_nick)->Some_0.0 == "338"@,
        spec_parse(line, my_nick)->Some_0.1.len() >= 3,
        spec_parse(line, my_nick)->Some_0.1[0].len() > 0,
    ensures
        ({
            let p = spec_parse(line, my_nick)->Some_0.1;
            spec_render(line, my_nick, signon) == Some("*** "@ + p[0] + " "@ + p[2] + " "@ + p[1])
        }),
{
    reveal_strlit("330");
    reveal_strlit("338");
    reveal_strlit("311");
    reveal_strlit("314");
    reveal_strlit("312");
    reveal_strlit("319");
    reveal_strlit("317");
    let code = spec_parse(line, my_nick)->Some_0.0;
    assert(code[2] == '0' || code[2] == '8');
    assert(code != "311"@ && code != "314"@ && code != "312"@ && code != "319"@ && code != "317"@) by {
        assert("311"@[2] == '1' && "314"@[2] == '4' && "312"@[2] == '2' && "319"@[2] == '9');
        assert("317"@[2] == '7');
    }
}

/// Tells the numeric codes of the WHOIS family apart.
proof fn lemma_codes_differ()
    ensures
        "314"@ != "311"@ && "312"@ != "311"@ && "312"@ != "314"@ && "319"@ != "311"@,
        "319"@ != "314"@ && "319"@ != "312"@ && "317"@ != "311"@ && "317"@ != "314"@,
        "317"@ != "312"@ && "317"@ != "319"@ && "330"@ != "311"@ && "330"@ != "314"@,
        "330"@ != "312"@ && "330"@ != "319"@ && "330"@ != "317"@ && "338"@ != "311"@,
        "338"@ != "314"@ && "338"@ != "312"@ && "338"@ != "319"@ && "338"@ != "317"@,
        "301"@ != "311"@ && "301"@ != "314"@ && "301"@ != "312"@ && "301"@ != "319"@,
        "301"@ != "317"@ && "301"@ != "330"@ && "301"@ != "338"@ && "318"@ != "311"@,
        "318"@ != "314"@ && "318"@ != "312"@ && "318"@ != "319"@ && "318"@ != "317"@,
        "318"@ != "330"@ && "318"@ != "338"@ && "318"@ != "301"@ && "369"@ != "311"@,
        "369"@ != "314"@ && "369"@ != "312"@ && "369"@ != "319"@ && "369"@ != "317"@,
        "369"@ != "330"@ && "369"@ != "338"@ && "369"@ != "301"@ && "369"@ != "318"@,
        "276"@ != "311"@ && "276"@ != "314"@ && "276"@ != "312"@ && "276"@ != "319"@,
        "276"@ != "317"@ && "276"@ != "330"@ && "276"@ != "338"@ && "276"@ != "301"@,
        "276"@ != "318"@ && "276"@ != "369"@ && "307"@ != "311"@ && "307"@ != "314"@,
        "307"@ != "312"@ && "307"@ != "319"@ && "307"@ != "317"@ && "307"@ != "330"@,
        "307"@ != "338"@ && "307"@ != "301"@ && "307"@ != "318"@ && "307"@ != "369"@,
        "313"@ != "311"@ && "313"@ != "314"@ && "313"@ != "312"@ && "313"@ != "319"@,
        "313"@ != "317"@ && "313"@ != "330"@ && "313"@ != "338"@ && "313"@ != "301"@,
        "313"@ != "318"@ && "313"@ != "369"@ && "320"@ != "311"@ && "320"@ != "314"@,
        "320"@ != "312"@ && "320"@ != "319"@ && "320"@ != "317"@ && "320"@ != "330"@,
        "320"@ != "338"@ && "320"@ != "301"@ && "320"@ != "318"@ && "320"@ != "369"@,
        "335"@ != "311"@ && "335"@ != "314"@ && "335"@ != "312"@ && "335"@ != "319"@,
        "335"@ != "317"@ && "335"@ != "330"@ && "335"@ != "338"@ && "335"@ != "301"@,
        "335"@ != "318"@ && "335"@ != "369"@ && "378"@ != "311"@ && "378"@ != "314"@,
        "378"@ != "312"@ && "378"@ != "319"@ && "378"@ != "317"@ && "378"@ != "330"@,
        "378"@ != "338"@ && "378"@ != "301"@ && "378"@ != "318"@ && "378"@ != "369"@,
        "379"@ != "311"@ && "379"@ != "314"@ && "379"@ != "312"@ && "379"@ != "319"@,
        "379"@ != "317"@ && "379"@ != "330"@ && "379"@ != "338"@ && "379"@ != "301"@,
        "379"@ != "318"@ && "379"@ != "369"@ && "671"@ != "311"@ && "671"@ != "314"@,
        "671"@ != "312"@ && "671"@ != "319"@ && "671"@ != "317"@ && "671"@ != "330"@,
        "671"@ != "338"@ && "671"@ != "301"@ && "671"@ != "318"@ && "671"@ != "369"@,
{
    reveal_strlit("311");
    reveal_strlit("314");
    reveal_strlit("312");
    reveal_strlit("319");
    reveal_strlit("317");
    reveal_strlit("330");
    reveal_strlit("338");
    reveal_strlit("301");
    reveal_strlit("318");
    reveal_strlit("369");
    reveal_strlit("276");
    reveal_strlit("307");
    reveal_strlit("313");
    reveal_strlit("320");
    reveal_strlit("335");
    reveal_strlit("378");
    reveal_strlit("379");
    reveal_strlit("671");
    assert("311"@[0] == '3' && "311"@[1] == '1' && "311"@[2] == '1');
    assert("314"@[0] == '3' && "314"@[1] == '1' && "314"@[2] == '4');
    assert("312"@[0] == '3' && "312"@[1] == '1' && "312"@[2] == '2');
    assert("319"@[0] == '3' && "319"@[1] == '1' && "319"@[2] == '9');
    assert("317"@[0] == '3' && "317"@[1] == '1' && "317"@[2] == '7');
    assert("330"@[0] == '3' && "330"@[1] == '3' && "330"@[2] == '0');
    assert("338"@[0] == '3' && "338"@[1] == '3' && "338"@[2] == '8');
    assert("301"@[0] == '3' && "301"@[1] == '0' && "301"@[2] == '1');
    assert("318"@[0] == '3' && "318"@[1] == '1' && "318"@[2] == '8');
    assert("369"@[0] == '3' && "369"@[1] == '6' && "369"@[2] == '9');
    assert("276"@[0] == '2' && "276"@[1] == '7' && "276"@[2] == '6');
    assert("307"@[0] == '3' && "307"@[1] == '0' && "307"@[2] == '7');
    assert("313"@[0] == '3' && "313"@[1] == '1' && "313"@[2] == '3');
    assert("320"@[0] == '3' && "320"@[1] == '2' && "320"@[2] == '0');
    assert("335"@[0] == '3' && "335"@[1] == '3' && "335"@[2] == '5');
    assert("378"@[0] == '3' && "378"@[1] == '7' && "378"@[2] == '8');
    assert("379"@[0] == '3' && "379"@[1] == '7' && "379"@[2] == '9');
    assert("671"@[0] == '6' && "671"@[1] == '7' && "671"@[2] == '1');
}

/// The WHOIS family reads as sentences, its fields labelled and in reading
/// order: a user reply as `*** <nick> is <user>@<host> (<real name>)`, a
/// server reply as `*** <nick> using <server> (<info>)`, the channels as
/// `*** <nick> on <channels>`, away as `*** <nick> is away: <message>`, the
/// end of a WHOIS or WHOWAS as `*** End of WHOIS for <nick>` (or WHOWAS),
/// and the replies that already read as a sentence as `*** <nick> <text>`.
pub proof fn whois_replies_read_as_sentences(line: Seq<char>, my_nick: Seq<char>, signon: Seq<char>)
    requires
        spec_parse(line, my_nick) is Some,
        spec_parse(line, my_nick)->Some_0.1.len() >= 2,
        spec_parse(line, my_nick)->Some_0.1[0].len() > 0,
    ensures
        ({
            let code = spec_parse(line, my_nick)->Some_0.0;
            let p = spec_parse(line, my_nick)->Some_0.1;
            let r = spec_render(line, my_nick, signon);
            &&& (code == "311"@ || code == "314"@) && p.len() >= 3 ==> r == Some(
                "*** "@ + p[0] + " is "@ + p[1] + "@"@ + p[2] + " ("@ + p.last() + ")"@,
            )
            &&& code == "312"@ && p.len() >= 3 ==> r == Some(
                "*** "@ + p[0] + " using "@ + p[1] + " ("@ + p[2] + ")"@,
            )
            &&& code == "319"@ ==> r == Some("*** "@ + p[0] + " on "@ + p[1])
            &&& code == "301"@ ==> r == Some("*** "@ + p[0] + " is away: "@ + p[1])
            &&& code == "318"@ ==> r == Some("*** "@ + "End of WHOIS for "@ + p[0])
            &&& code == "369"@ ==> r == Some("*** "@ + "End of WHOWAS for "@ + p[0])
            &&& (code == "276"@ || code == "307"@ || code == "313"@ || code == "320"@ || code == "335"@
                || code == "378"@ || code == "379"@ || code == "671"@) ==> r == Some(
                "*** "@ + p[0] + " "@ + p[1],
            )
        }),
{
    lemma_codes_differ();
    let p = spec_parse(line, my_nick)->Some_0.1;
    assert("*** "@ + (p[0] + " is "@ + p[1] + "@"@ + p[2] + " ("@ + p.last() + ")"@) =~= "*** "@ + p[0]
        + " is "@ + p[1] + "@"@ + p[2] + " ("@ + p.last() + ")"@);
    assert("*** "@ + (p[0] + " using "@ + p[1] + " ("@ + p[2] + ")"@) =~= "*** "@ + p[0] + " using "@
        + p[1] + " ("@ + p[2] + ")"@);
    assert("*** "@ + (p[0] + " on "@ + p[1]) =~= "*** "@ + p[0] + " on "@ + p[1]);
    assert("*** "@ + (p[0] + " is away: "@ + p[1]) =~= "*** "@ + p[0] + " is away: "@ + p[1]);
    assert("*** "@ + (p[0] + " "@ + p[1]) =~= "*** "@ + p[0] + " "@ + p[1]);
    assert("*** "@ + ("End of WHOIS for "@ + p[0]) =~= "*** "@ + "End of WHOIS for "@ + p[0]);
    assert("*** "@ + ("End of WHOWAS for "@ + p[0]) =~= "*** "@ + "End of WHOWAS for "@ + p[0]);
}

/// An idle span reads as its days, hours and minutes, and its seconds
/// when it is under a day: `d*86400 + h*3600 + m*60 + s` seconds, each
/// unit present, read `<d>d <h>h <m>m` from a day on and `<h>h <m>m <s>s`
/// below one.
pub proof fn idle_spans_read_unit_by_unit(d: nat, h: nat, m: nat, s: nat)
    requires
        0 < h < 24,
        0 < m < 60,
        0 < s < 60,
    ensures
        d > 0 ==> spec_duration(d * 86400 + h * 3600 + m * 60 + s) == dec(d) + "d "@ + dec(h) + "h "@
            + dec(m) + "m"@,
        spec_duration(h * 3600 + m * 60 + s) == dec(h) + "h "@ + dec(m) + "m "@ + dec(s) + "s"@,
{
    reveal_strlit("d ");
    reveal_strlit("h ");
    reveal_strlit("m ");
    reveal_strlit("m");
    reveal_strlit("m ");
    reveal_strlit("s");
    let t = d * 86400 + h * 3600 + m * 60 + s;
    assert(t / 86400 == d && (t % 86400) / 3600 == h && (t % 3600) / 60 == m && t % 60 == s)
        by (nonlinear_arith)
        requires
            t == d * 86400 + h * 3600 + m * 60 + s,
            h < 24,
            m < 60,
            s < 60,
    ;
    let u = h * 3600 + m * 60 + s;
    assert(u / 86400 == 0 && (u % 86400) / 3600 == h && (u % 3600) / 60 == m && u % 60 == s && u > 0)
        by (nonlinear_arith)
        requires
            u == h * 3600 + m * 60 + s,
            0 < h < 24,
            m < 60,
            s < 60,
    ;
    let a = dec(d) + seq!['d'];
    let b = dec(h) + seq!['h'];
    let c = dec(m) + seq!['m'];
    let e = dec(s) + seq!['s'];
    if d > 0 {
        let ws = seq![a] + seq![b] + seq![c] + Seq::<Seq<char>>::empty();
        assert(ws =~= seq![a, b, c]);
        assert(seq![a, b, c].drop_last() =~= seq![a, b]);
        assert(seq![a, b].drop_last() =~= seq![a]);
        assert(join_sp(seq![a]) == a);
        assert(join_sp(seq![a, b]) == a + seq![' '] + b);
        assert(join_sp(seq![a, b, c]) == a + seq![' '] + b + seq![' '] + c);
        assert("d "@ =~= seq!['d', ' '] && "h "@ =~= seq!['h', ' '] && "m"@ =~= seq!['m']);
        assert(join_sp(seq![a, b, c]) =~= dec(d) + "d "@ + dec(h) + "h "@ + dec(m) + "m"@);
    }
    let ws2 = Seq::<Seq<char>>::empty() + seq![b] + seq![c] + seq![e];
    assert(ws2 =~= seq![b, c, e]);
    assert(seq![b, c, e].drop_last() =~= seq![b, c]);
    assert(seq![b, c].drop_last() =~= seq![b]);
    assert(join_sp(seq![b]) == b);
    assert(join_sp(seq![b, c]) == b + seq![' '] + c);
    assert(join_sp(seq![b, c, e]) == b + seq![' '] + c + seq![' '] + e);
    assert("h "@ =~= seq!['h', ' '] && "m "@ =~= seq!['m', ' '] && "s"@ =~= seq!['s']);
    assert(join_sp(seq![b, c, e]) =~= dec(h) + "h "@ + dec(m) + "m "@ + dec(s) + "s"@);
}

} // verus!
