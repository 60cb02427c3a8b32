//! Nick helpers and the timestamp prefix.
use vstd::prelude::*;
use crate::clock::{local_now, spec_hms_text};
use vstd::utf8::is_ascii_chars;
use crate::text::{
    eq_ignore_ascii_case, lowercase_ignores_ascii_case,
    chars_of, is_alnum, is_ascii_alphanumeric, lower_chars, slice_of, lowercase, string_of,
    eq_chars,
};

verus! {

/// The status prefixes a nick can carry in a channel: owner, admin, op,
/// half-op and voice.
pub open spec fn is_status(c: char) -> bool {
    c == '~' || c == '&' || c == '@' || c == '%' || c == '+'
}

fn is_status_exec(c: char) -> (b: bool)
    ensures
        b == is_status(c),
{
    c == '~' || c == '&' || c == '@' || c == '%' || c == '+'
}

/// Index of the first character of `s` at or after `i` that is not a status prefix.
pub open spec fn skip_status(s: Seq<char>, i: int) -> int
    decreases s.len() - i,
{
    if 0 <= i < s.len() && is_status(s[i]) {
        skip_status(s, i + 1)
    } else {
        i
    }
}

/// `s` with every leading status prefix removed.
pub open spec fn spec_clean_nick(s: Seq<char>) -> Seq<char> {
    s.skip(skip_status(s, 0))
}

pub proof fn lemma_skip_status(s: Seq<char>, i: int)
    requires
        0 <= i <= s.len(),
    ensures
        i <= skip_status(s, i) <= s.len(),
    decreases s.len() - i,
{
    if i < s.len() && is_status(s[i]) {
        lemma_skip_status(s, i + 1);
    }
}

/// Strips every leading IRC status prefix.
pub fn clean_nick(s: &str) -> (r: &str)
    ensures
        r@ == spec_clean_nick(s@),
{
    let n = s.unicode_len();
    let mut i: usize = 0;
    while i < n && is_status_exec(s.get_char(i))
        invariant
            n == s@.len(),
            i <= n,
            skip_status(s@, i as int) == skip_status(s@, 0),
        decreases n - i,
    {
        i += 1;
    }
    s.substring_char(i, n)
}

/// `s` with one leading status prefix removed, if it has one.
pub open spec fn spec_nick_display(s: Seq<char>) -> Seq<char> {
    if s.len() > 0 && is_status(s[0]) {
        s.skip(1)
    } else {
        s
    }
}

pub fn display_chars(v: &Vec<char>) -> (r: Vec<char>)
    ensures
        r@ == spec_nick_display(v@),
{
    if v.len() > 0 && is_status_exec(v[0]) {
        let r = slice_of(v, 1, v.len());
        assert(v@.subrange(1, v@.len() as int) == v@.skip(1));
        r
    } else {
        slice_of(v, 0, v.len())
    }
}

/// The nick without its one status prefix, if it has one.
pub fn nick_display(s: &str) -> (r: &str)
    ensures
        r@ == spec_nick_display(s@),
{
    let n = s.unicode_len();
    if n > 0 && is_status_exec(s.get_char(0)) {
        s.substring_char(1, n)
    } else {
        s
    }
}

/// Sort rank of a status prefix: owner 5, admin 4, op 3, half-op 2, voice 1,
/// anything else 0.
pub open spec fn rank_of(c: char) -> u8 {
    if c == '~' {
        5
    } else if c == '&' {
        4
    } else if c == '@' {
        3
    } else if c == '%' {
        2
    } else if c == '+' {
        1
    } else {
        0
    }
}

pub open spec fn spec_nick_rank(s: Seq<char>) -> u8 {
    if s.len() > 0 {
        rank_of(s[0])
    } else {
        0
    }
}

pub fn rank_chars(v: &Vec<char>) -> (r: u8)
    ensures
        r == spec_nick_rank(v@),
{
    if v.len() == 0 {
        return 0;
    }
    let c = v[0];
    if c == '~' {
        5
    } else if c == '&' {
        4
    } else if c == '@' {
        3
    } else if c == '%' {
        2
    } else if c == '+' {
        1
    } else {
        0
    }
}

/// Sort rank of a nick by its status prefix, higher first: `~ & @ % +`,
/// then everyone else.
pub fn nick_rank(nick_with_prefix: &str) -> (r: u8)
    ensures
        r == spec_nick_rank(nick_with_prefix@),
{
    let v = chars_of(nick_with_prefix);
    rank_chars(&v)
}

/// The status prefixes from highest to lowest: owner `~`, admin `&`, op
/// `@`, half-op `%`, voice `+`.
pub open spec fn status_order() -> Seq<char> {
    seq!['~', '&', '@', '%', '+']
}

/// `s` starts with the status prefix at place `i` of `status_order`, or,
/// for `i == 5`, with no status prefix at all.
pub open spec fn has_status_place(s: Seq<char>, i: int) -> bool {
    if 0 <= i < 5 {
        s.len() > 0 && s[0] == status_order()[i]
    } else {
        i == 5 && (s.len() == 0 || !status_order().contains(s[0]))
    }
}

/// Ranks follow the status prefixes strictly: `~` above `&` above `@`
/// above `%` above `+` above a nick without a prefix.
pub proof fn higher_status_ranks_higher(a: Seq<char>, b: Seq<char>, i: int, j: int)
    requires
        0 <= i < j <= 5,
        has_status_place(a, i),
        has_status_place(b, j),
    ensures
        spec_nick_rank(a) > spec_nick_rank(b),
{
    let o = status_order();
    assert(o[0] == '~' && o[1] == '&' && o[2] == '@' && o[3] == '%' && o[4] == '+');
    if j == 5 && b.len() > 0 {
        if b[0] == '~' || b[0] == '&' || b[0] == '@' || b[0] == '%' || b[0] == '+' {
            let k: int = if b[0] == '~' { 0 } else if b[0] == '&' { 1 } else if b[0] == '@' { 2 } else if b[0] == '%' { 3 } else { 4 };
            assert(o[k] == b[0]);
            assert(o.contains(b[0]));
        }
    }
}

// ---------------------------------------------------------------------------
// Nick mentions
// ---------------------------------------------------------------------------

/// Characters that can be part of a word when looking for a nick.
pub open spec fn is_word_char(c: char) -> bool {
    is_alnum(c) || c == '_' || c == '-'
}

fn is_word_char_exec(c: char) -> (b: bool)
    ensures
        b == is_word_char(c),
{
    is_ascii_alphanumeric(c) || c == '_' || c == '-'
}

/// Index of the first word character at or after `i`.
pub open spec fn skip_sep(s: Seq<char>, i: int) -> int
    decreases s.len() - i,
{
    if 0 <= i < s.len() && !is_word_char(s[i]) {
        skip_sep(s, i + 1)
    } else {
        i
    }
}

/// Index of the first non-word character at or after `i`.
pub open spec fn skip_token(s: Seq<char>, i: int) -> int
    decreases s.len() - i,
{
    if 0 <= i < s.len() && is_word_char(s[i]) {
        skip_token(s, i + 1)
    } else {
        i
    }
}

pub proof fn lemma_skip_sep(s: Seq<char>, i: int)
    requires
        0 <= i <= s.len(),
    ensures
        i <= skip_sep(s, i) <= s.len(),
        skip_sep(s, i) < s.len() ==> is_word_char(s[skip_sep(s, i)]),
    decreases s.len() - i,
{
    if i < s.len() && !is_word_char(s[i]) {
        lemma_skip_sep(s, i + 1);
    }
}

pub proof fn lemma_skip_token(s: Seq<char>, i: int)
    requires
        0 <= i <= s.len(),
    ensures
        i <= skip_token(s, i) <= s.len(),
        i < s.len() && is_word_char(s[i]) ==> skip_token(s, i) > i,
    decreases s.len() - i,
{
    if i < s.len() && is_word_char(s[i]) {
        lemma_skip_token(s, i + 1);
    }
}

/// The maximal runs of word characters in `s[i..]`, in order.
pub open spec fn tokens_from(s: Seq<char>, i: int) -> Seq<Seq<char>>
    decreases s.len() - i,
{
    if i < 0 || i > s.len() {
        seq![]
    } else {
        let a = skip_sep(s, i);
        if a >= s.len() {
            seq![]
        } else {
            proof {
                lemma_skip_sep(s, i);
                lemma_skip_token(s, a);
            }
            let b = skip_token(s, a);
            seq![s.subrange(a, b)] + tokens_from(s, b)
        }
    }
}

/// Whether `nick` appears in `haystack` as a whole word, ignoring case.
pub open spec fn spec_contains_nick_word(haystack: Seq<char>, nick: Seq<char>) -> bool {
    exists|k: int|
        0 <= k < tokens_from(haystack, 0).len() && lowercase(
            #[trigger] tokens_from(haystack, 0)[k],
        ) == lowercase(nick)
}

/// Case-insensitive whole-word match of `nick` in `haystack`, where words
/// are runs of ASCII letters, digits, `_` and `-`.
pub fn contains_nick_word(haystack: &str, nick: &str) -> (b: bool)
    ensures
        b == spec_contains_nick_word(haystack@, nick@),
{
    let h = chars_of(haystack);
    let n = chars_of(nick);
    let nl = lower_chars(&n);
    let mut i: usize = 0;
    let ghost all = tokens_from(h@, 0);
    let ghost mut seen: int = 0;
    loop
        invariant
            i <= h.len(),
            0 <= seen <= all.len(),
            all == tokens_from(h@, 0),
            all.skip(seen) == tokens_from(h@, i as int),
            forall|k: int| 0 <= k < seen ==> lowercase(#[trigger] all[k]) != nl@,
            nl@ == lowercase(n@),
            n@ == nick@,
            h@ == haystack@,
        decreases h.len() - i,
    {
        let mut a = i;
        while a < h.len() && !is_word_char_exec(h[a])
            invariant
                i <= a <= h.len(),
                skip_sep(h@, a as int) == skip_sep(h@, i as int),
            decreases h.len() - a,
        {
            a += 1;
        }
        if a >= h.len() {
            assert(tokens_from(h@, i as int) == Seq::<Seq<char>>::empty());
            assert(all.len() == seen);
            return false;
        }
        proof {
            lemma_skip_token(h@, a as int);
        }
        let mut b = a;
        while b < h.len() && is_word_char_exec(h[b])
            invariant
                a <= b <= h.len(),
                skip_token(h@, b as int) == skip_token(h@, a as int),
            decreases h.len() - b,
        {
            b += 1;
        }
        let tok = slice_of(&h, a, b);
        assert(tokens_from(h@, i as int) == seq![tok@] + tokens_from(h@, b as int));
        assert(all[seen] == tok@) by {
            assert(all.skip(seen)[0] == all[seen]);
        }
        let tl = lower_chars(&tok);
        if eq_chars(&tl, &nl) {
            return true;
        }
        assert(all.skip(seen + 1) == tokens_from(h@, b as int)) by {
            assert(all.skip(seen + 1) =~= all.skip(seen).skip(1));
        }
        proof {
            seen = seen + 1;
        }
        i = b;
    }
}

proof fn lemma_token_chars(s: Seq<char>, i: int, j: int)
    requires
        0 <= i <= j < skip_token(s, i),
        i <= s.len(),
    ensures
        is_word_char(s[j]),
    decreases j - i,
{
    if j > i {
        lemma_token_chars(s, i + 1, j);
    }
}

/// Every word of `s[i..]` is made of word characters, so is ASCII text.
proof fn lemma_tokens_ascii(s: Seq<char>, i: int)
    ensures
        forall|k: int| 0 <= k < tokens_from(s, i).len() ==> is_ascii_chars(#[trigger] tokens_from(s, i)[k]),
    decreases s.len() - i,
{
    if 0 <= i <= s.len() {
        let a = skip_sep(s, i);
        lemma_skip_sep(s, i);
        if a < s.len() {
            lemma_skip_token(s, a);
            let b = skip_token(s, a);
            lemma_tokens_ascii(s, b);
            let t = s.subrange(a, b);
            assert forall|j: int| 0 <= j < t.len() implies '\0' <= #[trigger] t[j] <= '\u{7f}' by {
                lemma_token_chars(s, a, a + j);
            }
            assert forall|k: int| 0 <= k < tokens_from(s, i).len() implies is_ascii_chars(
                #[trigger] tokens_from(s, i)[k],
            ) by {
                if k > 0 {
                    assert(tokens_from(s, i)[k] == tokens_from(s, b)[k - 1]);
                }
            }
        }
    }
}

/// The characters a nick is matched by as a whole word: ASCII letters and
/// digits, `_` and `-`.
pub open spec fn in_nick_charset(c: char) -> bool {
    ('a' <= c && c <= 'z') || ('A' <= c && c <= 'Z') || ('0' <= c && c <= '9') || c == '_' || c == '-'
}

proof fn lemma_token_ends_at(s: Seq<char>, m: int, q: int)
    requires
        0 <= m <= q <= s.len(),
        forall|j: int| m <= j < q ==> is_word_char(#[trigger] s[j]),
        q == s.len() || !is_word_char(s[q]),
    ensures
        skip_token(s, m) == q,
    decreases q - m,
{
    if m < q {
        lemma_token_ends_at(s, m + 1, q);
    }
}

proof fn lemma_sep_stops_by(s: Seq<char>, i: int, p: int)
    requires
        0 <= i <= p < s.len(),
        is_word_char(s[p]),
    ensures
        skip_sep(s, i) <= p,
    decreases p - i,
{
    if i < p && !is_word_char(s[i]) {
        lemma_sep_stops_by(s, i + 1, p);
    }
}

proof fn lemma_token_stops_by(s: Seq<char>, a: int, e: int)
    requires
        0 <= a <= e < s.len(),
        !is_word_char(s[e]),
    ensures
        skip_token(s, a) <= e,
    decreases e - a,
{
    if a < e && is_word_char(s[a]) {
        lemma_token_stops_by(s, a + 1, e);
    }
}

/// A maximal run of word characters `s[p..q]` is one of the words of
/// `s[i..]` for every `i` up to `p`.
proof fn lemma_run_is_a_token(s: Seq<char>, i: int, p: int, q: int)
    requires
        0 <= i <= p < q <= s.len(),
        forall|j: int| p <= j < q ==> is_word_char(#[trigger] s[j]),
        p == 0 || !is_word_char(s[p - 1]),
        q == s.len() || !is_word_char(s[q]),
    ensures
        exists|k: int| 0 <= k < tokens_from(s, i).len() && #[trigger] tokens_from(s, i)[k] == s.subrange(p, q),
    decreases s.len() - i,
{
    lemma_sep_stops_by(s, i, p);
    lemma_skip_sep(s, i);
    let a = skip_sep(s, i);
    lemma_skip_token(s, a);
    let b = skip_token(s, a);
    assert(tokens_from(s, i) == seq![s.subrange(a, b)] + tokens_from(s, b));
    if a == p {
        lemma_token_ends_at(s, p, q);
        assert(tokens_from(s, i)[0] == s.subrange(p, q));
    } else {
        assert(a < p - 1);
        lemma_token_stops_by(s, a, p - 1);
        lemma_run_is_a_token(s, b, p, q);
        let k = choose|k: int| 0 <= k < tokens_from(s, b).len() && #[trigger] tokens_from(s, b)[k] == s.subrange(p, q);
        assert(tokens_from(s, i)[k + 1] == tokens_from(s, b)[k]);
    }
}

/// A nick made of letters, digits, `_` and `-` is found wherever it stands
/// in the text as a whole word, bounded on each side by the text's end or
/// by a character outside that set: `jean-luc: are you there?` mentions
/// `jean-luc`.
pub proof fn a_nick_standing_alone_is_found(pre: Seq<char>, nick: Seq<char>, post: Seq<char>)
    requires
        nick.len() > 0,
        forall|k: int| 0 <= k < nick.len() ==> in_nick_charset(#[trigger] nick[k]),
        pre.len() == 0 || !in_nick_charset(pre.last()),
        post.len() == 0 || !in_nick_charset(post[0]),
    ensures
        spec_contains_nick_word(pre + nick + post, nick),
{
    let s = pre + nick + post;
    let p = pre.len() as int;
    let q = p + nick.len();
    assert forall|j: int| p <= j < q implies is_word_char(#[trigger] s[j]) by {
        assert(s[j] == nick[j - p]);
    }
    if p > 0 {
        assert(s[p - 1] == pre.last());
    }
    if q < s.len() {
        assert(s[q] == post[0]);
    }
    lemma_run_is_a_token(s, 0, p, q);
    assert(s.subrange(p, q) =~= nick);
    let k = choose|k: int| 0 <= k < tokens_from(s, 0).len() && #[trigger] tokens_from(s, 0)[k] == s.subrange(p, q);
    assert(lowercase(tokens_from(s, 0)[k]) == lowercase(nick));
}

/// A nick written in ASCII is mentioned exactly when some word of the
/// text equals it ignoring ASCII case: `Alice` and `ALICE` both mention
/// `alice`.
pub proof fn mentions_ignore_ascii_case(haystack: Seq<char>, nick: Seq<char>)
    requires
        is_ascii_chars(nick),
    ensures
        spec_contains_nick_word(haystack, nick) == exists|k: int|
            0 <= k < tokens_from(haystack, 0).len() && eq_ignore_ascii_case(
                #[trigger] tokens_from(haystack, 0)[k],
                nick,
            ),
{
    let ts = tokens_from(haystack, 0);
    lemma_tokens_ascii(haystack, 0);
    assert forall|k: int| 0 <= k < ts.len() implies (lowercase(#[trigger] ts[k]) == lowercase(nick))
        == eq_ignore_ascii_case(ts[k], nick) by {
        lowercase_ignores_ascii_case(ts[k], nick);
    }
}

/// The `[HH:MM:SS]` prefix for lines shown in a buffer, in local time (UTC
/// when the local offset cannot be determined).
pub fn ts_prefix() -> (r: String)
    ensures
        exists|h: u8, m: u8, s: u8| h < 24 && m < 60 && s < 60 && r@ == spec_hms_text(h, m, s),
{
    let v = local_now();
    string_of(&v)
}

} // verus!
