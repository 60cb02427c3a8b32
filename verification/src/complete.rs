//! Tab completion for the message entry.
//!
//! Pure: the caller passes the entry text, the cursor, and the candidate
//! nicks, and gets back the replacement text and cursor. Repeated presses
//! cycle through the matches, which is why the state lives in `TabCycle`
//! rather than being recomputed from the entry alone.
use vstd::prelude::*;
use crate::commands::{command_names, commands};
use vstd::utf8::is_ascii_chars;
use crate::text::{
    eq_ignore_ascii_case, lowercase_ignores_ascii_case,
    chars_of, eq_chars, extend, is_whitespace, is_ws, lower_chars, slice_of, lowercase,
    starts_with, starts_with_chars, string_of, views,
};
use crate::util::{display_chars, spec_nick_display};

verus! {

/// Result of one completion step.
#[derive(Debug, Clone, PartialEq, Eq)]
pub struct Completion {
    /// Replacement contents for the entry.
    pub text: String,
    /// Where to put the cursor, in characters.
    pub cursor: usize,
    /// How many candidates matched, so the caller can report ambiguity.
    pub match_count: usize,
}

pub struct CompletionV {
    pub text: Seq<char>,
    pub cursor: nat,
    pub match_count: nat,
}

impl View for Completion {
    type V = CompletionV;

    open spec fn view(&self) -> CompletionV {
        CompletionV { text: self.text@, cursor: self.cursor as nat, match_count: self.match_count as nat }
    }
}

/// Completion state carried between Tab presses.
#[derive(Debug)]
pub struct TabCycle {
    /// The word originally typed, before any completion replaced it.
    prefix: String,
    /// Character index where that word starts.
    start: usize,
    /// Character index just past the text we last inserted.
    end: usize,
    /// Which match was used last.
    index: usize,
    /// The entry contents we last produced, used to detect that the user has
    /// not typed anything since, so Tab means "cycle" rather than "start".
    last: String,
}

pub struct CycleV {
    pub prefix: Seq<char>,
    pub start: nat,
    pub end: nat,
    pub index: nat,
    pub last: Seq<char>,
}

impl View for TabCycle {
    type V = CycleV;

    closed spec fn view(&self) -> CycleV {
        CycleV {
            prefix: self.prefix@,
            start: self.start as nat,
            end: self.end as nat,
            index: self.index as nat,
            last: self.last@,
        }
    }
}

/// The state with no cycle in progress.
pub open spec fn fresh_cycle() -> CycleV {
    CycleV { prefix: seq![], start: 0, end: 0, index: 0, last: seq![] }
}

impl Default for TabCycle {
    fn default() -> (r: Self)
        ensures
            r@ == fresh_cycle(),
    {
        TabCycle { prefix: String::new(), start: 0, end: 0, index: 0, last: String::new() }
    }
}

impl TabCycle {
    /// Positions stay within the text last produced, and the index can be
    /// advanced by one.
    #[verifier::type_invariant]
    spec fn inv(self) -> bool {
        &&& self.start <= self.end
        &&& self.end <= self.last@.len()
        &&& self.index < usize::MAX
    }
}

// ---------------------------------------------------------------------------
// Candidates
// ---------------------------------------------------------------------------

/// Start of the whitespace-delimited word ending at `j`.
pub open spec fn word_start(s: Seq<char>, j: int) -> int
    decreases j,
{
    if 0 < j && j <= s.len() && !is_ws(s[j - 1]) {
        word_start(s, j - 1)
    } else {
        j
    }
}

pub proof fn lemma_word_start(s: Seq<char>, j: int)
    requires
        0 <= j <= s.len(),
    ensures
        0 <= word_start(s, j) <= j,
    decreases j,
{
    if 0 < j && !is_ws(s[j - 1]) {
        lemma_word_start(s, j - 1);
    }
}

fn word_start_exec(cs: &Vec<char>, cursor: usize) -> (r: usize)
    requires
        cursor <= cs.len(),
    ensures
        r == word_start(cs@, cursor as int),
        r <= cursor,
{
    let mut i = cursor;
    while i > 0 && !is_whitespace(cs[i - 1])
        invariant
            i <= cursor <= cs.len(),
            word_start(cs@, i as int) == word_start(cs@, cursor as int),
        decreases i,
    {
        i -= 1;
    }
    i
}

/// `needle` without its leading slashes.
pub open spec fn skip_slashes(s: Seq<char>, i: int) -> int
    decreases s.len() - i,
{
    if 0 <= i < s.len() && s[i] == '/' {
        skip_slashes(s, i + 1)
    } else {
        i
    }
}

pub proof fn lemma_skip_slashes(s: Seq<char>, i: int)
    requires
        0 <= i <= s.len(),
    ensures
        i <= skip_slashes(s, i) <= s.len(),
    decreases s.len() - i,
{
    if i < s.len() && s[i] == '/' {
        lemma_skip_slashes(s, i + 1);
    }
}

/// Commands in `names` starting with `needle`, each with a leading slash,
/// in the order of `names`.
pub open spec fn cmd_matches(names: Seq<Seq<char>>, needle: Seq<char>) -> Seq<Seq<char>>
    decreases names.len(),
{
    if names.len() == 0 {
        seq![]
    } else {
        let r = cmd_matches(names.drop_last(), needle);
        if starts_with(names.last(), needle) {
            r.push(seq!['/'] + names.last())
        } else {
            r
        }
    }
}

/// The (sort key, display nick) pairs of the nicks whose display form
/// starts with `needle`, ignoring case.
pub open spec fn nick_candidates(nicks: Seq<Seq<char>>, needle: Seq<char>) -> Seq<
    (Seq<char>, Seq<char>),
>
    decreases nicks.len(),
{
    if nicks.len() == 0 {
        seq![]
    } else {
        let r = nick_candidates(nicks.drop_last(), needle);
        let d = spec_nick_display(nicks.last());
        if starts_with(lowercase(d), needle) {
            r.push((lowercase(d), d))
        } else {
            r
        }
    }
}

/// Lexicographic order on characters, which is the order of `str`.
pub open spec fn key_le(a: Seq<char>, b: Seq<char>) -> bool
    decreases a.len(),
{
    if a.len() == 0 {
        true
    } else if b.len() == 0 {
        false
    } else if a[0] != b[0] {
        a[0] < b[0]
    } else {
        key_le(a.drop_first(), b.drop_first())
    }
}

pub fn key_le_exec(a: &Vec<char>, b: &Vec<char>) -> (r: bool)
    ensures
        r == key_le(a@, b@),
{
    let mut i: usize = 0;
    assert(a@.skip(0) == a@);
    assert(b@.skip(0) == b@);
    while i < a.len() && i < b.len() && a[i] == b[i]
        invariant
            i <= a.len(),
            i <= b.len(),
            key_le(a@.skip(i as int), b@.skip(i as int)) == key_le(a@, b@),
        decreases a.len() - i,
    {
        assert(a@.skip(i as int).drop_first() == a@.skip(i + 1));
        assert(b@.skip(i as int).drop_first() == b@.skip(i + 1));
        i += 1;
    }
    if i == a.len() {
        true
    } else if i == b.len() {
        false
    } else {
        assert(a@.skip(i as int)[0] == a@[i as int]);
        assert(b@.skip(i as int)[0] == b@[i as int]);
        a[i] < b[i]
    }
}

/// Inserts `x` after the last element whose key is not greater than its
/// own: one step of a stable insertion sort by key.
pub open spec fn insert_by_key(r: Seq<(Seq<char>, Seq<char>)>, x: (Seq<char>, Seq<char>)) -> Seq<
    (Seq<char>, Seq<char>),
>
    decreases r.len(),
{
    if r.len() == 0 || key_le(r.last().0, x.0) {
        r.push(x)
    } else {
        insert_by_key(r.drop_last(), x).push(r.last())
    }
}

/// `s` stably sorted by key, as `sort_by_key` orders it.
pub open spec fn sort_by_key(s: Seq<(Seq<char>, Seq<char>)>) -> Seq<(Seq<char>, Seq<char>)>
    decreases s.len(),
{
    if s.len() == 0 {
        seq![]
    } else {
        insert_by_key(sort_by_key(s.drop_last()), s.last())
    }
}

/// `s` with consecutive repeats collapsed, as `Vec::dedup` leaves it.
pub open spec fn dedup(s: Seq<Seq<char>>) -> Seq<Seq<char>>
    decreases s.len(),
{
    if s.len() <= 1 {
        s
    } else {
        let d = dedup(s.drop_last());
        if s[s.len() - 2] == s.last() {
            d
        } else {
            d.push(s.last())
        }
    }
}

/// Candidates matching `prefix`, case-insensitively, in a stable order:
/// command names for a command, otherwise the display forms of the nicks
/// sorted by their lowercase form with repeats removed.
pub open spec fn spec_matches(prefix: Seq<char>, nicks: Seq<Seq<char>>, is_command: bool) -> Seq<
    Seq<char>,
> {
    let needle = lowercase(prefix);
    if is_command {
        cmd_matches(command_names(), needle.skip(skip_slashes(needle, 0)))
    } else {
        dedup(sort_by_key(nick_candidates(nicks, needle)).map_values(|p: (Seq<char>, Seq<char>)| p.1))
    }
}

/// What is typed before Tab is matched ignoring ASCII case: two ASCII
/// prefixes that differ only in case complete to the same candidates, for
/// commands and nicks alike.
pub proof fn completion_ignores_ascii_case(
    p1: Seq<char>,
    p2: Seq<char>,
    nicks: Seq<Seq<char>>,
    is_command: bool,
)
    requires
        is_ascii_chars(p1),
        is_ascii_chars(p2),
        eq_ignore_ascii_case(p1, p2),
    ensures
        spec_matches(p1, nicks, is_command) == spec_matches(p2, nicks, is_command),
{
    lowercase_ignores_ascii_case(p1, p2);
}

/// A nick whose display form `d` is ASCII matches an ASCII prefix `p`
/// exactly when `d` starts with `p` ignoring ASCII case: `bobb` matches
/// `Bobby`.
pub proof fn nick_matching_ignores_ascii_case(d: Seq<char>, p: Seq<char>)
    requires
        is_ascii_chars(d),
        is_ascii_chars(p),
    ensures
        starts_with(lowercase(d), lowercase(p)) == (p.len() <= d.len() && eq_ignore_ascii_case(
            d.take(p.len() as int),
            p,
        )),
{
    let ld = lowercase(d);
    let lp = lowercase(p);
    if p.len() <= d.len() {
        let t = d.take(p.len() as int);
        assert(is_ascii_chars(t));
        lowercase_ignores_ascii_case(t, p);
        assert(lowercase(t) =~= ld.take(p.len() as int));
    }
}

proof fn lemma_insert_len(r: Seq<(Seq<char>, Seq<char>)>, x: (Seq<char>, Seq<char>))
    ensures
        insert_by_key(r, x).len() == r.len() + 1,
    decreases r.len(),
{
    if !(r.len() == 0 || key_le(r.last().0, x.0)) {
        lemma_insert_len(r.drop_last(), x);
    }
}

/// Where `insert_by_key` puts `x`.
pub open spec fn ins_pos(r: Seq<(Seq<char>, Seq<char>)>, x: (Seq<char>, Seq<char>)) -> int
    decreases r.len(),
{
    if r.len() == 0 || key_le(r.last().0, x.0) {
        r.len() as int
    } else {
        ins_pos(r.drop_last(), x)
    }
}

proof fn lemma_ins_pos(r: Seq<(Seq<char>, Seq<char>)>, x: (Seq<char>, Seq<char>))
    ensures
        0 <= ins_pos(r, x) <= r.len(),
        insert_by_key(r, x) == r.take(ins_pos(r, x)).push(x) + r.skip(ins_pos(r, x)),
    decreases r.len(),
{
    if r.len() == 0 || key_le(r.last().0, x.0) {
        assert(r.take(r.len() as int) == r);
        assert(r.skip(r.len() as int) =~= Seq::<(Seq<char>, Seq<char>)>::empty());
    } else {
        let d = r.drop_last();
        lemma_ins_pos(d, x);
        let p = ins_pos(d, x);
        assert(d.take(p) == r.take(p));
        assert(r.skip(p) =~= d.skip(p).push(r.last()));
        assert(insert_by_key(r, x) =~= r.take(p).push(x) + r.skip(p));
    }
}

/// The display forms of `nicks` matching `needle`, sorted and deduplicated.
fn nick_matches(nicks: &[String], needle: &Vec<char>) -> (r: Vec<Vec<char>>)
    ensures
        views(r@) == dedup(
            sort_by_key(nick_candidates(nicks@.map_values(|n: String| n@), needle@)).map_values(
                |p: (Seq<char>, Seq<char>)| p.1,
            ),
        ),
{
    let ghost ns = nicks@.map_values(|n: String| n@);
    // Sorted so far, as (key, display) pairs.
    let mut sorted: Vec<(Vec<char>, Vec<char>)> = Vec::new();
    let mut i: usize = 0;
    while i < nicks.len()
        invariant
            i <= nicks.len(),
            ns == nicks@.map_values(|n: String| n@),
            pairs(sorted@) == sort_by_key(nick_candidates(ns.take(i as int), needle@)),
        decreases nicks.len() - i,
    {
        let ghost before = pairs(sorted@);
        assert(ns.take(i + 1).drop_last() == ns.take(i as int));
        assert(ns.take(i + 1).last() == nicks@[i as int]@);
        let n = chars_of(nicks[i].as_str());
        let d = display_chars(&n);
        let key = lower_chars(&d);
        let ghost prev_c = nick_candidates(ns.take(i as int), needle@);
        let ghost x = (key@, d@);
        proof {
            let t = ns.take(i + 1);
            assert(t.drop_last() == ns.take(i as int));
            assert(t.last() == n@);
            if starts_with(key@, needle@) {
                assert(nick_candidates(t, needle@) == prev_c.push(x));
                assert(prev_c.push(x).drop_last() == prev_c);
                assert(sort_by_key(prev_c.push(x)) == insert_by_key(sort_by_key(prev_c), x));
            } else {
                assert(nick_candidates(t, needle@) == prev_c);
            }
        }
        if starts_with_chars(&key, needle) {
            // Find the insertion point from the back.
            assert(before.take(sorted.len() as int) == before);
            let mut j = sorted.len();
            while j > 0 && !key_le_exec(&sorted[j - 1].0, &key)
                invariant
                    j <= sorted.len(),
                    pairs(sorted@) == before,
                    before.len() == sorted@.len(),
                    x == (key@, d@),
                    ins_pos(before.take(j as int), x) == ins_pos(before, x),
                decreases j,
            {
                assert(before.take(j as int).drop_last() == before.take(j - 1));
                assert(before.take(j as int).last() == before[j - 1]);
                assert(before[j - 1] == (sorted@[j - 1].0@, sorted@[j - 1].1@));
                assert(!key_le(before.take(j as int).last().0, x.0));
                assert(ins_pos(before.take(j as int), x) == ins_pos(before.take(j - 1), x));
                j -= 1;
            }
            proof {
                assert(before.take(j as int).len() == j);
                if j > 0 {
                    assert(before.take(j as int).last() == before[j - 1]);
                    assert(before[j - 1] == (sorted@[j - 1].0@, sorted@[j - 1].1@));
                }
                assert(ins_pos(before.take(j as int), x) == j);
                lemma_ins_pos(before, x);
            }
            sorted.insert(j, (key, d));
            assert(pairs(sorted@) =~= before.take(j as int).push(x) + before.skip(j as int));
        }
        i += 1;
    }
    assert(ns.take(nicks.len() as int) == ns);
    // Drop the keys and collapse repeats.
    let ghost vals = pairs(sorted@).map_values(|p: (Seq<char>, Seq<char>)| p.1);
    let mut out: Vec<Vec<char>> = Vec::new();
    let mut k: usize = 0;
    while k < sorted.len()
        invariant
            k <= sorted.len(),
            vals == pairs(sorted@).map_values(|p: (Seq<char>, Seq<char>)| p.1),
            vals.len() == sorted.len(),
            views(out@) == dedup(vals.take(k as int)),
            k > 0 ==> views(out@).len() > 0 && views(out@).last() == vals[k - 1],
        decreases sorted.len() - k,
    {
        let ghost pre = out@;
        assert(vals.take(k + 1).drop_last() == vals.take(k as int));
        assert(vals[k as int] == sorted@[k as int].1@);
        if k > 0 && eq_chars(&sorted[k - 1].1, &sorted[k].1) {
            assert(vals.take(k + 1)[k - 1] == vals[k - 1]);
        } else {
            let item = slice_of(&sorted[k].1, 0, sorted[k].1.len());
            assert(item@ == sorted@[k as int].1@);
            out.push(item);
            assert(views(out@) =~= views(pre).push(vals[k as int]));
            proof {
                if k > 0 {
                    assert(vals.take(k + 1)[k - 1] == vals[k - 1]);
                    assert(vals[k - 1] == sorted@[k - 1].1@);
                }
            }
        }
        k += 1;
    }
    assert(vals.take(sorted.len() as int) == vals);
    out
}

pub open spec fn pairs(v: Seq<(Vec<char>, Vec<char>)>) -> Seq<(Seq<char>, Seq<char>)> {
    v.map_values(|p: (Vec<char>, Vec<char>)| (p.0@, p.1@))
}

/// Command names starting with `needle`, with a leading slash.
fn command_matches(needle: &Vec<char>) -> (r: Vec<Vec<char>>)
    ensures
        views(r@) == cmd_matches(command_names(), needle@),
{
    let names = commands();
    let mut r: Vec<Vec<char>> = Vec::new();
    let mut i: usize = 0;
    while i < names.len()
        invariant
            i <= names.len(),
            views(names@) == command_names(),
            views(r@) == cmd_matches(command_names().take(i as int), needle@),
        decreases names.len() - i,
    {
        assert(command_names().take(i + 1).drop_last() == command_names().take(i as int));
        assert(command_names().take(i + 1).last() == names@[i as int]@);
        if starts_with_chars(&names[i], needle) {
            let mut c: Vec<char> = Vec::new();
            c.push('/');
            extend(&mut c, &names[i]);
            let ghost pre = r@;
            r.push(c);
            assert(views(r@) =~= views(pre).push(seq!['/'] + names@[i as int]@));
        }
        i += 1;
    }
    assert(command_names().take(names.len() as int) == command_names());
    r
}

fn matches_for(prefix: &Vec<char>, nicks: &[String], is_command: bool) -> (r: Vec<Vec<char>>)
    ensures
        views(r@) == spec_matches(prefix@, nicks@.map_values(|n: String| n@), is_command),
{
    let needle = lower_chars(prefix);
    if is_command {
        let mut i: usize = 0;
        while i < needle.len() && needle[i] == '/'
            invariant
                i <= needle.len(),
                skip_slashes(needle@, i as int) == skip_slashes(needle@, 0),
            decreases needle.len() - i,
        {
            i += 1;
        }
        let n2 = slice_of(&needle, i, needle.len());
        assert(needle@.subrange(i as int, needle@.len() as int) == needle@.skip(i as int));
        command_matches(&n2)
    } else {
        nick_matches(nicks, &needle)
    }
}

// ---------------------------------------------------------------------------
// One completion step
// ---------------------------------------------------------------------------

/// `cs[a..b]` with both ends clamped to the text.
pub open spec fn clamp_slice(cs: Seq<char>, a: int, b: int) -> Seq<char> {
    let n = cs.len() as int;
    cs.subrange(if a < n { a } else { n }, if b < n { b } else { n })
}

/// The state and result of one Tab press on `text` with the cursor at
/// `cursor`, given the state `st` left by the previous press.
pub open spec fn spec_advance(st: CycleV, text: Seq<char>, cursor: nat, nicks: Seq<Seq<char>>) -> (
    CycleV,
    Option<CompletionV>,
) {
    let cur = if cursor < text.len() { cursor as int } else { text.len() as int };
    let continuing = st.prefix.len() > 0 && st.last == text;
    let start = if continuing { st.start as int } else { word_start(text, cur) };
    let prefix = if continuing { st.prefix } else { clamp_slice(text, start, cur) };
    let replace_end = if continuing { st.end as int } else { cur };
    let index = if continuing { st.index + 1 } else { 0 };
    if !continuing && prefix.len() == 0 {
        (fresh_cycle(), None)
    } else {
        let is_command = start == 0 && starts_with(prefix, "/"@);
        let found = spec_matches(prefix, nicks, is_command);
        if found.len() == 0 {
            (fresh_cycle(), None)
        } else {
            let i = index % found.len();
            let suffix = if is_command || start != 0 { " "@ } else { ": "@ };
            let insert = found[i as int] + suffix;
            let new_text = clamp_slice(text, 0, start) + insert + clamp_slice(
                text,
                replace_end,
                text.len() as int,
            );
            let new_cursor = (start + insert.len()) as nat;
            (
                CycleV { prefix, start: start as nat, end: new_cursor, index: i, last: new_text },
                Some(CompletionV { text: new_text, cursor: new_cursor, match_count: found.len() }),
            )
        }
    }
}

pub open spec fn opt_completion_view(r: Option<Completion>) -> Option<CompletionV> {
    match r {
        Some(c) => Some(c@),
        None => None,
    }
}

impl TabCycle {
    /// Forget any in-progress cycle. Call when the entry changes for a reason
    /// other than completion, or the next Tab would cycle a stale word.
    pub fn reset(&mut self)
        ensures
            final(self)@ == fresh_cycle(),
    {
        *self = Self::default();
    }

    /// Advance one completion step, returning the new entry contents.
    ///
    /// `nicks` are the candidates for the active channel; they may carry
    /// status prefixes. Returns `None` when there is nothing to complete.
    pub fn advance(&mut self, text: &str, cursor: usize, nicks: &[String]) -> (r: Option<
        Completion,
    >)
        ensures
            (final(self)@, opt_completion_view(r)) == spec_advance(
                old(self)@,
                text@,
                cursor as nat,
                nicks@.map_values(|n: String| n@),
            ),
    {
        proof {
            use_type_invariant(&*self);
        }
        let cs = chars_of(text);
        let cur = if cursor < cs.len() { cursor } else { cs.len() };
        let last = chars_of(self.last.as_str());
        let continuing = !self.prefix.as_str().is_empty() && eq_chars(&last, &cs);
        let (start, prefix, replace_end, index) = if continuing {
            (self.start, chars_of(self.prefix.as_str()), self.end, self.index + 1)
        } else {
            let start = word_start_exec(&cs, cur);
            let prefix = slice_of(&cs, start, cur);
            if prefix.len() == 0 {
                self.reset();
                return None;
            }
            (start, prefix, cur, 0)
        };
        let is_command = start == 0 && crate::text::starts_with_str(&prefix, "/");
        let found = matches_for(&prefix, nicks, is_command);
        if found.len() == 0 {
            self.reset();
            return None;
        }
        let i = index % found.len();
        let mut insert = slice_of(&found[i], 0, found[i].len());
        if is_command || start != 0 {
            insert.push(' ');
            assert(insert@ == found@[i as int]@ + " "@) by {
                reveal_strlit(" ");
            }
        } else {
            insert.push(':');
            insert.push(' ');
            assert(insert@ == found@[i as int]@ + ": "@) by {
                reveal_strlit(": ");
            }
        }
        let mut new_text = slice_of(&cs, 0, start);
        extend(&mut new_text, &insert);
        let new_cursor = new_text.len();
        let tail = slice_of(&cs, replace_end, cs.len());
        extend(&mut new_text, &tail);
        let text_s = string_of(&new_text);
        *self = TabCycle {
            prefix: string_of(&prefix),
            start,
            end: new_cursor,
            index: i,
            last: string_of(&new_text),
        };
        Some(Completion { text: text_s, cursor: new_cursor, match_count: found.len() })
    }
}

} // verus!
