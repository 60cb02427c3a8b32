//! Character-level text helpers shared by the protocol and UI logic.
//!
//! Text is modelled as `Seq<char>`, the view of `&str` and `String`. The
//! executable side works on `Vec<char>` so that every index is a character
//! index, and converts at the edges.
use vstd::prelude::*;
use vstd::utf8::{encode_scalar, encode_utf8, is_ascii_chars};

verus! {

// ---------------------------------------------------------------------------
// Character classes
// ---------------------------------------------------------------------------

/// Unicode `White_Space`, the set that `char::is_whitespace` and `str::trim` use.
pub open spec fn is_ws(c: char) -> bool {
    ||| ('\u{9}' <= c && c <= '\u{d}')
    ||| c == ' '
    ||| c == '\u{85}'
    ||| c == '\u{a0}'
    ||| c == '\u{1680}'
    ||| ('\u{2000}' <= c && c <= '\u{200a}')
    ||| c == '\u{2028}'
    ||| c == '\u{2029}'
    ||| c == '\u{202f}'
    ||| c == '\u{205f}'
    ||| c == '\u{3000}'
}

pub fn is_whitespace(c: char) -> (b: bool)
    ensures
        b == is_ws(c),
{
    ('\u{9}' <= c && c <= '\u{d}') || c == ' ' || c == '\u{85}' || c == '\u{a0}' || c
        == '\u{1680}' || ('\u{2000}' <= c && c <= '\u{200a}') || c == '\u{2028}' || c
        == '\u{2029}' || c == '\u{202f}' || c == '\u{205f}' || c == '\u{3000}'
}

pub open spec fn is_digit(c: char) -> bool {
    '0' <= c && c <= '9'
}

pub fn is_ascii_digit(c: char) -> (b: bool)
    ensures
        b == is_digit(c),
{
    '0' <= c && c <= '9'
}

pub open spec fn is_hex(c: char) -> bool {
    is_digit(c) || ('a' <= c && c <= 'f') || ('A' <= c && c <= 'F')
}

pub fn is_ascii_hexdigit(c: char) -> (b: bool)
    ensures
        b == is_hex(c),
{
    ('0' <= c && c <= '9') || ('a' <= c && c <= 'f') || ('A' <= c && c <= 'F')
}

pub open spec fn is_alnum(c: char) -> bool {
    is_digit(c) || ('a' <= c && c <= 'z') || ('A' <= c && c <= 'Z')
}

pub fn is_ascii_alphanumeric(c: char) -> (b: bool)
    ensures
        b == is_alnum(c),
{
    ('0' <= c && c <= '9') || ('a' <= c && c <= 'z') || ('A' <= c && c <= 'Z')
}

/// The value of an ASCII digit.
pub open spec fn digit_value(c: char) -> nat {
    ((c as u32) - ('0' as u32)) as nat
}

pub open spec fn digit_char(d: nat) -> char
    recommends
        d < 10,
{
    ((d + ('0' as u32)) as u32) as char
}

// ---------------------------------------------------------------------------
// Conversions between &str, String and Vec<char>
// ---------------------------------------------------------------------------

/// The characters of `s`, in order.
pub fn chars_of(s: &str) -> (v: Vec<char>)
    ensures
        v@ == s@,
{
    let mut v: Vec<char> = Vec::new();
    for c in it: s.chars()
        invariant
            v@ == it.seq().take(it.index() as int),
    {
        v.push(c);
    }
    v
}

/// `String::push`: appends one character.
#[verifier::external_body]
fn string_push(s: &mut String, c: char)
    ensures
        final(s)@ == old(s)@.push(c),
{
    s.push(c);
}

/// A `String` holding exactly the characters of `v`.
pub fn string_of(v: &Vec<char>) -> (s: String)
    ensures
        s@ == v@,
{
    let mut s = String::new();
    let mut i: usize = 0;
    while i < v.len()
        invariant
            i <= v.len(),
            s@ == v@.take(i as int),
        decreases v.len() - i,
    {
        string_push(&mut s, v[i]);
        i += 1;
        assert(v@.take(i as int) == v@.take(i - 1).push(v@[i - 1]));
    }
    assert(v@.take(v.len() as int) == v@);
    s
}

/// Appends the bytes `src` to `dst`.
pub fn extend_bytes(dst: &mut Vec<u8>, src: &[u8])
    ensures
        final(dst)@ == old(dst)@ + src@,
{
    let mut i: usize = 0;
    while i < src.len()
        invariant
            i <= src.len(),
            dst@ == old(dst)@ + src@.take(i as int),
        decreases src.len() - i,
    {
        dst.push(src[i]);
        i += 1;
        assert(dst@ =~= old(dst)@ + src@.take(i as int));
    }
    assert(src@.take(src.len() as int) =~= src@);
}

/// UTF-8 encodes a concatenation piece by piece.
pub proof fn lemma_encode_concat(a: Seq<char>, b: Seq<char>)
    ensures
        encode_utf8(a + b) == encode_utf8(a) + encode_utf8(b),
    decreases a.len(),
{
    if a.len() == 0 {
        assert(a + b =~= b);
        assert(encode_utf8(a) =~= Seq::<u8>::empty());
        assert(encode_utf8(a) + encode_utf8(b) =~= encode_utf8(b));
    } else {
        lemma_encode_concat(a.drop_first(), b);
        assert((a + b).drop_first() =~= a.drop_first() + b);
        assert((a + b)[0] == a[0]);
        assert(encode_utf8(a + b) =~= encode_scalar(a[0] as u32) + encode_utf8(a.drop_first() + b));
    }
}

/// Appends `src` to `dst`.
pub fn extend(dst: &mut Vec<char>, src: &Vec<char>)
    ensures
        final(dst)@ == old(dst)@ + src@,
{
    let mut i: usize = 0;
    while i < src.len()
        invariant
            i <= src.len(),
            dst@ == old(dst)@ + src@.take(i as int),
        decreases src.len() - i,
    {
        dst.push(src[i]);
        i += 1;
        assert(src@.take(i as int) == src@.take(i - 1).push(src@[i - 1]));
    }
    assert(src@.take(src.len() as int) == src@);
}

/// Appends the characters of `s` to `dst`.
pub fn extend_str(dst: &mut Vec<char>, s: &str)
    ensures
        final(dst)@ == old(dst)@ + s@,
{
    let v = chars_of(s);
    extend(dst, &v);
}

/// The characters `v[a..b]`.
pub fn slice_of(v: &Vec<char>, a: usize, b: usize) -> (r: Vec<char>)
    requires
        a <= b <= v.len(),
    ensures
        r@ == v@.subrange(a as int, b as int),
{
    let mut r: Vec<char> = Vec::new();
    let mut i = a;
    while i < b
        invariant
            a <= i <= b <= v.len(),
            r@ == v@.subrange(a as int, i as int),
        decreases b - i,
    {
        r.push(v[i]);
        i += 1;
        assert(v@.subrange(a as int, i as int) == v@.subrange(a as int, i - 1).push(v@[i - 1]));
    }
    r
}

/// Whether two character vectors are equal.
pub fn eq_chars(a: &Vec<char>, b: &Vec<char>) -> (r: bool)
    ensures
        r == (a@ == b@),
{
    if a.len() != b.len() {
        return false;
    }
    let mut i: usize = 0;
    while i < a.len()
        invariant
            i <= a.len() == b.len(),
            a@.take(i as int) == b@.take(i as int),
        decreases a.len() - i,
    {
        if a[i] != b[i] {
            assert(a@[i as int] != b@[i as int]);
            return false;
        }
        i += 1;
        assert(a@.take(i as int) == a@.take(i - 1).push(a@[i - 1]));
        assert(b@.take(i as int) == b@.take(i - 1).push(b@[i - 1]));
    }
    assert(a@ == a@.take(a.len() as int));
    assert(b@ == b@.take(b.len() as int));
    true
}

/// Whether `v` holds exactly the characters of `s`.
pub fn eq_str(v: &Vec<char>, s: &str) -> (r: bool)
    ensures
        r == (v@ == s@),
{
    let w = chars_of(s);
    eq_chars(v, &w)
}

// ---------------------------------------------------------------------------
// Prefixes and searching
// ---------------------------------------------------------------------------

pub open spec fn starts_with(s: Seq<char>, p: Seq<char>) -> bool {
    p.len() <= s.len() && s.take(p.len() as int) == p
}

pub open spec fn ends_with(s: Seq<char>, p: Seq<char>) -> bool {
    p.len() <= s.len() && s.skip(s.len() - p.len()) == p
}

/// Whether `p` occurs in `s` at position `i`.
pub open spec fn occurs_at(s: Seq<char>, p: Seq<char>, i: int) -> bool {
    0 <= i && i + p.len() <= s.len() && s.subrange(i, i + p.len()) == p
}

pub open spec fn contains_seq(s: Seq<char>, p: Seq<char>) -> bool {
    exists|i: int| occurs_at(s, p, i)
}

/// Whether `v` starts with `p` at position `at`.
pub fn matches_at(v: &Vec<char>, at: usize, p: &Vec<char>) -> (r: bool)
    requires
        at <= v.len(),
    ensures
        r == occurs_at(v@, p@, at as int),
{
    if p.len() > v.len() - at {
        return false;
    }
    let mut i: usize = 0;
    while i < p.len()
        invariant
            at + p.len() <= v.len(),
            i <= p.len(),
            v@.subrange(at as int, at + i) == p@.take(i as int),
        decreases p.len() - i,
    {
        if v[at + i] != p[i] {
            assert(v@.subrange(at as int, at + p.len())[i as int] != p@[i as int]);
            return false;
        }
        i += 1;
        assert(v@.subrange(at as int, at + i) == v@.subrange(at as int, at + i - 1).push(
            v@[at + i - 1],
        ));
        assert(p@.take(i as int) == p@.take(i - 1).push(p@[i - 1]));
    }
    assert(p@.take(p.len() as int) == p@);
    true
}

pub fn starts_with_chars(v: &Vec<char>, p: &Vec<char>) -> (r: bool)
    ensures
        r == starts_with(v@, p@),
{
    let r = matches_at(v, 0, p);
    proof {
        if p@.len() <= v@.len() {
            assert(v@.subrange(0, p@.len() as int) == v@.take(p@.len() as int));
        }
    }
    r
}

pub fn starts_with_str(v: &Vec<char>, p: &str) -> (r: bool)
    ensures
        r == starts_with(v@, p@),
{
    let w = chars_of(p);
    starts_with_chars(v, &w)
}

/// Index of the first occurrence of `c` at or after `from`, or `s.len()`.
pub open spec fn find_char_from(s: Seq<char>, c: char, from: int) -> int
    decreases s.len() - from,
{
    if from >= s.len() {
        s.len() as int
    } else if s[from] == c {
        from
    } else {
        find_char_from(s, c, from + 1)
    }
}

pub proof fn lemma_find_char_from(s: Seq<char>, c: char, from: int)
    requires
        0 <= from <= s.len(),
    ensures
        from <= find_char_from(s, c, from) <= s.len(),
        forall|k: int| from <= k < find_char_from(s, c, from) ==> s[k] != c,
        find_char_from(s, c, from) < s.len() ==> s[find_char_from(s, c, from)] == c,
    decreases s.len() - from,
{
    if from < s.len() && s[from] != c {
        lemma_find_char_from(s, c, from + 1);
    }
}

pub fn find_char(v: &Vec<char>, c: char, from: usize) -> (r: usize)
    requires
        from <= v.len(),
    ensures
        r == find_char_from(v@, c, from as int),
{
    let mut i = from;
    while i < v.len()
        invariant
            from <= i <= v.len(),
            find_char_from(v@, c, i as int) == find_char_from(v@, c, from as int),
        decreases v.len() - i,
    {
        if v[i] == c {
            return i;
        }
        i += 1;
    }
    i
}

// ---------------------------------------------------------------------------
// Whitespace trimming and words
// ---------------------------------------------------------------------------

/// Index of the first non-whitespace character at or after `i`, or `s.len()`.
pub open spec fn skip_ws(s: Seq<char>, i: int) -> int
    decreases s.len() - i,
{
    if i < s.len() && 0 <= i && is_ws(s[i]) {
        skip_ws(s, i + 1)
    } else {
        i
    }
}

/// Index of the first whitespace character at or after `i`, or `s.len()`.
pub open spec fn skip_word(s: Seq<char>, i: int) -> int
    decreases s.len() - i,
{
    if i < s.len() && 0 <= i && !is_ws(s[i]) {
        skip_word(s, i + 1)
    } else {
        i
    }
}

/// One past the last non-whitespace character before `j`, or 0.
pub open spec fn back_ws(s: Seq<char>, j: int) -> int
    decreases j,
{
    if 0 < j && j <= s.len() && is_ws(s[j - 1]) {
        back_ws(s, j - 1)
    } else {
        j
    }
}

pub open spec fn trim_start(s: Seq<char>) -> Seq<char> {
    s.skip(skip_ws(s, 0))
}

pub open spec fn trim_end(s: Seq<char>) -> Seq<char> {
    s.take(back_ws(s, s.len() as int))
}

/// `str::trim`: no leading or trailing whitespace.
pub open spec fn trim(s: Seq<char>) -> Seq<char> {
    trim_end(trim_start(s))
}

pub proof fn lemma_skip_ws(s: Seq<char>, i: int)
    requires
        0 <= i <= s.len(),
    ensures
        i <= skip_ws(s, i) <= s.len(),
        forall|k: int| i <= k < skip_ws(s, i) ==> is_ws(s[k]),
        skip_ws(s, i) < s.len() ==> !is_ws(s[skip_ws(s, i)]),
    decreases s.len() - i,
{
    if i < s.len() && is_ws(s[i]) {
        lemma_skip_ws(s, i + 1);
    }
}

pub proof fn lemma_skip_word(s: Seq<char>, i: int)
    requires
        0 <= i <= s.len(),
    ensures
        i <= skip_word(s, i) <= s.len(),
        forall|k: int| i <= k < skip_word(s, i) ==> !is_ws(s[k]),
        skip_word(s, i) < s.len() ==> is_ws(s[skip_word(s, i)]),
    decreases s.len() - i,
{
    if i < s.len() && !is_ws(s[i]) {
        lemma_skip_word(s, i + 1);
    }
}

pub proof fn lemma_back_ws(s: Seq<char>, j: int)
    requires
        0 <= j <= s.len(),
    ensures
        0 <= back_ws(s, j) <= j,
        forall|k: int| back_ws(s, j) <= k < j ==> is_ws(s[k]),
        back_ws(s, j) > 0 ==> !is_ws(s[back_ws(s, j) - 1]),
    decreases j,
{
    if 0 < j && is_ws(s[j - 1]) {
        lemma_back_ws(s, j - 1);
    }
}

pub fn skip_ws_exec(v: &Vec<char>, from: usize) -> (r: usize)
    requires
        from <= v.len(),
    ensures
        r == skip_ws(v@, from as int),
        from <= r <= v.len(),
{
    let mut i = from;
    while i < v.len() && is_whitespace(v[i])
        invariant
            from <= i <= v.len(),
            skip_ws(v@, i as int) == skip_ws(v@, from as int),
        decreases v.len() - i,
    {
        i += 1;
    }
    i
}

pub fn skip_word_exec(v: &Vec<char>, from: usize) -> (r: usize)
    requires
        from <= v.len(),
    ensures
        r == skip_word(v@, from as int),
        from <= r <= v.len(),
{
    let mut i = from;
    while i < v.len() && !is_whitespace(v[i])
        invariant
            from <= i <= v.len(),
            skip_word(v@, i as int) == skip_word(v@, from as int),
        decreases v.len() - i,
    {
        i += 1;
    }
    i
}

pub fn back_ws_exec(v: &Vec<char>, to: usize) -> (r: usize)
    requires
        to <= v.len(),
    ensures
        r == back_ws(v@, to as int),
        r <= to,
{
    let mut j = to;
    while j > 0 && is_whitespace(v[j - 1])
        invariant
            j <= to <= v.len(),
            back_ws(v@, j as int) == back_ws(v@, to as int),
        decreases j,
    {
        j -= 1;
    }
    j
}

pub fn trim_start_vec(v: &Vec<char>) -> (r: Vec<char>)
    ensures
        r@ == trim_start(v@),
{
    let i = skip_ws_exec(v, 0);
    slice_of(v, i, v.len())
}

pub fn trim_end_vec(v: &Vec<char>) -> (r: Vec<char>)
    ensures
        r@ == trim_end(v@),
{
    let j = back_ws_exec(v, v.len());
    slice_of(v, 0, j)
}

pub fn trim_vec(v: &Vec<char>) -> (r: Vec<char>)
    ensures
        r@ == trim(v@),
{
    let t = trim_start_vec(v);
    trim_end_vec(&t)
}

// ---------------------------------------------------------------------------
// Decimal numbers
// ---------------------------------------------------------------------------

/// The decimal digits of `n`, with no leading zeros ("0" for zero).
pub open spec fn dec(n: nat) -> Seq<char>
    decreases n,
{
    if n < 10 {
        seq![digit_char(n)]
    } else {
        dec(n / 10).push(digit_char(n % 10))
    }
}

/// The decimal rendering of `n`, as `format!("{n}")` prints it.
pub fn u64_dec(n: u64) -> (r: Vec<char>)
    ensures
        r@ == dec(n as nat),
    decreases n,
{
    if n < 10 {
        let mut r: Vec<char> = Vec::new();
        r.push(digit_of(n));
        r
    } else {
        let mut r = u64_dec(n / 10);
        r.push(digit_of(n % 10));
        r
    }
}

fn digit_of(d: u64) -> (c: char)
    requires
        d < 10,
    ensures
        c == digit_char(d as nat),
{
    if d == 0 { '0' }
    else if d == 1 { '1' }
    else if d == 2 { '2' }
    else if d == 3 { '3' }
    else if d == 4 { '4' }
    else if d == 5 { '5' }
    else if d == 6 { '6' }
    else if d == 7 { '7' }
    else if d == 8 { '8' }
    else { '9' }
}

// ---------------------------------------------------------------------------
// Words
// ---------------------------------------------------------------------------

/// The whitespace-separated words of `s[i..]`, as `split_whitespace` yields them.
pub open spec fn words_from(s: Seq<char>, i: int) -> Seq<Seq<char>>
    decreases s.len() - i,
{
    if i < 0 || i > s.len() {
        seq![]
    } else {
        let a = skip_ws(s, i);
        if a >= s.len() {
            seq![]
        } else {
            let b = skip_word(s, a);
            proof {
                lemma_skip_ws(s, i);
                lemma_skip_word(s, a);
            }
            seq![s.subrange(a, b)] + words_from(s, b)
        }
    }
}

pub open spec fn words(s: Seq<char>) -> Seq<Seq<char>> {
    words_from(s, 0)
}

/// The words joined by single spaces, as `join(" ")` does.
pub open spec fn join_sp(ws: Seq<Seq<char>>) -> Seq<char>
    decreases ws.len(),
{
    if ws.len() == 0 {
        seq![]
    } else if ws.len() == 1 {
        ws[0]
    } else {
        join_sp(ws.drop_last()) + seq![' '] + ws.last()
    }
}

pub open spec fn views(v: Seq<Vec<char>>) -> Seq<Seq<char>> {
    v.map_values(|w: Vec<char>| w@)
}

/// The whitespace-separated words of `v`.
pub fn split_words(v: &Vec<char>) -> (r: Vec<Vec<char>>)
    ensures
        views(r@) == words(v@),
{
    let mut r: Vec<Vec<char>> = Vec::new();
    let mut i: usize = 0;
    loop
        invariant
            i <= v.len(),
            views(r@) + words_from(v@, i as int) == words(v@),
        decreases v.len() - i,
    {
        let a = skip_ws_exec(v, i);
        if a >= v.len() {
            assert(words_from(v@, i as int) == Seq::<Seq<char>>::empty());
            assert(views(r@) + Seq::<Seq<char>>::empty() == views(r@));
            return r;
        }
        let b = skip_word_exec(v, a);
        proof {
            lemma_skip_word(v@, a as int);
        }
        let w = slice_of(v, a, b);
        let ghost old_r = r@;
        r.push(w);
        assert(views(r@) == views(old_r).push(w@));
        assert(words_from(v@, i as int) == seq![v@.subrange(a as int, b as int)] + words_from(
            v@,
            b as int,
        ));
        assert(views(r@) + words_from(v@, b as int) == views(old_r) + words_from(v@, i as int));
        i = b;
    }
}

/// The words of `ws` joined by single spaces.
pub fn join_words(ws: &Vec<Vec<char>>) -> (r: Vec<char>)
    ensures
        r@ == join_sp(views(ws@)),
{
    let mut r: Vec<char> = Vec::new();
    let mut i: usize = 0;
    while i < ws.len()
        invariant
            i <= ws.len(),
            r@ == join_sp(views(ws@).take(i as int)),
        decreases ws.len() - i,
    {
        let ghost pre = views(ws@).take(i as int);
        if i > 0 {
            r.push(' ');
        }
        extend(&mut r, &ws[i]);
        i += 1;
        assert(views(ws@).take(i as int).drop_last() == pre);
        assert(views(ws@).take(i as int).last() == ws@[i - 1]@);
        if i == 1 {
            assert(pre.len() == 0);
        }
    }
    assert(views(ws@).take(ws.len() as int) == views(ws@));
    r
}

/// `n` copies of `c`.
pub open spec fn repeat_char(c: char, n: nat) -> Seq<char> {
    Seq::new(n, |_i: int| c)
}

pub fn repeat_exec(c: char, n: usize) -> (r: Vec<char>)
    ensures
        r@ == repeat_char(c, n as nat),
{
    let mut r: Vec<char> = Vec::new();
    let mut i: usize = 0;
    while i < n
        invariant
            i <= n,
            r@ == repeat_char(c, i as nat),
        decreases n - i,
    {
        r.push(c);
        i += 1;
        assert(r@ == repeat_char(c, i as nat));
    }
    r
}

// ---------------------------------------------------------------------------
// Case mapping (std's Unicode tables)
// ---------------------------------------------------------------------------

/// What `str::to_uppercase` returns for a string.
pub uninterp spec fn spec_uppercase(s: Seq<char>) -> Seq<char>;

/// What `str::to_lowercase` returns for a string.
pub uninterp spec fn spec_lowercase(s: Seq<char>) -> Seq<char>;

/// ASCII uppercase of one character: `a`..=`z` become `A`..=`Z`, every
/// other character stays.
pub open spec fn ascii_upper(c: char) -> char {
    if 'a' <= c && c <= 'z' {
        ((c as u32) - 32) as char
    } else {
        c
    }
}

/// ASCII lowercase of one character: `A`..=`Z` become `a`..=`z`, every
/// other character stays.
pub open spec fn ascii_lower(c: char) -> char {
    if 'A' <= c && c <= 'Z' {
        ((c as u32) + 32) as char
    } else {
        c
    }
}

/// `eq_ignore_ascii_case`: equal lengths, and equal characters once ASCII
/// letters are lowercased.
pub open spec fn eq_ignore_ascii_case(a: Seq<char>, b: Seq<char>) -> bool {
    a.len() == b.len() && forall|k: int| 0 <= k < a.len() ==> ascii_lower(#[trigger] a[k]) == ascii_lower(b[k])
}

/// The uppercase form of a string: letter by letter on ASCII text, std's
/// Unicode mapping otherwise.
pub open spec fn uppercase(s: Seq<char>) -> Seq<char> {
    if is_ascii_chars(s) {
        s.map_values(|c: char| ascii_upper(c))
    } else {
        spec_uppercase(s)
    }
}

/// The lowercase form of a string: letter by letter on ASCII text, std's
/// Unicode mapping otherwise.
pub open spec fn lowercase(s: Seq<char>) -> Seq<char> {
    if is_ascii_chars(s) {
        s.map_values(|c: char| ascii_lower(c))
    } else {
        spec_lowercase(s)
    }
}

/// `str::to_uppercase`. Its Unicode mapping is named, not restated: the
/// result is a function of the input alone. On ASCII text, which the
/// Unicode case tables map letter by letter, `a`..=`z` become `A`..=`Z`
/// and every other character stays.
#[verifier::external_body]
fn str_to_uppercase(s: &str) -> (r: String)
    ensures
        r@ == spec_uppercase(s@),
        is_ascii_chars(s@) ==> r@ == s@.map_values(|c: char| ascii_upper(c)),
{
    s.to_uppercase()
}

/// `str::to_lowercase`. Its Unicode mapping is named, not restated: the
/// result is a function of the input alone. On ASCII text, which the
/// Unicode case tables map letter by letter, `A`..=`Z` become `a`..=`z`
/// and every other character stays.
#[verifier::external_body]
fn str_to_lowercase(s: &str) -> (r: String)
    ensures
        r@ == spec_lowercase(s@),
        is_ascii_chars(s@) ==> r@ == s@.map_values(|c: char| ascii_lower(c)),
{
    s.to_lowercase()
}

/// The uppercase form of `v`.
pub fn upper_chars(v: &Vec<char>) -> (r: Vec<char>)
    ensures
        r@ == uppercase(v@),
{
    let s = string_of(v);
    let u = str_to_uppercase(s.as_str());
    chars_of(u.as_str())
}

/// The lowercase form of `v`.
pub fn lower_chars(v: &Vec<char>) -> (r: Vec<char>)
    ensures
        r@ == lowercase(v@),
{
    let s = string_of(v);
    let u = str_to_lowercase(s.as_str());
    chars_of(u.as_str())
}

/// On ASCII text, two strings have the same lowercase form exactly when
/// they are equal ignoring ASCII case.
pub proof fn lowercase_ignores_ascii_case(a: Seq<char>, b: Seq<char>)
    requires
        is_ascii_chars(a),
        is_ascii_chars(b),
    ensures
        (lowercase(a) == lowercase(b)) == eq_ignore_ascii_case(a, b),
{
    let la = lowercase(a);
    let lb = lowercase(b);
    if la == lb {
        assert(a.len() == la.len() && b.len() == lb.len());
        assert forall|k: int| 0 <= k < a.len() implies ascii_lower(#[trigger] a[k]) == ascii_lower(b[k]) by {
            assert(la[k] == lb[k]);
        }
    }
    if eq_ignore_ascii_case(a, b) {
        assert(la =~= lb);
    }
}

// ---------------------------------------------------------------------------
// Parsing decimal numbers, as `str::parse` does for integers
// ---------------------------------------------------------------------------

pub open spec fn all_digits(s: Seq<char>) -> bool {
    forall|k: int| 0 <= k < s.len() ==> is_digit(#[trigger] s[k])
}

/// The value of a string of decimal digits.
pub open spec fn digits_value(s: Seq<char>) -> nat
    decreases s.len(),
{
    if s.len() == 0 {
        0
    } else {
        digits_value(s.drop_last()) * 10 + digit_value(s.last())
    }
}

/// The digits after an optional leading `+`.
pub open spec fn unsigned_body(s: Seq<char>) -> Seq<char> {
    if s.len() > 0 && s[0] == '+' {
        s.skip(1)
    } else {
        s
    }
}

/// What `s.parse::<u64>()` gives: an optional `+`, then one or more digits
/// whose value fits.
pub open spec fn spec_parse_u64(s: Seq<char>) -> Option<u64> {
    let b = unsigned_body(s);
    if b.len() > 0 && all_digits(b) && digits_value(b) <= u64::MAX {
        Some(digits_value(b) as u64)
    } else {
        None
    }
}

/// What `s.parse::<i64>()` gives: an optional sign, then one or more digits
/// whose signed value fits.
pub open spec fn spec_parse_i64(s: Seq<char>) -> Option<i64> {
    if s.len() > 0 && s[0] == '-' {
        let b = s.skip(1);
        if b.len() > 0 && all_digits(b) && digits_value(b) <= 0x8000_0000_0000_0000 {
            Some((0 - digits_value(b)) as i64)
        } else {
            None
        }
    } else {
        let b = unsigned_body(s);
        if b.len() > 0 && all_digits(b) && digits_value(b) <= i64::MAX {
            Some(digits_value(b) as i64)
        } else {
            None
        }
    }
}

proof fn lemma_digits_value_mono(s: Seq<char>, k: int)
    requires
        0 <= k <= s.len(),
    ensures
        digits_value(s.take(k)) <= digits_value(s),
    decreases s.len() - k,
{
    if k < s.len() {
        lemma_digits_value_mono(s, k + 1);
        assert(s.take(k + 1).drop_last() == s.take(k));
    } else {
        assert(s.take(k) == s);
    }
}

/// The value of the digits `v[from..]`, or `None` when one is not a digit,
/// there are none, or the value exceeds `max`.
fn digits_upto(v: &Vec<char>, from: usize, max: u64) -> (r: Option<u64>)
    requires
        from <= v.len(),
        max >= 9,
    ensures
        match r {
            Some(n) => {
                let b = v@.skip(from as int);
                &&& b.len() > 0
                &&& all_digits(b)
                &&& n == digits_value(b)
                &&& n <= max
            },
            None => {
                let b = v@.skip(from as int);
                !(b.len() > 0 && all_digits(b) && digits_value(b) <= max)
            },
        },
{
    let ghost b = v@.skip(from as int);
    if from == v.len() {
        return None;
    }
    let mut acc: u64 = 0;
    let mut i = from;
    while i < v.len()
        invariant
            from <= i <= v.len(),
            b == v@.skip(from as int),
            all_digits(b.take(i - from)),
            acc == digits_value(b.take(i - from)),
            acc <= max,
            max >= 9,
        decreases v.len() - i,
    {
        let c = v[i];
        assert(b[i - from] == c);
        if !is_ascii_digit(c) {
            return None;
        }
        let d = (c as u64) - ('0' as u64);
        assert(b.take(i - from + 1).drop_last() == b.take(i - from));
        assert(b.take(i - from + 1).last() == c);
        if acc > max / 10 || acc * 10 > max - d {
            proof {
                assert(digits_value(b.take(i - from + 1)) > max) by (nonlinear_arith)
                    requires
                        digits_value(b.take(i - from + 1)) == acc * 10 + d,
                        acc > max / 10 || acc * 10 > max - d,
                        d <= 9,
                        max >= 9,
                ;
                lemma_digits_value_mono(b, i - from + 1);
            }
            return None;
        }
        acc = acc * 10 + d;
        i += 1;
        assert forall|k: int| 0 <= k < b.take(i - from).len() implies is_digit(
            #[trigger] b.take(i - from)[k],
        ) by {
            if k < i - from - 1 {
                assert(b.take(i - from)[k] == b.take(i - from - 1)[k]);
            }
        }
    }
    assert(b.take(v.len() - from) == b);
    Some(acc)
}

/// `s.parse::<u64>()`.
pub fn parse_u64(v: &Vec<char>) -> (r: Option<u64>)
    ensures
        r == spec_parse_u64(v@),
{
    let from: usize = if v.len() > 0 && v[0] == '+' { 1 } else { 0 };
    assert(v@.skip(0) == v@);
    digits_upto(v, from, u64::MAX)
}

/// `s.parse::<i64>()`.
pub fn parse_i64(v: &Vec<char>) -> (r: Option<i64>)
    ensures
        r == spec_parse_i64(v@),
{
    assert(v@.skip(0) == v@);
    if v.len() > 0 && v[0] == '-' {
        match digits_upto(v, 1, 0x8000_0000_0000_0000) {
            Some(n) => {
                if n == 0x8000_0000_0000_0000 {
                    Some(i64::MIN)
                } else {
                    Some(-(n as i64))
                }
            },
            None => None,
        }
    } else {
        let from: usize = if v.len() > 0 && v[0] == '+' { 1 } else { 0 };
        match digits_upto(v, from, 0x7fff_ffff_ffff_ffff) {
            Some(n) => Some(n as i64),
            None => None,
        }
    }
}

pub proof fn lemma_digit_char(d: nat)
    requires
        d < 10,
    ensures
        digit_value(digit_char(d)) == d,
        is_digit(digit_char(d)),
        digit_char(d) != '+',
        digit_char(d) != '-',
{
    assert(d == 0 || d == 1 || d == 2 || d == 3 || d == 4 || d == 5 || d == 6 || d == 7 || d == 8
        || d == 9);
}

/// The digits of `dec(n)` spell `n` back.
pub proof fn lemma_dec_digits(n: nat)
    ensures
        dec(n).len() > 0,
        all_digits(dec(n)),
        digits_value(dec(n)) == n,
        dec(n)[0] != '+' && dec(n)[0] != '-',
    decreases n,
{
    lemma_digit_char(n % 10);
    if n < 10 {
        lemma_digit_char(n);
        assert(dec(n).drop_last() =~= Seq::<char>::empty());
        assert(dec(n).last() == digit_char(n));
        assert(digits_value(dec(n)) == digits_value(Seq::<char>::empty()) * 10 + digit_value(
            digit_char(n),
        ));
    }
    if n >= 10 {
        lemma_dec_digits(n / 10);
        let p = dec(n / 10);
        assert(dec(n).drop_last() == p);
        assert(dec(n).last() == digit_char(n % 10));
        assert(n == (n / 10) * 10 + n % 10);
        assert(digits_value(dec(n)) == digits_value(p) * 10 + digit_value(digit_char(n % 10)));
        assert(dec(n)[0] == p[0]);
        assert forall|k: int| 0 <= k < dec(n).len() implies is_digit(#[trigger] dec(n)[k]) by {
            if k < p.len() {
                assert(dec(n)[k] == p[k]);
            }
        }
    }
}

/// Parsing the decimal rendering of a `u64` gives the number back.
pub proof fn lemma_parse_dec(n: u64)
    ensures
        spec_parse_u64(dec(n as nat)) == Some(n),
{
    lemma_dec_digits(n as nat);
}


// ---------------------------------------------------------------------------
// Substring search and stripping, as `split_once`, `strip_prefix` and the
// `trim_*_matches` family do it
// ---------------------------------------------------------------------------

/// Index of the first occurrence of `p` at or after `from`, or `s.len()`.
pub open spec fn find_seq_from(s: Seq<char>, p: Seq<char>, from: int) -> int
    decreases s.len() - from,
{
    if from < 0 || from >= s.len() {
        s.len() as int
    } else if occurs_at(s, p, from) {
        from
    } else {
        find_seq_from(s, p, from + 1)
    }
}

pub proof fn lemma_find_seq_from(s: Seq<char>, p: Seq<char>, from: int)
    requires
        0 <= from <= s.len(),
    ensures
        from <= find_seq_from(s, p, from) <= s.len(),
        find_seq_from(s, p, from) < s.len() ==> occurs_at(s, p, find_seq_from(s, p, from)),
        forall|k: int| from <= k < find_seq_from(s, p, from) ==> !occurs_at(s, p, k),
    decreases s.len() - from,
{
    if from < s.len() && !occurs_at(s, p, from) {
        lemma_find_seq_from(s, p, from + 1);
    }
}

/// A non-empty `p` occurs in `s` exactly when the search finds it.
pub proof fn lemma_contains_find(s: Seq<char>, p: Seq<char>)
    requires
        p.len() > 0,
    ensures
        contains_seq(s, p) <==> find_seq_from(s, p, 0) < s.len(),
{
    lemma_find_seq_from(s, p, 0);
    if contains_seq(s, p) {
        let k = choose|k: int| occurs_at(s, p, k);
        assert(k < s.len());
    }
    if find_seq_from(s, p, 0) < s.len() {
        assert(occurs_at(s, p, find_seq_from(s, p, 0)));
    }
}

/// The first index at or after `from` where `p` occurs in `v`, or `v.len()`.
pub fn find_seq(v: &Vec<char>, p: &Vec<char>, from: usize) -> (r: usize)
    requires
        from <= v.len(),
    ensures
        r == find_seq_from(v@, p@, from as int),
        from <= r <= v.len(),
{
    let mut i = from;
    while i < v.len()
        invariant
            from <= i <= v.len(),
            find_seq_from(v@, p@, i as int) == find_seq_from(v@, p@, from as int),
        decreases v.len() - i,
    {
        if matches_at(v, i, p) {
            return i;
        }
        i += 1;
    }
    i
}

/// `str::strip_prefix`.
pub open spec fn strip_prefix(s: Seq<char>, p: Seq<char>) -> Option<Seq<char>> {
    if starts_with(s, p) {
        Some(s.skip(p.len() as int))
    } else {
        None
    }
}

pub fn strip_prefix_vec(v: &Vec<char>, p: &str) -> (r: Option<Vec<char>>)
    ensures
        match r {
            Some(w) => strip_prefix(v@, p@) == Some(w@),
            None => strip_prefix(v@, p@) is None,
        },
{
    let pv = chars_of(p);
    if starts_with_chars(v, &pv) {
        let w = slice_of(v, pv.len(), v.len());
        assert(w@ == v@.skip(pv@.len() as int));
        Some(w)
    } else {
        None
    }
}

/// `str::split_once` on a pattern: the text before its first occurrence and
/// the text after it.
pub open spec fn split_once(s: Seq<char>, p: Seq<char>) -> Option<(Seq<char>, Seq<char>)> {
    let i = find_seq_from(s, p, 0);
    if i < s.len() {
        Some((s.take(i), s.skip(i + p.len())))
    } else {
        None
    }
}

pub fn split_once_vec(v: &Vec<char>, p: &str) -> (r: Option<(Vec<char>, Vec<char>)>)
    ensures
        match r {
            Some((a, b)) => split_once(v@, p@) == Some((a@, b@)),
            None => split_once(v@, p@) is None,
        },
{
    let pv = chars_of(p);
    let i = find_seq(v, &pv, 0);
    if i < v.len() {
        proof {
            lemma_find_seq_from(v@, pv@, 0);
        }
        let a = slice_of(v, 0, i);
        let b = slice_of(v, i + pv.len(), v.len());
        assert(a@ == v@.take(i as int));
        assert(b@ == v@.skip(i + pv@.len()));
        Some((a, b))
    } else {
        None
    }
}

/// Index of the first character at or after `i` that is not `c`.
pub open spec fn skip_char(s: Seq<char>, c: char, i: int) -> int
    decreases s.len() - i,
{
    if 0 <= i < s.len() && s[i] == c {
        skip_char(s, c, i + 1)
    } else {
        i
    }
}

/// One past the last character before `j` that is not `c`.
pub open spec fn back_char(s: Seq<char>, c: char, j: int) -> int
    decreases j,
{
    if 0 < j <= s.len() && s[j - 1] == c {
        back_char(s, c, j - 1)
    } else {
        j
    }
}

/// `str::trim_start_matches` with a character.
pub open spec fn trim_start_char(s: Seq<char>, c: char) -> Seq<char> {
    s.skip(skip_char(s, c, 0))
}

/// `str::trim_end_matches` with a character.
pub open spec fn trim_end_char(s: Seq<char>, c: char) -> Seq<char> {
    s.take(back_char(s, c, s.len() as int))
}

pub proof fn lemma_skip_char(s: Seq<char>, c: char, i: int)
    requires
        0 <= i <= s.len(),
    ensures
        i <= skip_char(s, c, i) <= s.len(),
    decreases s.len() - i,
{
    if i < s.len() && s[i] == c {
        lemma_skip_char(s, c, i + 1);
    }
}

pub proof fn lemma_back_char(s: Seq<char>, c: char, j: int)
    requires
        0 <= j <= s.len(),
    ensures
        0 <= back_char(s, c, j) <= j,
    decreases j,
{
    if 0 < j && s[j - 1] == c {
        lemma_back_char(s, c, j - 1);
    }
}

pub fn trim_start_char_vec(v: &Vec<char>, c: char) -> (r: Vec<char>)
    ensures
        r@ == trim_start_char(v@, c),
{
    let mut i: usize = 0;
    while i < v.len() && v[i] == c
        invariant
            i <= v.len(),
            skip_char(v@, c, i as int) == skip_char(v@, c, 0),
        decreases v.len() - i,
    {
        i += 1;
    }
    slice_of(v, i, v.len())
}

pub fn trim_end_char_vec(v: &Vec<char>, c: char) -> (r: Vec<char>)
    ensures
        r@ == trim_end_char(v@, c),
{
    let mut j: usize = v.len();
    while j > 0 && v[j - 1] == c
        invariant
            j <= v.len(),
            back_char(v@, c, j as int) == back_char(v@, c, v.len() as int),
        decreases j,
    {
        j -= 1;
    }
    slice_of(v, 0, j)
}

/// `str::trim_start_matches` with a string: every leading copy of `p` removed.
pub open spec fn strip_all_prefix(s: Seq<char>, p: Seq<char>) -> Seq<char>
    decreases s.len(),
{
    if p.len() > 0 && starts_with(s, p) {
        strip_all_prefix(s.skip(p.len() as int), p)
    } else {
        s
    }
}

pub fn strip_all_prefix_vec(v: &Vec<char>, p: &str) -> (r: Vec<char>)
    ensures
        r@ == strip_all_prefix(v@, p@),
{
    let pv = chars_of(p);
    let mut cur = slice_of(v, 0, v.len());
    assert(cur@ == v@);
    if pv.len() == 0 {
        return cur;
    }
    while starts_with_chars(&cur, &pv)
        invariant
            pv@ == p@,
            pv.len() > 0,
            strip_all_prefix(cur@, pv@) == strip_all_prefix(v@, pv@),
        decreases cur.len(),
    {
        cur = slice_of(&cur, pv.len(), cur.len());
    }
    cur
}


/// Whether `p` occurs in `v`.
pub fn contains_chars(v: &Vec<char>, p: &Vec<char>) -> (r: bool)
    ensures
        r == contains_seq(v@, p@),
{
    if p.len() == 0 {
        assert(occurs_at(v@, p@, 0)) by {
            assert(v@.subrange(0, 0) =~= p@);
        }
        return true;
    }
    proof {
        lemma_contains_find(v@, p@);
    }
    find_seq(v, p, 0) < v.len()
}

} // verus!
