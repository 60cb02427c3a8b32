//! Removal of IRC inline formatting codes.
//!
//! Messages carry formatting in-band as control characters. The buffer view is
//! plain text, so the codes would otherwise show up as stray control
//! characters or invisible junk that breaks alignment and search.
use vstd::prelude::*;
use crate::text::{chars_of, is_ascii_digit, is_ascii_hexdigit, is_digit, is_hex, string_of};

verus! {

/// The codes that toggle a style and carry no payload: bold, italic,
/// underline, strikethrough, monospace, reverse and reset.
pub open spec fn is_toggle(c: char) -> bool {
    c == '\u{2}' || c == '\u{1d}' || c == '\u{1f}' || c == '\u{1e}' || c == '\u{11}' || c
        == '\u{16}' || c == '\u{f}'
}

/// Every character that opens a formatting code.
pub open spec fn is_format_code(c: char) -> bool {
    is_toggle(c) || c == '\u{3}' || c == '\u{4}'
}

/// Index past at most `n` digits starting at `k`.
pub open spec fn take_digits(s: Seq<char>, k: int, n: nat) -> int
    decreases n,
{
    if n > 0 && 0 <= k < s.len() && is_digit(s[k]) {
        take_digits(s, k + 1, (n - 1) as nat)
    } else {
        k
    }
}

/// Index past at most `n` hex digits starting at `k`.
pub open spec fn take_hex(s: Seq<char>, k: int, n: nat) -> int
    decreases n,
{
    if n > 0 && 0 <= k < s.len() && is_hex(s[k]) {
        take_hex(s, k + 1, (n - 1) as nat)
    } else {
        k
    }
}

/// Index past a `\x03` colour code's payload starting at `k`: up to two
/// digits, then a comma and up to two more only when a digit follows it.
pub open spec fn colour_end(s: Seq<char>, k: int) -> int {
    let d = take_digits(s, k, 2);
    if d > k && d + 1 < s.len() && s[d] == ',' && is_digit(s[d + 1]) {
        take_digits(s, d + 1, 2)
    } else {
        d
    }
}

/// Index past a `\x04` hex colour code's payload starting at `k`: up to six
/// hex digits, then a comma and up to six more only when one follows it.
pub open spec fn hex_end(s: Seq<char>, k: int) -> int {
    let d = take_hex(s, k, 6);
    if d > k && d + 1 < s.len() && s[d] == ',' && is_hex(s[d + 1]) {
        take_hex(s, d + 1, 6)
    } else {
        d
    }
}

pub proof fn lemma_take_digits(s: Seq<char>, k: int, n: nat)
    requires
        0 <= k <= s.len(),
    ensures
        k <= take_digits(s, k, n) <= s.len(),
        take_digits(s, k, n) <= k + n,
    decreases n,
{
    if n > 0 && k < s.len() && is_digit(s[k]) {
        lemma_take_digits(s, k + 1, (n - 1) as nat);
    }
}

pub proof fn lemma_take_hex(s: Seq<char>, k: int, n: nat)
    requires
        0 <= k <= s.len(),
    ensures
        k <= take_hex(s, k, n) <= s.len(),
        take_hex(s, k, n) <= k + n,
    decreases n,
{
    if n > 0 && k < s.len() && is_hex(s[k]) {
        lemma_take_hex(s, k + 1, (n - 1) as nat);
    }
}

pub proof fn lemma_code_ends(s: Seq<char>, k: int)
    requires
        0 <= k <= s.len(),
    ensures
        k <= colour_end(s, k) <= s.len(),
        k <= hex_end(s, k) <= s.len(),
{
    lemma_take_digits(s, k, 2);
    let d = take_digits(s, k, 2);
    if d > k && d + 1 < s.len() && s[d] == ',' && is_digit(s[d + 1]) {
        lemma_take_digits(s, d + 1, 2);
    }
    lemma_take_hex(s, k, 6);
    let h = take_hex(s, k, 6);
    if h > k && h + 1 < s.len() && s[h] == ',' && is_hex(s[h + 1]) {
        lemma_take_hex(s, h + 1, 6);
    }
}

/// The readable text of `s[i..]`: formatting codes and their payloads removed.
pub open spec fn strip_from(s: Seq<char>, i: int) -> Seq<char>
    decreases s.len() - i,
{
    if i < 0 || i >= s.len() {
        seq![]
    } else {
        let c = s[i];
        if is_toggle(c) {
            strip_from(s, i + 1)
        } else if c == '\u{3}' {
            proof {
                lemma_code_ends(s, i + 1);
            }
            strip_from(s, colour_end(s, i + 1))
        } else if c == '\u{4}' {
            proof {
                lemma_code_ends(s, i + 1);
            }
            strip_from(s, hex_end(s, i + 1))
        } else {
            seq![c] + strip_from(s, i + 1)
        }
    }
}

pub open spec fn spec_strip(s: Seq<char>) -> Seq<char> {
    strip_from(s, 0)
}

fn take_digits_exec(s: &Vec<char>, k: usize, n: usize) -> (r: usize)
    requires
        k <= s.len(),
    ensures
        r == take_digits(s@, k as int, n as nat),
        k <= r <= s.len(),
{
    let mut i = k;
    let mut m = n;
    while m > 0 && i < s.len() && is_ascii_digit(s[i])
        invariant
            k <= i <= s.len(),
            take_digits(s@, i as int, m as nat) == take_digits(s@, k as int, n as nat),
        decreases m,
    {
        i += 1;
        m -= 1;
    }
    i
}

fn take_hex_exec(s: &Vec<char>, k: usize, n: usize) -> (r: usize)
    requires
        k <= s.len(),
    ensures
        r == take_hex(s@, k as int, n as nat),
        k <= r <= s.len(),
{
    let mut i = k;
    let mut m = n;
    while m > 0 && i < s.len() && is_ascii_hexdigit(s[i])
        invariant
            k <= i <= s.len(),
            take_hex(s@, i as int, m as nat) == take_hex(s@, k as int, n as nat),
        decreases m,
    {
        i += 1;
        m -= 1;
    }
    i
}

/// Strips mIRC/IRCv3 formatting codes, leaving the readable text.
///
/// Handles bold, italic, underline, strikethrough, monospace, reverse and
/// reset, plus `\x03` colour (`\x03`, `\x03N`, `\x03N,M`) and `\x04` hex
/// colour (`\x04RRGGBB[,RRGGBB]`).
pub fn strip_formatting(s: &str) -> (r: String)
    ensures
        r@ == spec_strip(s@),
{
    let cs = chars_of(s);
    let mut out: Vec<char> = Vec::new();
    let mut i: usize = 0;
    while i < cs.len()
        invariant
            i <= cs.len(),
            out@ + strip_from(cs@, i as int) == spec_strip(cs@),
        decreases cs.len() - i,
    {
        let c = cs[i];
        if c == '\u{2}' || c == '\u{1d}' || c == '\u{1f}' || c == '\u{1e}' || c == '\u{11}' || c
            == '\u{16}' || c == '\u{f}' {
            i += 1;
        } else if c == '\u{3}' {
            let d = take_digits_exec(&cs, i + 1, 2);
            let mut j = d;
            if d > i + 1 && cs.len() - d > 1 && cs[d] == ',' && is_ascii_digit(cs[d + 1]) {
                j = take_digits_exec(&cs, d + 1, 2);
            }
            assert(j == colour_end(cs@, i + 1));
            i = j;
        } else if c == '\u{4}' {
            let d = take_hex_exec(&cs, i + 1, 6);
            let mut j = d;
            if d > i + 1 && cs.len() - d > 1 && cs[d] == ',' && is_ascii_hexdigit(cs[d + 1]) {
                j = take_hex_exec(&cs, d + 1, 6);
            }
            assert(j == hex_end(cs@, i + 1));
            i = j;
        } else {
            let ghost pre = out@;
            out.push(c);
            assert(out@ + strip_from(cs@, i + 1) == pre + strip_from(cs@, i as int));
            i += 1;
        }
    }
    assert(out@ + Seq::<char>::empty() == out@);
    string_of(&out)
}

/// Stripping leaves no formatting code behind, whatever the input.
pub proof fn lemma_strip_leaves_no_codes(s: Seq<char>, i: int)
    ensures
        forall|k: int| 0 <= k < strip_from(s, i).len() ==> !is_format_code(
            #[trigger] strip_from(s, i)[k],
        ),
    decreases s.len() - i,
{
    if 0 <= i < s.len() {
        let c = s[i];
        if is_toggle(c) {
            lemma_strip_leaves_no_codes(s, i + 1);
            assert(strip_from(s, i) == strip_from(s, i + 1));
        } else if c == '\u{3}' {
            lemma_code_ends(s, i + 1);
            lemma_strip_leaves_no_codes(s, colour_end(s, i + 1));
            assert(strip_from(s, i) == strip_from(s, colour_end(s, i + 1)));
        } else if c == '\u{4}' {
            lemma_code_ends(s, i + 1);
            lemma_strip_leaves_no_codes(s, hex_end(s, i + 1));
            assert(strip_from(s, i) == strip_from(s, hex_end(s, i + 1)));
        } else {
            lemma_strip_leaves_no_codes(s, i + 1);
            let r = strip_from(s, i + 1);
            assert(strip_from(s, i) == seq![c] + r);
            assert forall|k: int| 0 <= k < strip_from(s, i).len() implies !is_format_code(
                #[trigger] strip_from(s, i)[k],
            ) by {
                if k > 0 {
                    assert(strip_from(s, i)[k] == r[k - 1]);
                }
            }
        }
    }
}

/// Text with no formatting codes in `s[i..]` is left exactly as it is.
pub proof fn lemma_plain_text_untouched(s: Seq<char>, i: int)
    requires
        0 <= i <= s.len(),
        forall|k: int| i <= k < s.len() ==> !is_format_code(#[trigger] s[k]),
    ensures
        strip_from(s, i) == s.skip(i),
    decreases s.len() - i,
{
    if i < s.len() {
        lemma_plain_text_untouched(s, i + 1);
        assert(s.skip(i) == seq![s[i]] + s.skip(i + 1));
    } else {
        assert(s.skip(i) =~= Seq::<char>::empty());
    }
}

/// No formatting code survives `strip_formatting`, and text that holds none
/// is returned unchanged; so stripping twice is the same as stripping once.
pub proof fn strip_formatting_laws(s: Seq<char>)
    ensures
        forall|k: int| 0 <= k < spec_strip(s).len() ==> !is_format_code(
            #[trigger] spec_strip(s)[k],
        ),
        (forall|k: int| 0 <= k < s.len() ==> !is_format_code(#[trigger] s[k])) ==> spec_strip(s)
            == s,
        spec_strip(spec_strip(s)) == spec_strip(s),
{
    lemma_strip_leaves_no_codes(s, 0);
    if forall|k: int| 0 <= k < s.len() ==> !is_format_code(#[trigger] s[k]) {
        lemma_plain_text_untouched(s, 0);
        assert(s.skip(0) == s);
    }
    let t = spec_strip(s);
    lemma_plain_text_untouched(t, 0);
    assert(t.skip(0) == t);
}

/// A decimal digit, as a colour code reads one.
pub open spec fn colour_digit(c: char) -> bool {
    '0' <= c && c <= '9'
}

/// A hex digit, as a hex colour code reads one.
pub open spec fn hex_digit(c: char) -> bool {
    ('0' <= c && c <= '9') || ('a' <= c && c <= 'f') || ('A' <= c && c <= 'F')
}

/// Each code is removed whole, with exactly its payload:
/// - a style toggle (bold `\x02`, italic `\x1d`, underline `\x1f`,
///   strikethrough `\x1e`, monospace `\x11`, reverse `\x16`, reset
///   `\x0f`) alone;
/// - a colour code `\x03` with up to two digits, and a comma and up to two
///   more only when a digit follows the comma: a third digit, or a comma
///   followed by anything else, is text;
/// - a hex colour code `\x04` with up to six hex digits.
pub proof fn formatting_codes_are_removed_whole(s: Seq<char>, i: int)
    requires
        0 <= i < s.len(),
    ensures
        s[i] == '\u{2}' || s[i] == '\u{1d}' || s[i] == '\u{1f}' || s[i] == '\u{1e}' || s[i] == '\u{11}'
            || s[i] == '\u{16}' || s[i] == '\u{f}' ==> strip_from(s, i) == strip_from(s, i + 1),
        s[i] == '\u{3}' && (i + 1 == s.len() || !colour_digit(s[i + 1])) ==> strip_from(s, i)
            == strip_from(s, i + 1),
        s[i] == '\u{3}' && i + 1 < s.len() && colour_digit(s[i + 1]) && (i + 2 == s.len() || (
        !colour_digit(s[i + 2]) && s[i + 2] != ',')) ==> strip_from(s, i) == strip_from(s, i + 2),
        s[i] == '\u{3}' && i + 3 < s.len() && colour_digit(s[i + 1]) && s[i + 2] == ','
            && !colour_digit(s[i + 3]) ==> strip_from(s, i) == seq![','] + strip_from(s, i + 3),
        s[i] == '\u{3}' && i + 3 < s.len() && colour_digit(s[i + 1]) && colour_digit(s[i + 2])
            && colour_digit(s[i + 3]) ==> strip_from(s, i) == seq![s[i + 3]] + strip_from(s, i + 4),
        s[i] == '\u{3}' && i + 5 < s.len() && colour_digit(s[i + 1]) && colour_digit(s[i + 2]) && s[i
            + 3] == ',' && colour_digit(s[i + 4]) && colour_digit(s[i + 5]) ==> strip_from(s, i)
            == strip_from(s, i + 6),
        s[i] == '\u{4}' && i + 6 < s.len() && (forall|k: int| i < k <= i + 6 ==> hex_digit(#[trigger] s[k]))
            && (i + 7 == s.len() || (!hex_digit(s[i + 7]) && s[i + 7] != ',')) ==> strip_from(s, i)
            == strip_from(s, i + 7),
{
    let n = s.len();
    if s[i] == '\u{3}' {
        lemma_code_ends(s, i + 1);
        if i + 1 < n && colour_digit(s[i + 1]) {
            if i + 2 < n && colour_digit(s[i + 2]) {
                assert(take_digits(s, i + 3, 0) == i + 3);
                assert(take_digits(s, i + 2, 1) == i + 3);
                assert(take_digits(s, i + 1, 2) == i + 3);
                if i + 3 < n && colour_digit(s[i + 3]) {
                    assert(!is_toggle(s[i + 3]) && s[i + 3] != '\u{3}' && s[i + 3] != '\u{4}');
                    assert(colour_end(s, i + 1) == i + 3);
                    assert(strip_from(s, i) == strip_from(s, i + 3));
                    assert(strip_from(s, i + 3) == seq![s[i + 3]] + strip_from(s, i + 4));
                }
                if i + 5 < n && s[i + 3] == ',' && colour_digit(s[i + 4]) && colour_digit(s[i + 5]) {
                    assert(take_digits(s, i + 6, 0) == i + 6);
                    assert(take_digits(s, i + 5, 1) == i + 6);
                    assert(take_digits(s, i + 4, 2) == i + 6);
                }
            } else {
                if i + 2 < n {
                    assert(take_digits(s, i + 2, 1) == i + 2);
                } else {
                    assert(take_digits(s, i + 2, 1) == i + 2);
                }
                assert(take_digits(s, i + 1, 2) == i + 2);
                if i + 3 < n && s[i + 2] == ',' && !colour_digit(s[i + 3]) {
                    assert(strip_from(s, i) == strip_from(s, i + 2));
                    assert(!is_toggle(',') && ',' != '\u{3}' && ',' != '\u{4}');
                }
            }
        } else {
            assert(take_digits(s, i + 1, 2) == i + 1);
        }
    }
    if s[i] == '\u{4}' && i + 6 < n && (forall|k: int| i < k <= i + 6 ==> hex_digit(#[trigger] s[k])) {
        assert(hex_digit(s[i + 1]) && hex_digit(s[i + 2]) && hex_digit(s[i + 3]));
        assert(hex_digit(s[i + 4]) && hex_digit(s[i + 5]) && hex_digit(s[i + 6]));
        assert(take_hex(s, i + 7, 0) == i + 7);
        assert(take_hex(s, i + 6, 1) == i + 7);
        assert(take_hex(s, i + 5, 2) == i + 7);
        assert(take_hex(s, i + 4, 3) == i + 7);
        assert(take_hex(s, i + 3, 4) == i + 7);
        assert(take_hex(s, i + 2, 5) == i + 7);
        assert(take_hex(s, i + 1, 6) == i + 7);
    }
}

/// None of the formatting characters `\x02 \x03 \x04 \x0f \x11 \x16 \x1d
/// \x1e \x1f` is left in the stripped text.
pub proof fn no_formatting_character_survives(s: Seq<char>)
    ensures
        forall|k: int|
            0 <= k < spec_strip(s).len() ==> {
                let c = #[trigger] spec_strip(s)[k];
                c != '\u{2}' && c != '\u{3}' && c != '\u{4}' && c != '\u{f}' && c != '\u{11}' && c
                    != '\u{16}' && c != '\u{1d}' && c != '\u{1e}' && c != '\u{1f}'
            },
{
    lemma_strip_leaves_no_codes(s, 0);
}

} // verus!
