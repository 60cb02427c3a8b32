//! SASL PLAIN: the credentials message and its base64 transfer encoding.
use vstd::prelude::*;
use vstd::utf8::{encode_utf8, is_ascii_chars, is_ascii_chars_encode_utf8};
use crate::text::{chars_of, lemma_encode_concat, string_of};

verus! {

/// The base64 digit of value `k` (RFC 4648): `A`..=`Z`, `a`..=`z`,
/// `0`..=`9`, `+`, `/`.
pub open spec fn b64_char(k: int) -> char {
    if k < 26 {
        ((k + 65) as u8) as char
    } else if k < 52 {
        ((k + 71) as u8) as char
    } else if k < 62 {
        ((k - 4) as u8) as char
    } else if k == 62 {
        '+'
    } else {
        '/'
    }
}

/// The base64 alphabet of RFC 4648, digit by digit.
pub open spec fn b64_alphabet() -> Seq<char> {
    Seq::new(64, |k: int| b64_char(k))
}

fn b64_char_exec(k: u8) -> (c: char)
    requires
        k < 64,
    ensures
        c == b64_char(k as int),
{
    if k < 26 {
        (k + 65) as char
    } else if k < 52 {
        (k + 71) as char
    } else if k < 62 {
        (k - 4) as char
    } else if k == 62 {
        '+'
    } else {
        '/'
    }
}

/// The value of a base64 digit.
pub open spec fn sextet(c: char) -> int {
    if 'A' <= c && c <= 'Z' {
        (c as int) - 65
    } else if 'a' <= c && c <= 'z' {
        (c as int) - 71
    } else if '0' <= c && c <= '9' {
        (c as int) + 4
    } else if c == '+' {
        62
    } else {
        63
    }
}

proof fn lemma_b64_char(k: int)
    requires
        0 <= k < 64,
    ensures
        sextet(b64_char(k)) == k,
        b64_char(k) != '=',
{
}

/// Base64 of one group of one to three bytes: four characters, padded
/// with `=` when the group is short.
pub open spec fn b64_group(g: Seq<u8>) -> Seq<char> {
    let a = b64_alphabet();
    let g0 = g[0] as int;
    let g1 = g[1] as int;
    let g2 = g[2] as int;
    if g.len() >= 3 {
        seq![a[g0 / 4], a[(g0 % 4) * 16 + g1 / 16], a[(g1 % 16) * 4 + g2 / 64], a[g2 % 64]]
    } else if g.len() == 2 {
        seq![a[g0 / 4], a[(g0 % 4) * 16 + g1 / 16], a[(g1 % 16) * 4], '=']
    } else {
        seq![a[g0 / 4], a[(g0 % 4) * 16], '=', '=']
    }
}

/// Base64 of `b[i..]`, three bytes at a time.
pub open spec fn base64_from(b: Seq<u8>, i: int) -> Seq<char>
    decreases b.len() - i,
{
    if i < 0 || i >= b.len() {
        seq![]
    } else if i + 3 < b.len() {
        b64_group(b.subrange(i, i + 3)) + base64_from(b, i + 3)
    } else {
        b64_group(b.subrange(i, b.len() as int))
    }
}

/// The standard (RFC 4648, padded) base64 encoding of `b`.
pub open spec fn base64(b: Seq<u8>) -> Seq<char> {
    base64_from(b, 0)
}

/// The SASL PLAIN message of RFC 4616, authorising as the account we
/// authenticate as: `user NUL user NUL password`, in UTF-8.
pub open spec fn plain_message(user: Seq<char>, pass: Seq<char>) -> Seq<u8> {
    encode_utf8(user + seq!['\0'] + user + seq!['\0'] + pass)
}

/// Base64 of `b`.
pub fn encode_base64(b: &[u8]) -> (r: Vec<char>)
    ensures
        r@ == base64(b@),
{
    let mut alpha: Vec<char> = Vec::new();
    let mut k: u8 = 0;
    while k < 64
        invariant
            k <= 64,
            alpha@ == b64_alphabet().take(k as int),
        decreases 64 - k,
    {
        alpha.push(b64_char_exec(k));
        k += 1;
        assert(alpha@ =~= b64_alphabet().take(k as int));
    }
    assert(alpha@ =~= b64_alphabet());
    assert(alpha.len() == 64);
    let mut out: Vec<char> = Vec::new();
    let mut i: usize = 0;
    while i < b.len()
        invariant
            alpha@ == b64_alphabet(),
            alpha.len() == 64,
            i <= b.len(),
            out@ + base64_from(b@, i as int) == base64(b@),
        decreases b.len() - i,
    {
        let ghost pre = out@;
        let b0 = b[i];
        if b.len() - i > 3 {
            let b1 = b[i + 1];
            let b2 = b[i + 2];
            out.push(alpha[(b0 / 4) as usize]);
            out.push(alpha[((b0 % 4) * 16 + b1 / 16) as usize]);
            out.push(alpha[((b1 % 16) * 4 + b2 / 64) as usize]);
            out.push(alpha[(b2 % 64) as usize]);
            let ghost g = b@.subrange(i as int, i + 3);
            assert(g[0] == b0 && g[1] == b1 && g[2] == b2);
            assert(out@ =~= pre + b64_group(g));
            assert(base64_from(b@, i as int) == b64_group(g) + base64_from(b@, i + 3));
            i = i + 3;
            assert(out@ + base64_from(b@, i as int) =~= pre + base64_from(b@, (i - 3) as int));
        } else {
            let ghost g = b@.subrange(i as int, b.len() as int);
            if b.len() - i == 3 {
                let b1 = b[i + 1];
                let b2 = b[i + 2];
                out.push(alpha[(b0 / 4) as usize]);
                out.push(alpha[((b0 % 4) * 16 + b1 / 16) as usize]);
                out.push(alpha[((b1 % 16) * 4 + b2 / 64) as usize]);
                out.push(alpha[(b2 % 64) as usize]);
                assert(g[0] == b0 && g[1] == b1 && g[2] == b2 && g.len() == 3);
            } else if b.len() - i == 2 {
                let b1 = b[i + 1];
                out.push(alpha[(b0 / 4) as usize]);
                out.push(alpha[((b0 % 4) * 16 + b1 / 16) as usize]);
                out.push(alpha[((b1 % 16) * 4) as usize]);
                out.push('=');
                assert(g[0] == b0 && g[1] == b1 && g.len() == 2);
            } else {
                out.push(alpha[(b0 / 4) as usize]);
                out.push(alpha[((b0 % 4) * 16) as usize]);
                out.push('=');
                out.push('=');
                assert(g[0] == b0 && g.len() == 1);
            }
            assert(out@ =~= pre + b64_group(g));
            assert(base64_from(b@, i as int) == b64_group(g));
            i = b.len();
            assert(base64_from(b@, i as int) =~= Seq::<char>::empty());
            assert(out@ + base64_from(b@, i as int) =~= out@);
        }
    }
    assert(base64_from(b@, i as int) =~= Seq::<char>::empty());
    assert(out@ + Seq::<char>::empty() =~= out@);
    out
}

/// The payload of `AUTHENTICATE` for SASL PLAIN: the credentials message,
/// base64-encoded.
pub fn plain_payload(user: &str, pass: &str) -> (r: String)
    ensures
        r@ == base64(plain_message(user@, pass@)),
{
    let mut v = chars_of(user);
    v.push('\0');
    let u2 = chars_of(user);
    crate::text::extend(&mut v, &u2);
    v.push('\0');
    let p = chars_of(pass);
    crate::text::extend(&mut v, &p);
    assert(v@ =~= user@ + seq!['\0'] + user@ + seq!['\0'] + pass@);
    let s = string_of(&v);
    let bytes = s.as_str().as_bytes();
    let enc = encode_base64(bytes);
    string_of(&enc)
}

/// The bytes that four base64 characters stand for (RFC 4648): three, or
/// one or two where `=` pads the group.
pub open spec fn unb64_group(s: Seq<char>) -> Seq<u8> {
    let v0 = sextet(s[0]);
    let v1 = sextet(s[1]);
    let v2 = sextet(s[2]);
    let v3 = sextet(s[3]);
    let x0 = (v0 * 4 + v1 / 16) as u8;
    let x1 = ((v1 % 16) * 16 + v2 / 4) as u8;
    let x2 = ((v2 % 4) * 64 + v3) as u8;
    if s[2] == '=' {
        seq![x0]
    } else if s[3] == '=' {
        seq![x0, x1]
    } else {
        seq![x0, x1, x2]
    }
}

/// Base64 decoding of `s`, four characters at a time.
pub open spec fn unbase64(s: Seq<char>) -> Seq<u8>
    decreases s.len(),
{
    if s.len() < 4 {
        seq![]
    } else {
        unb64_group(s.take(4)) + unbase64(s.skip(4))
    }
}

proof fn lemma_group_round_trip(g: Seq<u8>)
    requires
        1 <= g.len() <= 3,
    ensures
        b64_group(g).len() == 4,
        unb64_group(b64_group(g)) == g,
{
    let g0 = g[0] as int;
    let g1 = g[1] as int;
    let g2 = g[2] as int;
    let e = b64_group(g);
    lemma_b64_char(g0 / 4);
    if g.len() >= 3 {
        let k1 = (g0 % 4) * 16 + g1 / 16;
        let k2 = (g1 % 16) * 4 + g2 / 64;
        assert(0 <= k1 < 64 && 0 <= k2 < 64 && k1 / 16 == g0 % 4 && k1 % 16 == g1 / 16 && k2 / 4
            == g1 % 16 && k2 % 4 == g2 / 64) by (nonlinear_arith)
            requires
                0 <= g0 < 256,
                0 <= g1 < 256,
                0 <= g2 < 256,
                k1 == (g0 % 4) * 16 + g1 / 16,
                k2 == (g1 % 16) * 4 + g2 / 64,
        ;
        lemma_b64_char(k1);
        lemma_b64_char(k2);
        lemma_b64_char(g2 % 64);
        assert(unb64_group(e) =~= g);
    } else if g.len() == 2 {
        let k1 = (g0 % 4) * 16 + g1 / 16;
        let k2 = (g1 % 16) * 4;
        assert(0 <= k1 < 64 && 0 <= k2 < 64 && k1 / 16 == g0 % 4 && k1 % 16 == g1 / 16 && k2 / 4
            == g1 % 16) by (nonlinear_arith)
            requires
                0 <= g0 < 256,
                0 <= g1 < 256,
                k1 == (g0 % 4) * 16 + g1 / 16,
                k2 == (g1 % 16) * 4,
        ;
        lemma_b64_char(k1);
        lemma_b64_char(k2);
        assert(unb64_group(e) =~= g);
    } else {
        let k1 = (g0 % 4) * 16;
        assert(0 <= k1 < 64 && k1 / 16 == g0 % 4) by (nonlinear_arith)
            requires
                0 <= g0 < 256,
                k1 == (g0 % 4) * 16,
        ;
        lemma_b64_char(k1);
        assert(unb64_group(e) =~= g);
    }
}

proof fn lemma_round_trip_from(b: Seq<u8>, i: int)
    requires
        0 <= i <= b.len(),
    ensures
        unbase64(base64_from(b, i)) == b.skip(i),
        base64_from(b, i).len() == 4 * ((b.len() - i + 2) / 3),
    decreases b.len() - i,
{
    if i >= b.len() {
        assert(b.skip(i) =~= Seq::<u8>::empty());
    } else if i + 3 < b.len() {
        let g = b.subrange(i, i + 3);
        lemma_group_round_trip(g);
        lemma_round_trip_from(b, i + 3);
        let e = b64_group(g);
        let r = base64_from(b, i + 3);
        assert((e + r).take(4) =~= e);
        assert((e + r).skip(4) =~= r);
        assert(base64_from(b, i) == e + r);
        assert(unbase64(e + r) == unb64_group((e + r).take(4)) + unbase64((e + r).skip(4)));
        assert(b.skip(i) =~= g + b.skip(i + 3));
    } else {
        let g = b.subrange(i, b.len() as int);
        lemma_group_round_trip(g);
        let e = b64_group(g);
        assert(e.take(4) =~= e);
        assert(e.skip(4) =~= Seq::<char>::empty());
        assert(base64_from(b, i) == e);
        assert(unbase64(e) == unb64_group(e.take(4)) + unbase64(e.skip(4)));
        assert(unbase64(Seq::<char>::empty()) == Seq::<u8>::empty());
        assert(unb64_group(e) + Seq::<u8>::empty() =~= unb64_group(e));
        assert(b.skip(i) =~= g);
    }
}

/// Base64 loses nothing: decoding the base64 of any bytes gives them back,
/// and every three bytes (or fewer, at the end) become four characters.
pub proof fn base64_round_trip(b: Seq<u8>)
    ensures
        unbase64(base64(b)) == b,
        base64(b).len() == 4 * ((b.len() + 2) / 3),
{
    lemma_round_trip_from(b, 0);
    assert(b.skip(0) =~= b);
}

/// The SASL PLAIN payload decodes to the user name, a NUL byte, the user
/// name again, a NUL byte and the password, each in UTF-8.
pub proof fn plain_payload_decodes_to_the_credentials(user: Seq<char>, pass: Seq<char>)
    ensures
        unbase64(base64(plain_message(user, pass))) == encode_utf8(user) + seq![0u8] + encode_utf8(user)
            + seq![0u8] + encode_utf8(pass),
{
    base64_round_trip(plain_message(user, pass));
    let nul = seq!['\0'];
    lemma_encode_concat(user + nul + user + nul, pass);
    lemma_encode_concat(user + nul + user, nul);
    lemma_encode_concat(user + nul, user);
    lemma_encode_concat(user, nul);
    assert(is_ascii_chars(nul));
    is_ascii_chars_encode_utf8(nul);
    assert(encode_utf8(nul) =~= seq![0u8]);
}

} // verus!
