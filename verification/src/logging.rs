//! Where per-buffer logs live: `<data dir>/hexrust/logs/<server>/<buffer>.log`.
//!
//! Buffer and server names come straight from the network, so each is
//! reduced to a safe file-name component before it becomes part of a path.
//! Reading and writing the files is the caller's.
use vstd::prelude::*;
use vstd::utf8::{
    decode_utf8, encode_utf8, encode_utf8_decode_utf8, encode_utf8_valid_utf8, is_ascii_chars,
    is_ascii_chars_encode_utf8, valid_utf8,
};
use crate::text::{chars_of, extend_bytes, lemma_encode_concat, extend_str, is_alnum, is_ascii_alphanumeric, string_of, trim, trim_vec};

verus! {

/// Characters a log path component keeps; every other becomes `_`.
pub open spec fn is_safe_char(c: char) -> bool {
    is_alnum(c) || c == '-' || c == '_' || c == ' ' || c == '.' || c == '#' || c == '@' || c == '+'
}

pub open spec fn safe_char(c: char) -> char {
    if is_safe_char(c) {
        c
    } else {
        '_'
    }
}

/// A name as a file-name component: unsafe characters replaced by `_`,
/// then trimmed.
pub open spec fn spec_sanitize(s: Seq<char>) -> Seq<char> {
    trim(s.map_values(|c: char| safe_char(c)))
}

/// A name reduced to a safe file-name component.
pub fn sanitize_component(s: &str) -> (r: String)
    ensures
        r@ == spec_sanitize(s@),
{
    let v = chars_of(s);
    let mut out: Vec<char> = Vec::new();
    let mut i: usize = 0;
    while i < v.len()
        invariant
            i <= v.len(),
            out@ == v@.take(i as int).map_values(|c: char| safe_char(c)),
        decreases v.len() - i,
    {
        let c = v[i];
        let ok = is_ascii_alphanumeric(c) || c == '-' || c == '_' || c == ' ' || c == '.' || c == '#'
            || c == '@' || c == '+';
        out.push(if ok { c } else { '_' });
        i += 1;
        assert(out@ =~= v@.take(i as int).map_values(|c: char| safe_char(c)));
    }
    assert(v@.take(v.len() as int) == v@);
    string_of(&trim_vec(&out))
}

/// `dirs::data_local_dir`: where per-user application data goes
/// (`~/.local/share` on Linux), as the bytes of its path
/// (`OsString::into_encoded_bytes`), so that a path that is not UTF-8 is
/// kept as it is. It comes from the environment, so nothing is promised of
/// it.
#[verifier::external_body]
fn data_local_dir() -> (r: Option<Vec<u8>>) {
    match dirs::data_local_dir() {
        Some(p) => Some(p.into_os_string().into_encoded_bytes()),
        None => None,
    }
}

/// `String::from_utf8_lossy`: the text of `b`, each invalid sequence
/// replaced by U+FFFD. How invalid input is replaced is named, not
/// restated: the result is a function of the bytes alone. Valid UTF-8
/// comes back as the text it encodes.
#[verifier::external_body]
fn utf8_lossy(b: &[u8]) -> (r: String)
    ensures
        r@ == spec_utf8_lossy(b@),
        valid_utf8(b@) ==> r@ == decode_utf8(b@),
        r@ == utf8_text(b@),
{
    String::from_utf8_lossy(b).into_owned()
}

/// What `String::from_utf8_lossy` gives for some bytes.
pub uninterp spec fn spec_utf8_lossy(b: Seq<u8>) -> Seq<char>;

/// The text of some bytes as `String::from_utf8_lossy` reads them: the
/// text they encode when they are UTF-8.
pub open spec fn utf8_text(b: Seq<u8>) -> Seq<char> {
    if valid_utf8(b) {
        decode_utf8(b)
    } else {
        spec_utf8_lossy(b)
    }
}

/// The log directory under a data directory: the directory's path
/// followed by `/hexrust/logs` in UTF-8.
pub open spec fn spec_logs_dir(data: Seq<u8>) -> Seq<u8> {
    data + encode_utf8("/hexrust/logs"@)
}

/// The log directory under the data directory whose path is `data`.
pub fn logs_dir_in(data: &[u8]) -> (r: Vec<u8>)
    ensures
        r@ == spec_logs_dir(data@),
{
    let mut v: Vec<u8> = Vec::new();
    extend_bytes(&mut v, data);
    extend_bytes(&mut v, "/hexrust/logs".as_bytes());
    assert(v@ =~= spec_logs_dir(data@));
    v
}

/// The log directory, or `None` when the data directory cannot be found.
/// Which directory that is, and whether it is found, the environment
/// decides; what is built on it is `logs_dir_in`.
pub fn logs_base_dir() -> (r: Option<Vec<u8>>)
    ensures
        r matches Some(d) ==> exists|data: Seq<u8>| d@ == #[trigger] spec_logs_dir(data),
{
    match data_local_dir() {
        Some(data) => Some(logs_dir_in(data.as_slice())),
        None => None,
    }
}

/// What follows the log directory in the log file of `buffer` on `server`:
/// `/<server>/<buffer>.log`, both names sanitized.
pub open spec fn spec_log_name(server: Seq<char>, buffer: Seq<char>) -> Seq<char> {
    "/"@ + spec_sanitize(server) + "/"@ + spec_sanitize(buffer) + ".log"@
}

/// The log file of `buffer` on `server` under the log directory `base`.
pub open spec fn spec_log_file(base: Seq<u8>, server: Seq<char>, buffer: Seq<char>) -> Seq<u8> {
    base + encode_utf8(spec_log_name(server, buffer))
}

/// The log file of `buffer` on `server` under the log directory `base`.
pub fn log_file_in(base: &[u8], server: &str, buffer: &str) -> (r: Vec<u8>)
    ensures
        r@ == spec_log_file(base@, server@, buffer@),
{
    let mut v: Vec<char> = Vec::new();
    extend_str(&mut v, "/");
    extend_str(&mut v, sanitize_component(server).as_str());
    extend_str(&mut v, "/");
    extend_str(&mut v, sanitize_component(buffer).as_str());
    extend_str(&mut v, ".log");
    let name = string_of(&v);
    let mut r: Vec<u8> = Vec::new();
    extend_bytes(&mut r, base);
    extend_bytes(&mut r, name.as_str().as_bytes());
    r
}

/// The log file of `buffer` on `server`, or `None` when the data directory
/// cannot be found.
pub fn log_path(server: &str, buffer: &str) -> (r: Option<Vec<u8>>)
    ensures
        r matches Some(p) ==> exists|data: Seq<u8>| p@ == #[trigger] spec_log_file(spec_logs_dir(data), server@, buffer@),
{
    match logs_base_dir() {
        Some(base) => {
            let p = log_file_in(base.as_slice(), server, buffer);
            Some(p)
        },
        None => None,
    }
}

/// The log file's path as shown to the user: its bytes read as UTF-8, with
/// U+FFFD for what is not.
pub fn log_path_display(server: &str, buffer: &str) -> (r: Option<String>)
    ensures
        r matches Some(s) ==> exists|data: Seq<u8>|
            s@ == #[trigger] utf8_text(spec_log_file(spec_logs_dir(data), server@, buffer@)),
{
    match log_path(server, buffer) {
        Some(p) => Some(utf8_lossy(p.as_slice())),
        None => None,
    }
}

/// Where the data directory's path is UTF-8 text, the log file's path is
/// too, and it is shown as that text: the directory, `/hexrust/logs`, and
/// the file's name.
pub proof fn a_text_path_displays_as_itself(data: Seq<char>, server: Seq<char>, buffer: Seq<char>)
    ensures
        spec_log_file(spec_logs_dir(encode_utf8(data)), server, buffer) == encode_utf8(
            data + "/hexrust/logs"@ + spec_log_name(server, buffer),
        ),
        utf8_text(spec_log_file(spec_logs_dir(encode_utf8(data)), server, buffer)) == data
            + "/hexrust/logs"@ + spec_log_name(server, buffer),
{
    let whole = data + "/hexrust/logs"@ + spec_log_name(server, buffer);
    lemma_encode_concat(data, "/hexrust/logs"@);
    lemma_encode_concat(data + "/hexrust/logs"@, spec_log_name(server, buffer));
    encode_utf8_valid_utf8(whole);
    encode_utf8_decode_utf8(whole);
}

/// A sanitized component holds only safe characters, so never a path
/// separator.
pub proof fn sanitized_names_hold_no_separator(s: Seq<char>)
    ensures
        forall|k: int| 0 <= k < spec_sanitize(s).len() ==> is_safe_char(#[trigger] spec_sanitize(s)[k]),
        !spec_sanitize(s).contains('/'),
{
    let m = s.map_values(|c: char| safe_char(c));
    let t = trim(m);
    crate::text::lemma_skip_ws(m, 0);
    let a = crate::text::skip_ws(m, 0);
    let ts = m.skip(a);
    crate::text::lemma_back_ws(ts, ts.len() as int);
    assert forall|k: int| 0 <= k < t.len() implies is_safe_char(#[trigger] t[k]) by {
        assert(t[k] == m[a + k]);
    }
    if t.contains('/') {
        let k = choose|k: int| 0 <= k < t.len() && t[k] == '/';
        assert(is_safe_char(t[k]));
    }
}

/// ASCII text is encoded one byte per character.
proof fn lemma_ascii_bytes(c: Seq<char>)
    requires
        is_ascii_chars(c),
    ensures
        encode_utf8(c) == c.map_values(|x: char| x as u8),
{
    is_ascii_chars_encode_utf8(c);
    assert(encode_utf8(c) =~= c.map_values(|x: char| x as u8));
}

/// A buffer's log stays inside its server's directory whatever the buffer
/// is called: the path is the log directory, a `/`, the server's component,
/// a `/`, and one component free of `/` bytes that ends in `.log` (so is
/// never `.` or `..`); the server's component holds no `/` either.
pub proof fn buffer_logs_stay_in_their_directory(base: Seq<u8>, server: Seq<char>, buffer: Seq<char>)
    ensures
        ({
            let srv = encode_utf8(spec_sanitize(server));
            let file = encode_utf8(spec_sanitize(buffer) + ".log"@);
            &&& spec_log_file(base, server, buffer) == base + seq![47u8] + srv + seq![47u8] + file
            &&& !file.contains(47u8)
            &&& file != seq![46u8] && file != seq![46u8, 46u8]
            &&& !srv.contains(47u8)
        }),
{
    reveal_strlit(".log");
    reveal_strlit("/");
    sanitized_names_hold_no_separator(buffer);
    sanitized_names_hold_no_separator(server);
    let sb = spec_sanitize(buffer);
    let ss = spec_sanitize(server);
    let fc = sb + ".log"@;
    let name = spec_log_name(server, buffer);
    assert(name =~= "/"@ + ss + "/"@ + fc);
    assert forall|k: int| 0 <= k < fc.len() implies '\0' <= #[trigger] fc[k] <= '\u{7f}' && fc[k] != '/' by {
        if k < sb.len() {
            assert(fc[k] == sb[k]);
            assert(is_safe_char(sb[k]));
        }
    }
    assert forall|k: int| 0 <= k < ss.len() implies '\0' <= #[trigger] ss[k] <= '\u{7f}' && ss[k] != '/' by {
        assert(is_safe_char(ss[k]));
    }
    assert forall|k: int| 0 <= k < name.len() implies '\0' <= #[trigger] name[k] <= '\u{7f}' by {
        if k == 0 || k == ss.len() + 1 {
        } else if k <= ss.len() {
            assert(name[k] == ss[k - 1]);
        } else {
            assert(name[k] == fc[k - ss.len() - 2]);
        }
    }
    lemma_ascii_bytes(name);
    lemma_ascii_bytes(fc);
    lemma_ascii_bytes(ss);
    let srv = encode_utf8(ss);
    let file = encode_utf8(fc);
    assert(encode_utf8(name) =~= seq![47u8] + srv + seq![47u8] + file);
    assert(spec_log_file(base, server, buffer) =~= base + seq![47u8] + srv + seq![47u8] + file);
    if file.contains(47u8) {
        let k = choose|k: int| 0 <= k < file.len() && file[k] == 47u8;
        assert(fc[k] != '/');
        assert(false);
    }
    if srv.contains(47u8) {
        let k = choose|k: int| 0 <= k < srv.len() && srv[k] == 47u8;
        assert(ss[k] != '/');
        assert(false);
    }
    assert(file.len() >= 4);
}

} // verus!
