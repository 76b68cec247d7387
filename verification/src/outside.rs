//! The calls into other crates and into parts of the standard library, each
//! with what is claimed of it.

use vstd::prelude::*;
use vstd::utf8::*;
use crate::text;
use sha2::Digest;

verus! {

// ── digests ────────────────────────────────────────────────────────────

/// A lower-case hexadecimal digit.
pub open spec fn is_hex_lower(c: char) -> bool {
    '0' <= c <= '9' || 'a' <= c <= 'f'
}

/// `n` lower-case hexadecimal digits.
pub open spec fn is_hex_text(s: Seq<char>, n: int) -> bool {
    &&& s.len() == n
    &&& forall|i: int| 0 <= i < s.len() ==> is_hex_lower(#[trigger] s[i])
}

/// The MD5 digest of the UTF-8 bytes of a text, in lower-case hexadecimal.
pub uninterp spec fn md5_of(text: Seq<char>) -> Seq<char>;

/// `md5::compute` on the bytes of `text`, shown with `{:x}`. Claimed: the result
/// depends on the text alone, and is 32 lower-case hexadecimal digits.
#[verifier::external_body]
pub(crate) fn md5_hex(text: &str) -> (r: String)
    ensures
        r@ == md5_of(text@),
        is_hex_text(r@, 32),
{
    format!("{:x}", md5::compute(text))
}

/// The SHA-256 digest of the UTF-8 bytes of a text, in lower-case hexadecimal.
pub uninterp spec fn sha256_of(text: Seq<char>) -> Seq<char>;

/// `sha2::Sha256` over the bytes of `text`, shown with `{:x}`. Claimed: the
/// result depends on the text alone, and is 64 lower-case hexadecimal digits.
#[verifier::external_body]
pub(crate) fn sha256_hex(text: &str) -> (r: String)
    ensures
        r@ == sha256_of(text@),
        is_hex_text(r@, 64),
{
    let mut h = sha2::Sha256::new();
    h.update(text.as_bytes());
    format!("{:x}", h.finalize())
}

// ── percent encoding ───────────────────────────────────────────────────

/// A byte that stands for itself in a percent-encoded text.
pub open spec fn is_unreserved(b: u8) -> bool {
    ||| 0x30 <= b <= 0x39
    ||| 0x41 <= b <= 0x5a
    ||| 0x61 <= b <= 0x7a
    ||| b == 0x2d
    ||| b == 0x2e
    ||| b == 0x5f
    ||| b == 0x7e
}

/// The upper-case hexadecimal digit for a number below sixteen.
pub open spec fn hex_upper(n: int) -> char {
    if n < 10 {
        (0x30 + n) as char
    } else {
        (0x41 + n - 10) as char
    }
}

/// What one byte becomes.
pub open spec fn encoded_byte(b: u8) -> Seq<char> {
    if is_unreserved(b) {
        seq![b as char]
    } else {
        seq!['%', hex_upper((b / 16) as int), hex_upper((b % 16) as int)]
    }
}

/// Bytes in percent encoding.
pub open spec fn percent_encoded(bytes: Seq<u8>) -> Seq<char>
    decreases bytes.len(),
{
    if bytes.len() == 0 {
        Seq::empty()
    } else {
        encoded_byte(bytes[0]) + percent_encoded(bytes.skip(1))
    }
}

/// The value of an ASCII hexadecimal digit of either case.
pub open spec fn hex_value(b: u8) -> Option<int> {
    if 0x30 <= b <= 0x39 {
        Some(b - 0x30)
    } else if 0x41 <= b <= 0x46 {
        Some(b - 0x41 + 10)
    } else if 0x61 <= b <= 0x66 {
        Some(b - 0x61 + 10)
    } else {
        None
    }
}

/// Bytes with each percent sign and the two hexadecimal digits after it made
/// one byte again; a percent sign without them stands for itself.
pub open spec fn percent_decoded(bytes: Seq<u8>) -> Seq<u8>
    decreases bytes.len(),
{
    if bytes.len() == 0 {
        Seq::empty()
    } else if bytes[0] == 0x25 && bytes.len() >= 3 && hex_value(bytes[1]) is Some && hex_value(
        bytes[2],
    ) is Some {
        seq![(16 * hex_value(bytes[1])->0 + hex_value(bytes[2])->0) as u8] + percent_decoded(
            bytes.skip(3),
        )
    } else {
        seq![bytes[0]] + percent_decoded(bytes.skip(1))
    }
}

/// `urlencoding::encode`. Claimed: each byte of the UTF-8 form is kept if it is
/// a letter, a digit or one of `-._~`, and otherwise written as a percent sign
/// and two upper-case hexadecimal digits.
#[verifier::external_body]
pub(crate) fn url_encode(text: &str) -> (r: String)
    ensures
        r@ == percent_encoded(encode_utf8(text@)),
{
    urlencoding::encode(text).into_owned()
}

/// `urlencoding::decode`. Claimed: the UTF-8 form with its percent escapes
/// undone, where that is UTF-8 again; an error, and so `None`, where it is not.
#[verifier::external_body]
pub(crate) fn url_decode(text: &str) -> (r: Option<String>)
    ensures
        match r {
            Some(s) => valid_utf8(percent_decoded(encode_utf8(text@))) && s@ == decode_utf8(
                percent_decoded(encode_utf8(text@)),
            ),
            None => !valid_utf8(percent_decoded(encode_utf8(text@))),
        },
{
    urlencoding::decode(text).ok().map(|c| c.into_owned())
}

/// Percent encoding is plain ASCII.
proof fn lemma_encoded_ascii(bytes: Seq<u8>)
    ensures
        is_ascii_chars(percent_encoded(bytes)),
    decreases bytes.len(),
{
    if bytes.len() > 0 {
        lemma_encoded_ascii(bytes.skip(1));
    }
}

/// ASCII text, as bytes.
pub open spec fn ascii_bytes(s: Seq<char>) -> Seq<u8> {
    s.map_values(|c: char| c as u8)
}

/// Undoing percent encoding gives the bytes back.
proof fn lemma_decode_encoded_bytes(bytes: Seq<u8>)
    ensures
        percent_decoded(ascii_bytes(percent_encoded(bytes))) == bytes,
    decreases bytes.len(),
{
    let text = percent_encoded(bytes);
    let raw = ascii_bytes(text);
    if bytes.len() == 0 {
        assert(raw =~= Seq::empty());
    } else {
        let b = bytes[0];
        let rest = bytes.skip(1);
        let tail = ascii_bytes(percent_encoded(rest));
        lemma_decode_encoded_bytes(rest);
        if is_unreserved(b) {
            assert(raw[0] == b);
            assert(raw.skip(1) =~= tail);
        } else {
            assert(encoded_byte(b).len() == 3);
            assert(raw[0] == 0x25);
            assert(raw[1] == hex_upper((b / 16) as int) as u8);
            assert(raw[2] == hex_upper((b % 16) as int) as u8);
            assert(raw.skip(3) =~= tail);
            assert(hex_value(raw[1]) == Some((b / 16) as int));
            assert(hex_value(raw[2]) == Some((b % 16) as int));
        }
        assert(percent_decoded(raw) =~= bytes);
    }
}

/// Decoding what was percent-encoded gives the text back.
pub proof fn lemma_url_round_trip(text: Seq<char>)
    ensures
        ({
            let there = percent_encoded(encode_utf8(text));
            let back = percent_decoded(encode_utf8(there));
            valid_utf8(back) && decode_utf8(back) == text
        }),
{
    let bytes = encode_utf8(text);
    let there = percent_encoded(bytes);
    lemma_encoded_ascii(bytes);
    is_ascii_chars_encode_utf8(there);
    assert(encode_utf8(there) =~= ascii_bytes(there));
    lemma_decode_encoded_bytes(bytes);
    encode_utf8_valid_utf8(text);
    encode_utf8_decode_utf8(text);
}

// ── JSON ───────────────────────────────────────────────────────────────

/// Why a text is not JSON, in the parser's words; `None` of a text that is.
pub uninterp spec fn json_fault(text: Seq<char>) -> Option<Seq<char>>;

/// `serde_json::from_str` into a `Value`. Claimed: whether the text parses, and
/// the message where it does not, depend on the text alone.
#[verifier::external_body]
pub(crate) fn json_check(text: &str) -> (r: Option<String>)
    ensures
        text::view_of(r) == json_fault(text@),
{
    serde_json::from_str::<serde_json::Value>(text).err().map(|e| e.to_string())
}

/// The member of a JSON object under a key, as JSON text; `None` where the text
/// is no object, or holds no such key.
pub uninterp spec fn json_get(text: Seq<char>, key: Seq<char>) -> Option<Seq<char>>;

/// `serde_json::Value::get` with a string key. Claimed: what it finds depends on
/// the text and the key alone, and it finds nothing in what is not JSON.
#[verifier::external_body]
pub(crate) fn json_member(text: &str, key: &str) -> (r: Option<String>)
    ensures
        text::view_of(r) == json_get(text@, key@),
        r is Some ==> json_fault(text@) is None,
{
    let value = serde_json::from_str::<serde_json::Value>(text).ok();
    value.and_then(|v| v.get(key).map(|m| m.to_string()))
}

/// The text that a JSON string writes; `None` of any other JSON.
pub uninterp spec fn json_text(text: Seq<char>) -> Option<Seq<char>>;

/// `serde_json::Value::as_str`. Claimed: the result depends on the text alone.
#[verifier::external_body]
pub(crate) fn json_str(text: &str) -> (r: Option<String>)
    ensures
        text::view_of(r) == json_text(text@),
{
    let value = serde_json::from_str::<serde_json::Value>(text).ok();
    value.and_then(|v| v.as_str().map(|s| s.to_string()))
}

/// The number that a JSON integer writes, where it fits.
pub uninterp spec fn json_int(text: Seq<char>) -> Option<i64>;

/// `serde_json::Value::as_i64`. Claimed: the result depends on the text alone.
#[verifier::external_body]
pub(crate) fn json_i64(text: &str) -> (r: Option<i64>)
    ensures
        r == json_int(text@),
{
    let value = serde_json::from_str::<serde_json::Value>(text).ok();
    value.and_then(|v| v.as_i64())
}

/// The number that a JSON integer that is not negative writes, where it fits.
pub uninterp spec fn json_nat(text: Seq<char>) -> Option<u64>;

/// `serde_json::Value::as_u64`. Claimed: the result depends on the text alone.
#[verifier::external_body]
pub(crate) fn json_u64(text: &str) -> (r: Option<u64>)
    ensures
        r == json_nat(text@),
{
    let value = serde_json::from_str::<serde_json::Value>(text).ok();
    value.and_then(|v| v.as_u64())
}

/// The truth value that a JSON boolean writes.
pub uninterp spec fn json_truth(text: Seq<char>) -> Option<bool>;

/// `serde_json::Value::as_bool`. Claimed: the result depends on the text alone.
#[verifier::external_body]
pub(crate) fn json_bool(text: &str) -> (r: Option<bool>)
    ensures
        r == json_truth(text@),
{
    let value = serde_json::from_str::<serde_json::Value>(text).ok();
    value.and_then(|v| v.as_bool())
}

/// The texts that a JSON array of strings writes; `None` of any other JSON.
pub uninterp spec fn json_texts(text: Seq<char>) -> Option<Seq<Seq<char>>>;

/// `serde_json::from_str` into a list of strings. Claimed: the result depends on
/// the text alone.
#[verifier::external_body]
pub(crate) fn json_strings(text: &str) -> (r: Option<Vec<String>>)
    ensures
        match r {
            Some(v) => json_texts(text@) == Some(text::views(v@)),
            None => json_texts(text@) is None,
        },
{
    serde_json::from_str::<Vec<String>>(text).ok()
}

/// The lower-case hexadecimal digit for a number below sixteen.
pub open spec fn hex_lower(n: int) -> char {
    if n < 10 {
        (0x30 + n) as char
    } else {
        (0x61 + n - 10) as char
    }
}

/// How one character stands inside a JSON string.
pub open spec fn json_escaped(c: char) -> Seq<char> {
    let n = c as int;
    if c == '"' {
        seq!['\\', '"']
    } else if c == '\\' {
        seq!['\\', '\\']
    } else if n == 0x08 {
        seq!['\\', 'b']
    } else if n == 0x09 {
        seq!['\\', 't']
    } else if n == 0x0a {
        seq!['\\', 'n']
    } else if n == 0x0c {
        seq!['\\', 'f']
    } else if n == 0x0d {
        seq!['\\', 'r']
    } else if n < 0x20 {
        seq!['\\', 'u', '0', '0', hex_lower(n / 16), hex_lower(n % 16)]
    } else {
        seq![c]
    }
}

/// A text as it stands between the quotes of a JSON string.
pub open spec fn json_body(s: Seq<char>) -> Seq<char>
    decreases s.len(),
{
    if s.len() == 0 {
        Seq::empty()
    } else {
        json_escaped(s[0]) + json_body(s.skip(1))
    }
}

/// A text as a JSON string.
pub open spec fn json_quoted(s: Seq<char>) -> Seq<char> {
    seq!['"'] + json_body(s) + seq!['"']
}

/// `serde_json::to_string` of a string. Claimed: the text in double quotes, with
/// quotes, backslashes and control characters escaped and all else as it is. It
/// does not fail on a string.
#[verifier::external_body]
pub(crate) fn json_quote(text: &str) -> (r: String)
    ensures
        r@ == json_quoted(text@),
{
    serde_json::to_string(text).unwrap_or_else(|_| "\"\"".into())
}

// ── URLs ───────────────────────────────────────────────────────────────

/// The views of a list of pairs.
pub open spec fn pair_views(v: Seq<(String, String)>) -> Seq<(Seq<char>, Seq<char>)> {
    v.map_values(|p: (String, String)| (p.0@, p.1@))
}

/// The path segments of a URL; `None` where the text is no URL, or its path has
/// none.
pub uninterp spec fn url_segments_of(uri: Seq<char>) -> Option<Seq<Seq<char>>>;

/// `url::Url::parse`, then `Url::path_segments`. Claimed: the result depends on
/// the text alone.
#[verifier::external_body]
pub(crate) fn url_segments(uri: &str) -> (r: Option<Vec<String>>)
    ensures
        match r {
            Some(v) => url_segments_of(uri@) == Some(text::views(v@)),
            None => url_segments_of(uri@) is None,
        },
{
    let parsed = url::Url::parse(uri).ok()?;
    parsed.path_segments().map(|s| s.map(|p| p.to_string()).collect())
}

/// The query of a URL as decoded names and values; `None` where the text is no
/// URL.
pub uninterp spec fn url_pairs_of(uri: Seq<char>) -> Option<Seq<(Seq<char>, Seq<char>)>>;

/// `url::Url::parse`, then `Url::query_pairs`. Claimed: the result depends on
/// the text alone.
#[verifier::external_body]
pub(crate) fn url_pairs(uri: &str) -> (r: Option<Vec<(String, String)>>)
    ensures
        match r {
            Some(v) => url_pairs_of(uri@) == Some(pair_views(v@)),
            None => url_pairs_of(uri@) is None,
        },
{
    let parsed = url::Url::parse(uri).ok()?;
    Some(parsed.query_pairs().map(|(k, v)| (k.into_owned(), v.into_owned())).collect())
}

// ── paths ──────────────────────────────────────────────────────────────

/// A file name on every platform: not empty, free of what separates the parts of
/// a path, and no sign for a directory.
pub open spec fn is_plain_name(s: Seq<char>) -> bool {
    &&& s.len() > 0
    &&& !s.contains('/')
    &&& !s.contains('\\')
    &&& !s.contains(':')
    &&& !is_dots(s)
}

/// One dot or two, which stand for a directory.
pub open spec fn is_dots(s: Seq<char>) -> bool {
    ||| s.len() == 1 && s[0] == '.'
    ||| s.len() == 2 && s[0] == '.' && s[1] == '.'
}

/// A path that Windows takes letter for letter, from `\\?\` on.
pub open spec fn is_verbatim(dir: Seq<char>) -> bool {
    seq!['\\', '\\', '?', '\\'].is_prefix_of(dir)
}

/// `dir` and `name` with a separator between them unless `dir` needs none: where
/// it is empty, ends in a separator, or is a bare drive. The slash separates on
/// every platform, the backslash and drives only where the backslash is the
/// separator that is written.
pub open spec fn adjoined(dir: Seq<char>, name: Seq<char>, separator: char) -> Seq<char> {
    if dir.len() == 0 || dir.last() == '/' || dir.last() == separator || (separator == '\\'
        && dir.len() == 2 && has_drive(dir)) {
        dir + name
    } else {
        dir + seq![separator] + name
    }
}

/// Whether `path` is `dir` with `name` behind it, by the separator of one platform
/// or another. Of a verbatim directory only the name is told: joining normalizes
/// what stands before it.
pub open spec fn is_adjoined(dir: Seq<char>, name: Seq<char>, path: Seq<char>) -> bool {
    &&& file_tail(path) == name
    &&& is_verbatim(dir) || path == adjoined(dir, name, '/') || path == adjoined(dir, name, '\\')
}

/// `std::path::Path::join`. Claimed only of a plain name: the path ends in it, and
/// unless the directory is verbatim the path is the directory, a separator where
/// one is needed, and the name. Which separator differs from platform to platform.
#[verifier::external_body]
pub(crate) fn path_join(dir: &str, name: &str) -> (r: String)
    ensures
        is_plain_name(name@) ==> is_adjoined(dir@, name@, r@),
{
    std::path::Path::new(dir).join(name).to_string_lossy().into_owned()
}

/// Where `c` last stands in `s`; -1 if it does not.
pub open spec fn last_index_of(s: Seq<char>, c: char) -> int
    decreases s.len(),
{
    if s.len() == 0 {
        -1
    } else if s.last() == c {
        s.len() - 1
    } else {
        last_index_of(s.drop_last(), c)
    }
}

/// Where `c` last stands, told by what stands where.
pub proof fn lemma_last_index_of_is(s: Seq<char>, c: char, i: int)
    requires
        0 <= i < s.len(),
        s[i] == c,
        forall|j: int| i < j < s.len() ==> s[j] != c,
    ensures
        last_index_of(s, c) == i,
    decreases s.len(),
{
    if i < s.len() - 1 {
        lemma_last_index_of_is(s.drop_last(), c, i);
    }
}

/// A path without what names nothing at its end: slashes, and dots that stand
/// alone behind one.
pub open spec fn slash_body(path: Seq<char>) -> Seq<char>
    decreases path.len(),
{
    if path.len() > 0 && (path.last() == '/' || (path.len() >= 2 && path.last() == '.'
        && path[path.len() - 2] == '/')) {
        slash_body(path.drop_last())
    } else {
        path
    }
}

/// The last part of a path that slashes separate.
pub open spec fn last_part(path: Seq<char>) -> Seq<char> {
    let body = slash_body(path);
    body.skip(last_index_of(body, '/') + 1)
}

/// A path in which the slash is the one separator that occurs, on every platform.
/// Two in front may name a share.
pub open spec fn is_simple_path(path: Seq<char>) -> bool {
    &&& !path.contains('\\')
    &&& !path.contains(':')
    &&& !seq!['/', '/'].is_prefix_of(path)
}

/// The file name of a path that slashes separate: none where the path is empty, is
/// the root, or ends in the sign for a directory.
pub open spec fn slash_name(path: Seq<char>) -> Option<Seq<char>> {
    if last_part(path).len() == 0 || is_dots(last_part(path)) {
        None
    } else {
        Some(last_part(path))
    }
}

/// The stem of a path that slashes separate.
pub open spec fn slash_stem(path: Seq<char>) -> Option<Seq<char>> {
    match slash_name(path) {
        Some(n) => Some(stem_of(n)),
        None => None,
    }
}

/// The extension of a path that slashes separate.
pub open spec fn slash_extension(path: Seq<char>) -> Option<Seq<char>> {
    match slash_name(path) {
        Some(n) => extension_of(n),
        None => None,
    }
}

/// A file name without its last dot and what follows it; all of it where the
/// only dot is in front, or there is none.
pub open spec fn stem_of(name: Seq<char>) -> Seq<char> {
    if last_index_of(name, '.') <= 0 {
        name
    } else {
        name.take(last_index_of(name, '.'))
    }
}

/// What follows the last dot of a file name, unless that dot is in front.
pub open spec fn extension_of(name: Seq<char>) -> Option<Seq<char>> {
    if last_index_of(name, '.') <= 0 {
        None
    } else {
        Some(name.skip(last_index_of(name, '.') + 1))
    }
}

/// Whether `c` separates the parts of a path on some platform.
pub open spec fn is_separator(c: char) -> bool {
    c == '/' || c == '\\' || c == ':'
}

/// What follows the last separator of any platform.
pub open spec fn file_tail(path: Seq<char>) -> Seq<char>
    decreases path.len(),
{
    if path.len() == 0 || is_separator(path.last()) {
        Seq::empty()
    } else {
        file_tail(path.drop_last()).push(path.last())
    }
}

/// What follows the last separator of any platform, with nothing behind the name.
pub open spec fn name_tail(path: Seq<char>) -> Seq<char> {
    file_tail(slash_body(path))
}

/// A path whose file name has an extension, and the same one on every platform.
/// Two separators in front may name a share, which is no file.
pub open spec fn has_dotted_name(path: Seq<char>) -> bool {
    &&& extension_of(name_tail(path)) is Some
    &&& !is_dots(name_tail(path))
    &&& !(path.len() >= 2 && is_separator(path[0]) && is_separator(path[1]))
}

/// Whether `c` is a slash of either kind.
pub open spec fn is_slash(c: char) -> bool {
    c == '/' || c == '\\'
}

/// What follows the last slash of either kind.
pub open spec fn slash_tail(path: Seq<char>) -> Seq<char>
    decreases path.len(),
{
    if path.len() == 0 || is_slash(path.last()) {
        Seq::empty()
    } else {
        slash_tail(path.drop_last()).push(path.last())
    }
}

/// Whether a path begins with a drive letter.
pub open spec fn has_drive(path: Seq<char>) -> bool {
    path.len() >= 2 && ('a' <= path[0] <= 'z' || 'A' <= path[0] <= 'Z') && path[1] == ':'
}

/// A path without what names nothing at its end, where both slashes separate.
pub open spec fn either_body(path: Seq<char>) -> Seq<char>
    decreases path.len(),
{
    if path.len() > 0 && (is_slash(path.last()) || (path.len() >= 2 && path.last() == '.'
        && is_slash(path[path.len() - 2]))) {
        either_body(path.drop_last())
    } else {
        path
    }
}

/// The last part of a path where both slashes separate and a drive may stand in
/// front.
pub open spec fn drive_name(path: Seq<char>) -> Seq<char> {
    let body = either_body(path);
    if has_drive(body) && slash_tail(body) == body {
        body.skip(2)
    } else {
        slash_tail(body)
    }
}

/// Whether a path begins with two slashes, which may name a share rather than a
/// file.
pub open spec fn is_doubled(path: Seq<char>) -> bool {
    path.len() >= 2 && is_slash(path[0]) && is_slash(path[1])
}

/// A path that ends in a file name on every platform, though not in the same one:
/// in [`last_part`] where the slash alone separates, in [`drive_name`] where the
/// backslash does too.
pub open spec fn has_name(path: Seq<char>) -> bool {
    &&& !is_verbatim(path)
    &&& slash_name(path) is Some
    &&& drive_name(path).len() > 0
    &&& !is_dots(drive_name(path))
}

/// Whether `name` is what a platform takes for the file name of a path.
pub open spec fn is_name_in(path: Seq<char>, name: Seq<char>) -> bool {
    name == last_part(path) || name == drive_name(path)
}

/// Whether `stem` is what a platform takes for the stem of a path.
pub open spec fn is_stem_in(path: Seq<char>, stem: Seq<char>) -> bool {
    stem == stem_of(last_part(path)) || stem == stem_of(drive_name(path))
}

/// Whether `extension` is what a platform takes for the extension of a path.
pub open spec fn is_extension_in(path: Seq<char>, extension: Option<Seq<char>>) -> bool {
    ||| extension == extension_of(last_part(path))
    ||| extension == extension_of(drive_name(path))
    ||| extension is None && is_doubled(path)
}

/// `std::path::Path::extension`. Claimed of a path in which the slash is the one
/// separator that occurs, and of one whose name has a dot behind its first
/// character: its extension. Of any other path with a name, only that it is the
/// extension by one of the two ways to separate.
#[verifier::external_body]
pub(crate) fn path_extension(path: &str) -> (r: Option<String>)
    ensures
        is_simple_path(path@) ==> text::view_of(r) == slash_extension(path@),
        has_dotted_name(path@) ==> text::view_of(r) == extension_of(name_tail(path@)),
        has_name(path@) ==> is_extension_in(path@, text::view_of(r)),
{
    std::path::Path::new(path).extension().and_then(|e| e.to_str()).map(|e| e.to_string())
}

/// `std::path::Path::file_stem`. Claimed of a path in which the slash is the one
/// separator that occurs: its stem. Of any other path with a name, that it is the
/// stem by one of the two ways to separate, and that there is one unless the path
/// begins with two slashes.
#[verifier::external_body]
pub(crate) fn path_stem(path: &str) -> (r: Option<String>)
    ensures
        is_simple_path(path@) ==> text::view_of(r) == slash_stem(path@),
        has_name(path@) && r is Some ==> is_stem_in(path@, r->0@),
        has_name(path@) && r is None ==> is_doubled(path@),
{
    std::path::Path::new(path).file_stem().and_then(|s| s.to_str()).map(|s| s.to_string())
}

/// `std::path::Path::file_name`. Claimed of a path in which the slash is the one
/// separator that occurs: its name. Of any other path with a name, that it is the
/// name by one of the two ways to separate, and that there is one unless the path
/// begins with two slashes.
#[verifier::external_body]
pub(crate) fn path_file_name(path: &str) -> (r: Option<String>)
    ensures
        is_simple_path(path@) ==> text::view_of(r) == slash_name(path@),
        has_name(path@) && r is Some ==> is_name_in(path@, r->0@),
        has_name(path@) && r is None ==> is_doubled(path@),
{
    std::path::Path::new(path).file_name().map(|f| f.to_string_lossy().into_owned())
}

/// A path whose parts can be read off on every platform: slashes alone separate
/// them, none is left out, and none stands for where it is.
pub open spec fn is_clean_path(path: Seq<char>) -> bool {
    let parts = text::split(path, '/');
    &&& path.len() > 0
    &&& !path.contains('\\')
    &&& !path.contains(':')
    &&& forall|i: int| 0 < i < parts.len() ==> (#[trigger] parts[i]).len() > 0
    &&& forall|i: int| 0 <= i < parts.len() ==> #[trigger] parts[i] != seq!['.']
}

/// What holds of a comparison of two paths, part by part. Equal texts are equal
/// paths, and clean paths only those. Paths that are equal end in the same name.
pub open spec fn is_path_equality(a: Seq<char>, b: Seq<char>, equal: bool) -> bool {
    &&& a == b ==> equal
    &&& is_clean_path(a) && is_clean_path(b) ==> equal == (a == b)
    &&& has_name(a) && !is_doubled(a) && has_name(b) && !is_doubled(b) && equal ==> last_part(a)
        == last_part(b) || drive_name(a) == drive_name(b)
}

/// `==` of `std::path::Path`. Claimed: texts that are equal are equal paths; of
/// clean paths no others are; and equal paths have one file name, by one of the two
/// ways to separate. Which other texts name one path differs from platform to
/// platform.
#[verifier::external_body]
pub(crate) fn same_path(a: &str, b: &str) -> (r: bool)
    ensures
        is_path_equality(a@, b@, r),
{
    std::path::Path::new(a) == std::path::Path::new(b)
}

// ── the clock ──────────────────────────────────────────────────────────

/// `std::time::SystemTime::now`, counted from the Unix epoch: whole seconds, and
/// nanoseconds beyond them. `None` of a clock set before the epoch. Claimed: the
/// nanoseconds are less than a second; what time it is, is not said.
#[verifier::external_body]
pub(crate) fn since_epoch() -> (r: Option<(u64, u32)>)
    ensures
        r matches Some(t) ==> t.1 < 1_000_000_000,
{
    let now = std::time::SystemTime::now();
    let since = now.duration_since(std::time::UNIX_EPOCH).ok();
    since.map(|d| (d.as_secs(), d.subsec_nanos()))
}

/// How pairs of texts are seen.
pub proof fn lemma_pair_views(v: Seq<(String, String)>, i: int)
    requires
        0 <= i < v.len(),
    ensures
        pair_views(v).len() == v.len(),
        pair_views(v)[i].0 == v[i].0@,
        pair_views(v)[i].1 == v[i].1@,
{
}

} // verus!
