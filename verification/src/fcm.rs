//! The send URLs of FCM, and how they appear in the log.

use crate::endpoint::Url;
use crate::text::{chars_of, contains_char, same_text, starts_with};
use vstd::prelude::*;
use vstd::utf8::{encode_scalar, encode_utf8};

verus! {

/// Where every FCM send URL begins.
pub const FCM_SEND_PREFIX: &'static str = "https://fcm.googleapis.com/fcm/send/";

/// The longest body that FCM takes, in bytes.
pub const MAX_PAYLOAD: usize = 4096;

/// Whether a URL parser skips the character `c`.
pub open spec fn tab_or_newline(c: char) -> bool {
    c == '\t' || c == '\n' || c == '\r'
}

/// `segment` without the characters that a URL parser skips.
pub open spec fn stripped(segment: Seq<char>) -> Seq<char> {
    segment.filter(|c: char| !tab_or_newline(c))
}

/// Whether the character `c` stands for itself in a path segment.
pub open spec fn plain_char(c: char) -> bool {
    &&& ' ' < c <= '~'
    &&& c != '"' && c != '#' && c != '%' && c != '/' && c != '<' && c != '>' && c != '?'
    &&& c != '\\' && c != '`' && c != '{' && c != '}'
}

/// The upper-case hexadecimal digit for `n`.
pub open spec fn hex_digit(n: int) -> char {
    if n < 10 {
        (48 + n) as char
    } else {
        (55 + n) as char
    }
}

/// One byte of a path segment: itself, or its percent escape.
pub open spec fn escaped_byte(b: u8) -> Seq<char> {
    if plain_char(b as char) {
        seq![b as char]
    } else {
        seq!['%', hex_digit(b as int / 16), hex_digit(b as int % 16)]
    }
}

/// The path segment that stands for `bytes`.
pub open spec fn escaped(bytes: Seq<u8>) -> Seq<char>
    decreases bytes.len(),
{
    if bytes.len() == 0 {
        Seq::empty()
    } else {
        escaped(bytes.drop_last()) + escaped_byte(bytes.last())
    }
}

/// The URL that pushing a segment onto the send prefix gives, for the segment as
/// it is without tabs and line breaks.
pub open spec fn with_segment(base: Seq<char>, rest: Seq<char>) -> Seq<char> {
    if rest == ".."@ {
        "https://fcm.googleapis.com/fcm/"@
    } else if rest == "."@ {
        base
    } else {
        base + escaped(encode_utf8(rest))
    }
}

/// Whether the URL of `segment` under the send prefix has a length that fits in 32
/// bits, which is what a URL can hold.
pub open spec fn segment_fits(segment: Seq<char>) -> bool {
    FCM_SEND_PREFIX@.len() + escaped(encode_utf8(stripped(segment))).len() <= u32::MAX
}

/// Whether the send URL of `token` can be formed, or is not asked for: a token with
/// a slash is refused before.
pub open spec fn token_fits(token: Seq<char>) -> bool {
    token.contains('/') || segment_fits(token)
}

/// `url::Url::parse` of `base`, then `PathSegmentsMut::pop_if_empty` and
/// `PathSegmentsMut::push` of `segment`, with the URL handed on in its
/// serialized form. What is claimed is claimed of the one base that the library
/// uses: tabs and line breaks are dropped from the segment and the rest is
/// escaped and put at the end, but where only dots are left, one dot adds
/// nothing and two dots take a segment away. Past the bound on the length the call
/// panics.
#[verifier::external_body]
fn push_segment(base: &str, segment: &str) -> (href: Option<String>)
    requires
        base@ == FCM_SEND_PREFIX@,
        segment@ != "."@,
        segment@ != ".."@,
        segment_fits(segment@),
    ensures
        href is Some,
        href->0@ == with_segment(base@, stripped(segment@)),
{
    let mut url = url::Url::parse(base).ok()?;
    url.path_segments_mut().ok()?.pop_if_empty().push(segment);
    Some(url.into())
}

/// Whether `token` can be a single path segment under the send prefix.
pub open spec fn usable_token(token: Seq<char>) -> bool {
    &&& !token.contains('/')
    &&& stripped(token).len() > 0
    &&& stripped(token) != "."@
    &&& stripped(token) != ".."@
}

/// The send URL of a usable token.
pub open spec fn token_url(token: Seq<char>) -> Seq<char> {
    FCM_SEND_PREFIX@ + escaped(encode_utf8(stripped(token)))
}

proof fn lemma_escaped_nonempty(chars: Seq<char>)
    requires
        chars.len() > 0,
    ensures
        escaped(encode_utf8(chars)).len() > 0,
{
    vstd::utf8::encode_utf8_first_scalar(chars);
    let bytes = encode_utf8(chars);
    assert(bytes.len() > 0);
    assert(escaped_byte(bytes.last()).len() > 0);
}

/// Nothing is dropped from a segment without tabs and line breaks.
proof fn lemma_stripped_keeps(segment: Seq<char>)
    requires
        forall|i: int| 0 <= i < segment.len() ==> !tab_or_newline(#[trigger] segment[i]),
    ensures
        stripped(segment) == segment,
    decreases segment.len(),
{
    reveal(Seq::filter);
    if segment.len() > 0 {
        lemma_stripped_keeps(segment.drop_last());
        assert(segment.drop_last().push(segment.last()) =~= segment);
    }
}

/// Resolves an opaque FCM token into its send URL, or `None` when the token
/// cannot be a single path segment under [`FCM_SEND_PREFIX`].
///
/// The token is appended as a path segment rather than joined as a relative
/// reference: an FCM token has the shape `<id>:<rest>`, and a relative join
/// reads an alphanumeric `<id>:` as a URL scheme, turning the whole thing into
/// an absolute URL that no longer points at FCM.
pub fn send_url(token: &str) -> (url: Option<Url>)
    requires
        token_fits(token@),
    ensures
        url is Some <==> usable_token(token@),
        url matches Some(u) ==> u@ == token_url(token@),
{
    proof {
        reveal_strlit(".");
        reveal_strlit("..");
        reveal_strlit("https://fcm.googleapis.com/fcm/");
        reveal_strlit("https://fcm.googleapis.com/fcm/send/");
        if token@.len() == 0 || token@ == "."@ || token@ == ".."@ {
            lemma_stripped_keeps(token@);
        }
    }
    if token.is_empty() || contains_char(token, '/') || same_text(token, ".") || same_text(
        token,
        "..",
    ) {
        return None;
    }
    let href = match push_segment(FCM_SEND_PREFIX, token) {
        Some(href) => href,
        None => return None,
    };
    proof {
        if stripped(token@).len() > 0 {
            lemma_escaped_nonempty(stripped(token@));
        }
    }
    if href.as_str().unicode_len() > FCM_SEND_PREFIX.unicode_len() && starts_with(
        href.as_str(),
        FCM_SEND_PREFIX,
    ) {
        Some(Url { href })
    } else {
        None
    }
}

proof fn lemma_escaped_concat(a: Seq<u8>, b: Seq<u8>)
    ensures
        escaped(a + b) == escaped(a) + escaped(b),
    decreases b.len(),
{
    let all = a + b;
    if b.len() == 0 {
        assert(all =~= a);
        assert(escaped(all) =~= escaped(a) + escaped(b));
    } else {
        lemma_escaped_concat(a, b.drop_last());
        assert(all.drop_last() =~= a + b.drop_last());
        assert(escaped(all) =~= escaped(a) + escaped(b));
    }
}

proof fn lemma_encode_push(chars: Seq<char>, c: char)
    ensures
        encode_utf8(chars.push(c)) == encode_utf8(chars) + encode_scalar(c as u32),
    decreases chars.len(),
{
    let all = chars.push(c);
    if chars.len() == 0 {
        assert(encode_utf8(all.drop_first()) =~= Seq::empty());
        assert(encode_utf8(all) =~= encode_utf8(chars) + encode_scalar(c as u32));
    } else {
        lemma_encode_push(chars.drop_first(), c);
        assert(all.drop_first() =~= chars.drop_first().push(c));
        assert(all[0] == chars[0]);
        assert(encode_utf8(all) =~= encode_utf8(chars) + encode_scalar(c as u32));
    }
}

/// How many characters of a path segment the character `c` takes.
spec fn room(c: char) -> nat {
    if tab_or_newline(c) {
        0
    } else if plain_char(c) {
        1
    } else {
        3 * encode_scalar(c as u32).len()
    }
}

/// The length of the path segment that stands for `segment`.
spec fn segment_len(segment: Seq<char>) -> nat {
    escaped(encode_utf8(stripped(segment))).len()
}

proof fn lemma_high_bytes(v: u32)
    by (bit_vector)
    ensures
        0xC0u8 | ((v >> 6) & 0x1F) as u8 >= 0x80,
        0xE0u8 | ((v >> 12) & 0x0F) as u8 >= 0x80,
        0xF0u8 | ((v >> 18) & 0x7) as u8 >= 0x80,
        0x80u8 | (v & 0x3F) as u8 >= 0x80,
        0x80u8 | ((v >> 6) & 0x3F) as u8 >= 0x80,
        0x80u8 | ((v >> 12) & 0x3F) as u8 >= 0x80,
        v <= 0x7F ==> (v & 0x7F) == v,
{
}

proof fn lemma_escaped_high(bytes: Seq<u8>)
    requires
        forall|i: int| 0 <= i < bytes.len() ==> !plain_char(#[trigger] bytes[i] as char),
    ensures
        escaped(bytes).len() == 3 * bytes.len(),
    decreases bytes.len(),
{
    if bytes.len() > 0 {
        lemma_escaped_high(bytes.drop_last());
    }
}

proof fn lemma_segment_len_push(segment: Seq<char>, c: char)
    ensures
        segment_len(segment.push(c)) == segment_len(segment) + room(c),
{
    let all = segment.push(c);
    let bytes = encode_scalar(c as u32);
    reveal(Seq::filter);
    assert(all.drop_last() =~= segment);
    if !tab_or_newline(c) {
        lemma_encode_push(stripped(segment), c);
        lemma_escaped_concat(encode_utf8(stripped(segment)), bytes);
        vstd::utf8::char_is_scalar(c);
        lemma_high_bytes(c as u32);
        if plain_char(c) {
            lemma_escaped_plain(bytes);
        } else {
            lemma_escaped_high(bytes);
        }
    }
}

proof fn lemma_segment_len_grows(segment: Seq<char>, n: int)
    requires
        0 <= n <= segment.len(),
    ensures
        segment_len(segment.take(n)) <= segment_len(segment),
    decreases segment.len() - n,
{
    if n < segment.len() {
        assert(segment.take(n + 1) =~= segment.take(n).push(segment[n]));
        lemma_segment_len_push(segment.take(n), segment[n]);
        lemma_segment_len_grows(segment, n + 1);
    } else {
        assert(segment.take(n) =~= segment);
    }
}

fn room_of(c: char) -> (n: u64)
    ensures
        n == room(c),
        n <= 12,
{
    proof {
        vstd::utf8::char_is_scalar(c);
    }
    if c == '\t' || c == '\n' || c == '\r' {
        0
    } else if ' ' < c && c <= '~' && c != '"' && c != '#' && c != '%' && c != '/' && c != '<' && c
        != '>' && c != '?' && c != '\\' && c != '`' && c != '{' && c != '}' {
        1
    } else if c <= '\u{7f}' {
        3
    } else if c <= '\u{7ff}' {
        6
    } else if c <= '\u{ffff}' {
        9
    } else {
        12
    }
}

/// Whether [`send_url`] may be asked for the send URL of `token`.
pub fn fits_in_url(token: &str) -> (fits: bool)
    ensures
        fits == token_fits(token@),
{
    if contains_char(token, '/') {
        return true;
    }
    let chars = chars_of(token);
    let mut total: u64 = FCM_SEND_PREFIX.unicode_len() as u64;
    let mut i: usize = 0;
    proof {
        reveal_strlit("https://fcm.googleapis.com/fcm/send/");
        reveal(Seq::filter);
        assert(token@.take(0) =~= Seq::empty());
    }
    while i < chars.len()
        invariant
            i <= chars@.len(),
            chars@ == token@,
            !token@.contains('/'),
            total == FCM_SEND_PREFIX@.len() + segment_len(token@.take(i as int)),
            total <= u32::MAX,
        decreases chars@.len() - i,
    {
        proof {
            assert(token@.take(i + 1) =~= token@.take(i as int).push(token@[i as int]));
            lemma_segment_len_push(token@.take(i as int), token@[i as int]);
            lemma_segment_len_grows(token@, i + 1);
        }
        total = total + room_of(chars[i]);
        if total > u32::MAX as u64 {
            return false;
        }
        i = i + 1;
    }
    proof {
        assert(token@.take(i as int) =~= token@);
    }
    true
}

/// The redacted form of a URL: of an FCM URL, no more than six characters of the
/// device token are kept. Any other URL is kept whole.
pub open spec fn redacted(href: Seq<char>) -> Seq<char> {
    if FCM_SEND_PREFIX@.is_prefix_of(href) {
        let token = href.skip(FCM_SEND_PREFIX@.len() as int);
        let shown = if token.len() < 6 {
            token.len() as int
        } else {
            6
        };
        FCM_SEND_PREFIX@ + token.take(shown) + "\u{2026}"@
    } else {
        href
    }
}

/// A push destination for the log. An FCM URL carries a device token, so only
/// enough of it to correlate log lines is printed.
pub struct Redacted<'a>(pub &'a Url);

impl<'a> Redacted<'a> {
    /// The text that goes to the log.
    pub fn to_string(&self) -> (text: String)
        ensures
            text@ == redacted(self.0@),
    {
        let href = self.0.as_str();
        if !starts_with(href, FCM_SEND_PREFIX) {
            return href.to_owned();
        }
        let start = FCM_SEND_PREFIX.unicode_len();
        let len = href.unicode_len();
        let end: usize = if len - start < 6 {
            len
        } else {
            start + 6
        };
        proof {
            let token = href@.skip(start as int);
            assert(href@.subrange(start as int, end as int) =~= token.take(end - start));
        }
        let mut text = FCM_SEND_PREFIX.to_owned();
        text.append(href.substring_char(start, end));
        text.append("\u{2026}");
        text
    }
}

proof fn lemma_escaped_byte_is_one_segment(b: u8, i: int)
    requires
        0 <= i < escaped_byte(b).len(),
    ensures
        escaped_byte(b)[i] != '/',
        escaped_byte(b)[i] != '\\',
        escaped_byte(b)[i] != '?',
        escaped_byte(b)[i] != '#',
        ' ' < escaped_byte(b)[i] <= '~',
{
}

proof fn lemma_escaped_is_one_segment(bytes: Seq<u8>, i: int)
    requires
        0 <= i < escaped(bytes).len(),
    ensures
        escaped(bytes)[i] != '/',
        escaped(bytes)[i] != '\\',
        escaped(bytes)[i] != '?',
        escaped(bytes)[i] != '#',
        ' ' < escaped(bytes)[i] <= '~',
    decreases bytes.len(),
{
    let front = escaped(bytes.drop_last());
    if i < front.len() {
        lemma_escaped_is_one_segment(bytes.drop_last(), i);
    } else {
        lemma_escaped_byte_is_one_segment(bytes.last(), i - front.len());
    }
}

/// A send URL never leaves the send prefix: behind it stands exactly one path
/// segment, which is not empty and holds neither a separator, nor the start of a
/// query or a fragment, nor anything but visible ASCII.
pub proof fn law_send_url_is_one_segment_under_the_prefix(token: Seq<char>)
    requires
        usable_token(token),
    ensures
        FCM_SEND_PREFIX@.is_prefix_of(token_url(token)),
        token_url(token).len() > FCM_SEND_PREFIX@.len(),
        forall|i: int|
            FCM_SEND_PREFIX@.len() <= i < token_url(token).len() ==> {
                let c = #[trigger] token_url(token)[i];
                c != '/' && c != '\\' && c != '?' && c != '#' && ' ' < c <= '~'
            },
{
    lemma_escaped_nonempty(stripped(token));
    let bytes = encode_utf8(stripped(token));
    assert forall|i: int| FCM_SEND_PREFIX@.len() <= i < token_url(token).len() implies ({
        let c = #[trigger] token_url(token)[i];
        c != '/' && c != '\\' && c != '?' && c != '#' && ' ' < c <= '~'
    }) by {
        let j = i - FCM_SEND_PREFIX@.len();
        assert(token_url(token)[i] == escaped(bytes)[j]);
        lemma_escaped_is_one_segment(bytes, j);
    }
}

proof fn lemma_escaped_plain(bytes: Seq<u8>)
    requires
        forall|i: int| 0 <= i < bytes.len() ==> plain_char(#[trigger] bytes[i] as char),
    ensures
        escaped(bytes) =~= Seq::new(bytes.len(), |i: int| bytes[i] as char),
    decreases bytes.len(),
{
    if bytes.len() > 0 {
        lemma_escaped_plain(bytes.drop_last());
    }
}

/// A token made of characters that need no escape is sent to as it stands: its
/// URL is the send prefix followed by the token, whatever its part before a
/// colon looks like.
pub proof fn law_plain_token_is_kept(token: Seq<char>)
    requires
        token.len() > 0,
        token != "."@,
        token != ".."@,
        forall|i: int| 0 <= i < token.len() ==> plain_char(#[trigger] token[i]),
    ensures
        usable_token(token),
        token_url(token) == FCM_SEND_PREFIX@ + token,
{
    lemma_stripped_keeps(token);
    assert(vstd::utf8::is_ascii_chars(token));
    vstd::utf8::is_ascii_chars_encode_utf8(token);
    let bytes = encode_utf8(token);
    assert forall|i: int| 0 <= i < bytes.len() implies plain_char(#[trigger] bytes[i] as char) by {
        assert(bytes[i] == token[i] as u8);
    }
    lemma_escaped_plain(bytes);
    assert(escaped(bytes) =~= token) by {
        assert forall|i: int| 0 <= i < token.len() implies escaped(bytes)[i] == token[i] by {
            assert(bytes[i] == token[i] as u8);
        }
    }
}

/// The value of a hexadecimal digit.
pub open spec fn hex_value(c: char) -> Option<int> {
    if '0' <= c <= '9' {
        Some(c as int - 48)
    } else if 'A' <= c <= 'F' {
        Some(c as int - 55)
    } else if 'a' <= c <= 'f' {
        Some(c as int - 87)
    } else {
        None
    }
}

/// The bytes that a path segment in ASCII stands for: each percent escape is
/// undone, and any other character is taken as it is.
pub open spec fn unescaped(segment: Seq<char>) -> Seq<u8>
    decreases segment.len(),
{
    if segment.len() == 0 {
        Seq::empty()
    } else if segment[0] == '%' && segment.len() >= 3 && hex_value(segment[1]) is Some
        && hex_value(segment[2]) is Some {
        seq![(16 * hex_value(segment[1])->0 + hex_value(segment[2])->0) as u8] + unescaped(
            segment.skip(3),
        )
    } else {
        seq![segment[0] as u8] + unescaped(segment.skip(1))
    }
}

proof fn lemma_escaped_from_the_front(bytes: Seq<u8>)
    requires
        bytes.len() > 0,
    ensures
        escaped(bytes) == escaped_byte(bytes[0]) + escaped(bytes.drop_first()),
    decreases bytes.len(),
{
    let front = bytes.drop_last();
    if front.len() == 0 {
        assert(front =~= Seq::empty());
        assert(bytes.drop_first() =~= Seq::empty());
        assert(escaped(bytes) =~= escaped_byte(bytes[0]) + escaped(bytes.drop_first()));
    } else {
        lemma_escaped_from_the_front(front);
        assert(bytes.drop_first().drop_last() =~= front.drop_first());
        assert(escaped(bytes) =~= escaped_byte(bytes[0]) + escaped(bytes.drop_first()));
    }
}

proof fn lemma_unescaped_byte(b: u8, rest: Seq<char>)
    ensures
        unescaped(escaped_byte(b) + rest) == seq![b] + unescaped(rest),
{
    let segment = escaped_byte(b) + rest;
    if plain_char(b as char) {
        assert(segment.skip(1) =~= rest);
    } else {
        let high = b as int / 16;
        let low = b as int % 16;
        assert(hex_value(hex_digit(high)) == Some(high));
        assert(hex_value(hex_digit(low)) == Some(low));
        assert(segment.skip(3) =~= rest);
    }
}

/// Undoing the escapes of a path segment gives back the bytes that it was made
/// of.
pub proof fn law_escaping_can_be_undone(bytes: Seq<u8>)
    ensures
        unescaped(escaped(bytes)) == bytes,
    decreases bytes.len(),
{
    if bytes.len() > 0 {
        lemma_escaped_from_the_front(bytes);
        lemma_unescaped_byte(bytes[0], escaped(bytes.drop_first()));
        law_escaping_can_be_undone(bytes.drop_first());
        assert(seq![bytes[0]] + bytes.drop_first() =~= bytes);
    }
}

/// Undoing the escapes of what stands behind the send prefix gives back the token,
/// without its tabs and line breaks where it has any.
pub proof fn law_send_url_gives_the_token_back(token: Seq<char>)
    ensures
        unescaped(token_url(token).skip(FCM_SEND_PREFIX@.len() as int)) == encode_utf8(
            stripped(token),
        ),
        (forall|i: int| 0 <= i < token.len() ==> !tab_or_newline(#[trigger] token[i]))
            ==> unescaped(token_url(token).skip(FCM_SEND_PREFIX@.len() as int)) == encode_utf8(
            token,
        ),
{
    let bytes = encode_utf8(stripped(token));
    assert(token_url(token).skip(FCM_SEND_PREFIX@.len() as int) =~= escaped(bytes));
    law_escaping_can_be_undone(bytes);
    if forall|i: int| 0 <= i < token.len() ==> !tab_or_newline(#[trigger] token[i]) {
        lemma_stripped_keeps(token);
    }
}

/// Two tokens with one send URL differ in tabs and line breaks at most.
pub proof fn law_send_urls_tell_tokens_apart(a: Seq<char>, b: Seq<char>)
    requires
        token_url(a) == token_url(b),
    ensures
        stripped(a) == stripped(b),
        (forall|i: int| 0 <= i < a.len() ==> !tab_or_newline(#[trigger] a[i])) && (forall|i: int|
            0 <= i < b.len() ==> !tab_or_newline(#[trigger] b[i])) ==> a == b,
{
    law_send_url_gives_the_token_back(a);
    law_send_url_gives_the_token_back(b);
    vstd::utf8::encode_utf8_decode_utf8(stripped(a));
    vstd::utf8::encode_utf8_decode_utf8(stripped(b));
    if forall|i: int| 0 <= i < a.len() ==> !tab_or_newline(#[trigger] a[i]) {
        lemma_stripped_keeps(a);
    }
    if forall|i: int| 0 <= i < b.len() ==> !tab_or_newline(#[trigger] b[i]) {
        lemma_stripped_keeps(b);
    }
}

/// The part of an FCM URL that its log text may depend on: the send prefix and
/// the first six characters behind it.
pub open spec fn loggable(href: Seq<char>) -> Seq<char> {
    let end = FCM_SEND_PREFIX@.len() + 6int;
    if href.len() < end {
        href
    } else {
        href.take(end)
    }
}

/// The log text of an FCM URL depends on no more than six characters of the
/// token: URLs that agree up to there are printed alike.
pub proof fn law_redaction_hides_the_token(a: Seq<char>, b: Seq<char>)
    requires
        FCM_SEND_PREFIX@.is_prefix_of(a),
        loggable(a) == loggable(b),
    ensures
        redacted(a) == redacted(b),
        redacted(a) == loggable(a) + "\u{2026}"@,
{
    lemma_redacted_is_loggable(a);
    let n = FCM_SEND_PREFIX@.len() as int;
    assert forall|i: int| 0 <= i < n implies b[i] == FCM_SEND_PREFIX@[i] by {
        assert(loggable(a)[i] == a[i]);
        assert(loggable(b)[i] == b[i]);
    }
    assert(loggable(a).len() >= n);
    assert(FCM_SEND_PREFIX@.is_prefix_of(b));
    lemma_redacted_is_loggable(b);
}

proof fn lemma_redacted_is_loggable(href: Seq<char>)
    requires
        FCM_SEND_PREFIX@.is_prefix_of(href),
    ensures
        redacted(href) == loggable(href) + "\u{2026}"@,
{
    let n = FCM_SEND_PREFIX@.len() as int;
    let token = href.skip(n);
    let shown = if token.len() < 6 {
        token.len() as int
    } else {
        6
    };
    assert(FCM_SEND_PREFIX@ + token.take(shown) =~= loggable(href));
}

/// A URL that does not lead to FCM is logged whole.
pub proof fn law_other_urls_are_logged_whole(href: Seq<char>)
    requires
        !FCM_SEND_PREFIX@.is_prefix_of(href),
    ensures
        redacted(href) == href,
{
}

/// A token without tabs and line breaks is usable exactly where it is not empty,
/// has no slash and is neither one dot nor two: no token is turned down for its
/// length or for any other character.
pub proof fn law_usable_tokens(token: Seq<char>)
    requires
        forall|i: int|
            0 <= i < token.len() ==> {
                let code = #[trigger] token[i] as int;
                code != 9 && code != 10 && code != 13
            },
    ensures
        usable_token(token) <==> token.len() > 0 && !token.contains('/') && token != seq!['.']
            && token != seq!['.', '.'],
{
    reveal_strlit(".");
    reveal_strlit("..");
    assert("."@ =~= seq!['.']);
    assert(".."@ =~= seq!['.', '.']);
    assert forall|i: int| 0 <= i < token.len() implies !tab_or_newline(#[trigger] token[i]) by {
        assert(token[i] as int != 9);
    }
    lemma_stripped_keeps(token);
}

/// Tabs and line breaks count for nothing: a token is usable, and is sent to, as it
/// is without them.
pub proof fn law_tabs_and_line_breaks_count_for_nothing(a: Seq<char>, b: Seq<char>, c: char)
    ensures
        stripped(a + b) == stripped(a) + stripped(b),
        c as int == 9 || c as int == 10 || c as int == 13 ==> stripped(seq![c]).len() == 0,
        c as int != 9 && c as int != 10 && c as int != 13 ==> stripped(seq![c]) == seq![c],
        usable_token(a) <==> !a.contains('/') && usable_token(stripped(a)),
        token_url(a) == token_url(stripped(a)),
{
    let keep = |x: char| !tab_or_newline(x);
    Seq::filter_distributes_over_add(a, b, keep);
    assert forall|i: int| 0 <= i < stripped(a).len() implies !tab_or_newline(
        #[trigger] stripped(a)[i],
    ) by {
        a.lemma_filter_pred(keep, i);
    }
    lemma_stripped_keeps(stripped(a));
    if stripped(a).contains('/') {
        a.lemma_filter_contains_rev(keep, '/');
    }
    reveal(Seq::filter);
    assert(seq![c].drop_last() =~= Seq::empty());
    assert(Seq::<char>::empty().filter(keep) =~= Seq::empty());
    assert(keep(c) ==> seq![c].filter(keep) =~= seq![c]);
}

/// A path segment is written byte by byte. A letter, a digit and each of
/// `!$&'()*+,-.:;=@[]^_|~` stands for itself, and any other byte is a percent sign
/// and two hexadecimal digits in upper case.
pub proof fn law_bytes_are_escaped_one_by_one(a: Seq<u8>, b: Seq<u8>, byte: u8)
    ensures
        escaped(a + b) == escaped(a) + escaped(b),
        escaped(Seq::empty()) == Seq::<char>::empty(),
        ({
            let kept = {
                ||| 48 <= byte <= 57 || 65 <= byte <= 90 || 97 <= byte <= 122
                ||| byte == 33 || byte == 36 || 38 <= byte <= 46 || byte == 58 || byte == 59
                ||| byte == 61 || byte == 64 || byte == 91 || 93 <= byte <= 95 || byte == 124
                ||| byte == 126
            };
            let high = byte as int / 16;
            let low = byte as int % 16;
            let one = escaped(seq![byte]);
            &&& kept ==> one == seq![byte as char]
            &&& !kept ==> one.len() == 3 && one[0] == '%' && one[1] as int == (if high < 10 {
                48 + high
            } else {
                55 + high
            }) && one[2] as int == (if low < 10 {
                48 + low
            } else {
                55 + low
            })
        }),
{
    lemma_escaped_concat(a, b);
    assert(seq![byte].drop_last() =~= Seq::empty());
    assert(escaped(Seq::<u8>::empty()) =~= Seq::empty());
    assert(escaped(seq![byte]) =~= escaped_byte(byte));
}

/// A registration token, made of letters, digits, colons, hyphens and underscores,
/// is usable whatever its length, and its send URL is the token behind
/// `https://fcm.googleapis.com/fcm/send/`.
pub proof fn law_registration_tokens_are_sent_to(token: Seq<char>)
    requires
        token.len() > 0,
        forall|i: int|
            0 <= i < token.len() ==> {
                ||| 'A' <= #[trigger] token[i] <= 'Z'
                ||| 'a' <= token[i] <= 'z'
                ||| '0' <= token[i] <= '9'
                ||| token[i] == ':'
                ||| token[i] == '-'
                ||| token[i] == '_'
            },
    ensures
        usable_token(token),
        token_url(token) == "https://fcm.googleapis.com/fcm/send/"@ + token,
{
    reveal_strlit(".");
    reveal_strlit("..");
    assert(token[0] != '.');
    law_plain_token_is_kept(token);
}

/// A token of up to some hundred million characters can be asked for: the send URL
/// has at most three characters for each byte of it.
pub proof fn law_tokens_of_any_real_length_fit(token: Seq<char>)
    requires
        36 + 3 * encode_utf8(token).len() <= 4294967295,
    ensures
        token_fits(token),
        token_url(token).len() <= 36 + 3 * encode_utf8(token).len(),
{
    reveal_strlit("https://fcm.googleapis.com/fcm/send/");
    lemma_segment_len_bound(token);
}

proof fn lemma_segment_len_bound(token: Seq<char>)
    ensures
        segment_len(token) <= 3 * encode_utf8(token).len(),
    decreases token.len(),
{
    reveal(Seq::filter);
    if token.len() > 0 {
        let front = token.drop_last();
        let last = token.last();
        lemma_segment_len_bound(front);
        assert(front.push(last) =~= token);
        lemma_segment_len_push(front, last);
        lemma_encode_push(front, last);
        assert(encode_scalar(last as u32).len() >= 1);
    }
}

/// What the log shows of a push to FCM: the URL up to the token, no more than six
/// characters of the token, and an ellipsis. Any other URL is shown as it is.
pub proof fn law_log_shows_six_characters_of_a_token(token: Seq<char>, href: Seq<char>)
    ensures
        ({
            let prefix = "https://fcm.googleapis.com/fcm/send/"@;
            let text = redacted(prefix + token);
            &&& token.len() <= 6 ==> text == prefix + token + seq!['\u{2026}']
            &&& token.len() > 6 ==> text == prefix + token.take(6) + seq!['\u{2026}']
            &&& !prefix.is_prefix_of(href) ==> redacted(href) == href
        }),
{
    let prefix = "https://fcm.googleapis.com/fcm/send/"@;
    let url = prefix + token;
    reveal_strlit("\u{2026}");
    assert("\u{2026}"@ =~= seq!['\u{2026}']);
    assert(prefix.is_prefix_of(url));
    assert(url.skip(prefix.len() as int) =~= token);
    assert(token.take(token.len() as int) =~= token);
}

} // verus!
