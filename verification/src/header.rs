//! HTTP header values.

use vstd::prelude::*;
use vstd::utf8::encode_utf8;

verus! {

/// Whether a header value may hold the character `c`.
pub open spec fn header_char(c: char) -> bool {
    c == '\t' || (c >= ' ' && c != '\u{7f}')
}

/// Whether a header value may hold all of `text`.
pub open spec fn header_text(text: Seq<char>) -> bool {
    forall|i: int| 0 <= i < text.len() ==> header_char(#[trigger] text[i])
}

/// Whether `b` is a tab or a visible ASCII character, the space among them.
pub open spec fn visible_byte(b: u8) -> bool {
    b == 9 || 32 <= b < 127
}

/// Whether every byte of `bytes` is a tab or visible ASCII.
pub open spec fn visible(bytes: Seq<u8>) -> bool {
    forall|i: int| 0 <= i < bytes.len() ==> visible_byte(#[trigger] bytes[i])
}

/// The characters that the ASCII `bytes` stand for.
pub open spec fn ascii_chars(bytes: Seq<u8>) -> Seq<char> {
    Seq::new(bytes.len(), |i: int| bytes[i] as char)
}

/// `HeaderValue::from_str` of the `http` types that `reqwest` re-exports, with
/// the value handed on as its bytes. The call accepts a text without control
/// characters other than the tab, and keeps its UTF-8 bytes.
#[verifier::external_body]
fn value_from_str(text: &str) -> (r: Option<Vec<u8>>)
    ensures
        r is Some <==> header_text(text@),
        r matches Some(bytes) ==> bytes@ == encode_utf8(text@),
{
    reqwest::header::HeaderValue::from_str(text).ok().map(|v| v.as_bytes().to_vec())
}

/// `HeaderValue::to_str` of the `http` types that `reqwest` re-exports, on the
/// value that holds `bytes`. The call succeeds exactly where every byte is a tab
/// or visible ASCII, and then hands out those characters.
#[verifier::external_body]
fn value_to_str(bytes: &[u8]) -> (r: Option<String>)
    ensures
        r is Some <==> visible(bytes@),
        r matches Some(text) ==> text@ == ascii_chars(bytes@),
{
    let value = reqwest::header::HeaderValue::from_bytes(bytes).ok()?;
    value.to_str().ok().map(|s| s.to_owned())
}

/// The value of one HTTP header.
#[derive(Debug)]
pub struct HeaderValue {
    pub bytes: Vec<u8>,
}

impl View for HeaderValue {
    type V = Seq<u8>;

    open spec fn view(&self) -> Seq<u8> {
        self.bytes@
    }
}

impl HeaderValue {
    /// The header value that holds `text`, or `None` where `text` has a
    /// character that no header value may hold.
    pub fn from_str(text: &str) -> (value: Option<HeaderValue>)
        ensures
            value is Some <==> header_text(text@),
            value matches Some(v) ==> v@ == encode_utf8(text@),
    {
        match value_from_str(text) {
            Some(bytes) => Some(HeaderValue { bytes }),
            None => None,
        }
    }

    /// The text of the value, or `None` where a byte is neither a tab nor
    /// visible ASCII.
    pub fn to_str(&self) -> (text: Option<String>)
        ensures
            text is Some <==> visible(self@),
            text matches Some(t) ==> t@ == ascii_chars(self@),
    {
        value_to_str(self.bytes.as_slice())
    }

    /// A value with the same bytes.
    pub fn copy(&self) -> (value: HeaderValue)
        ensures
            value@ == self@,
    {
        let mut bytes: Vec<u8> = Vec::new();
        bytes.extend_from_slice(self.bytes.as_slice());
        HeaderValue { bytes }
    }
}

/// The text of an optional header, with the empty text in place of a header
/// that is absent or that is not visible ASCII.
pub open spec fn field_text(value: Option<Seq<u8>>) -> Seq<char> {
    match value {
        Some(bytes) if visible(bytes) => ascii_chars(bytes),
        _ => Seq::empty(),
    }
}

/// The bytes of an optional header.
pub open spec fn field_view(value: Option<HeaderValue>) -> Option<Seq<u8>> {
    match value {
        Some(v) => Some(v@),
        None => None,
    }
}

/// The text of an optional header, or the empty text.
pub fn header_field(value: &Option<HeaderValue>) -> (text: String)
    ensures
        text@ == field_text(field_view(*value)),
{
    match value {
        Some(v) => match v.to_str() {
            Some(text) => text,
            None => String::new(),
        },
        None => String::new(),
    }
}

/// A header made of tabs and visible ASCII is read as it stands: the text has a
/// character for each byte, with the same code.
pub proof fn law_readable_header_is_kept(bytes: Seq<u8>)
    requires
        forall|i: int| 0 <= i < bytes.len() ==> #[trigger] bytes[i] == 9 || 32 <= bytes[i] <= 126,
    ensures
        field_text(Some(bytes)).len() == bytes.len(),
        forall|i: int|
            0 <= i < bytes.len() ==> #[trigger] field_text(Some(bytes))[i] as int == bytes[i] as int,
{
    assert(visible(bytes));
}

/// A header with any other byte, wherever it stands, is read as the empty text,
/// and so is one that is absent.
pub proof fn law_unreadable_header_is_empty(bytes: Seq<u8>, i: int)
    requires
        0 <= i < bytes.len(),
        bytes[i] != 9 && !(32 <= bytes[i] <= 126),
    ensures
        field_text(Some(bytes)).len() == 0,
        field_text(None).len() == 0,
{
    assert(!visible_byte(bytes[i]));
}

/// Two readable headers that differ are read as texts that differ.
pub proof fn law_headers_are_told_apart(a: Seq<u8>, b: Seq<u8>)
    requires
        forall|i: int| 0 <= i < a.len() ==> #[trigger] a[i] == 9 || 32 <= a[i] <= 126,
        forall|i: int| 0 <= i < b.len() ==> #[trigger] b[i] == 9 || 32 <= b[i] <= 126,
        field_text(Some(a)) == field_text(Some(b)),
    ensures
        a == b,
{
    law_readable_header_is_kept(a);
    law_readable_header_is_kept(b);
    assert forall|i: int| 0 <= i < a.len() implies a[i] == b[i] by {
        assert(field_text(Some(a))[i] as int == a[i] as int);
        assert(field_text(Some(b))[i] as int == b[i] as int);
    }
    assert(a =~= b);
}

/// A text may be a header value exactly where it has no control character other
/// than the tab.
pub proof fn law_control_characters_make_no_header(text: Seq<char>)
    ensures
        header_text(text) <==> !(exists|i: int|
            0 <= i < text.len() && (#[trigger] text[i] as int != 9 && (text[i] as int) < 32
                || text[i] as int == 127)),
{
    if header_text(text) {
        assert forall|i: int| 0 <= i < text.len() implies !(#[trigger] text[i] as int != 9 && (
        text[i] as int) < 32 || text[i] as int == 127) by {
            assert(header_char(text[i]));
        }
    } else {
        let i = choose|i: int| 0 <= i < text.len() && !header_char(#[trigger] text[i]);
        assert(text[i] as int != 9 && (text[i] as int) < 32 || text[i] as int == 127);
    }
}

/// What is put into a header value as tabs and visible ASCII is read back as it
/// was.
pub proof fn law_header_round_trips(text: Seq<char>)
    requires
        forall|i: int|
            0 <= i < text.len() ==> #[trigger] text[i] == '\t' || 32 <= text[i] as int <= 126,
    ensures
        header_text(text),
        visible(encode_utf8(text)),
        ascii_chars(encode_utf8(text)) == text,
        field_text(Some(encode_utf8(text))) == text,
{
    let bytes = encode_utf8(text);
    assert(vstd::utf8::is_ascii_chars(text));
    vstd::utf8::is_ascii_chars_encode_utf8(text);
    assert forall|i: int| 0 <= i < bytes.len() implies visible_byte(#[trigger] bytes[i]) by {
        assert(bytes[i] == text[i] as u8);
    }
    assert forall|i: int| 0 <= i < text.len() implies ascii_chars(bytes)[i] == text[i] by {
        assert(bytes[i] == text[i] as u8);
    }
    assert(ascii_chars(bytes) =~= text);
}

} // verus!
