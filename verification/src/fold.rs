//! Folding the headers of an `aesgcm` push into its body.
//!
//! UnifiedPush distributors forward the body and drop the headers, so the
//! parameters that a device needs to decrypt a push travel in the body:
//!
//! ```text
//! aesgcm\n
//! Encryption: <value>\n
//! Crypto-Key: <value>\n
//! <ciphertext>
//! ```

use vstd::prelude::*;
use vstd::utf8::encode_utf8;

verus! {

/// The byte that ends a line.
pub open spec fn newline() -> Seq<u8> {
    seq![10u8]
}

/// The body that carries the two header values in front of `body`.
pub open spec fn folded(encryption: Seq<char>, crypto_key: Seq<char>, body: Seq<u8>) -> Seq<u8> {
    encode_utf8("aesgcm\nEncryption: "@) + encode_utf8(encryption) + newline() + encode_utf8(
        "Crypto-Key: "@,
    ) + encode_utf8(crypto_key) + newline() + body
}

/// Serializes the `Encryption` and `Crypto-Key` headers in front of `body`.
pub fn make_aesgcm_body(encryption: &str, crypto_key: &str, body: &[u8]) -> (new_body: Vec<u8>)
    ensures
        new_body@ == folded(encryption@, crypto_key@, body@),
{
    let mut new_body: Vec<u8> = Vec::with_capacity(body.len());
    new_body.extend_from_slice("aesgcm\nEncryption: ".as_bytes());
    new_body.extend_from_slice(encryption.as_bytes());
    new_body.push(10);
    new_body.extend_from_slice("Crypto-Key: ".as_bytes());
    new_body.extend_from_slice(crypto_key.as_bytes());
    new_body.push(10);
    new_body.extend_from_slice(body);
    proof {
        assert(new_body@ =~= folded(encryption@, crypto_key@, body@));
    }
    new_body
}

/// The encoding of a character other than a line feed holds no line feed.
proof fn lemma_scalar_has_no_newline(c: char, i: int)
    requires
        c != '\n',
        0 <= i < vstd::utf8::encode_scalar(c as u32).len(),
    ensures
        vstd::utf8::encode_scalar(c as u32)[i] != 10,
{
    let s = c as u32;
    vstd::utf8::char_is_scalar(c);
    assert(s != 10);
    assert(s <= 0x7f ==> (s & 0x7f) as u8 == s as u8) by (bit_vector);
    assert(0xc0u8 | ((s >> 6) & 0x1f) as u8 >= 0x80) by (bit_vector);
    assert(0xe0u8 | ((s >> 12) & 0x0f) as u8 >= 0x80) by (bit_vector);
    assert(0xf0u8 | ((s >> 18) & 0x07) as u8 >= 0x80) by (bit_vector);
    assert(0x80u8 | (s & 0x3f) as u8 >= 0x80) by (bit_vector);
    assert(0x80u8 | ((s >> 6) & 0x3f) as u8 >= 0x80) by (bit_vector);
    assert(0x80u8 | ((s >> 12) & 0x3f) as u8 >= 0x80) by (bit_vector);
}

proof fn lemma_text_has_no_newline(text: Seq<char>, i: int)
    requires
        !text.contains('\n'),
        0 <= i < encode_utf8(text).len(),
    ensures
        encode_utf8(text)[i] != 10,
    decreases text.len(),
{
    let front = vstd::utf8::encode_scalar(text[0] as u32);
    if i < front.len() {
        assert(text.contains(text[0]));
        lemma_scalar_has_no_newline(text[0], i);
    } else {
        assert(!text.drop_first().contains('\n')) by {
            if text.drop_first().contains('\n') {
                let j = choose|j: int|
                    0 <= j < text.drop_first().len() && text.drop_first()[j] == '\n';
                assert(text[j + 1] == '\n');
            }
        }
        lemma_text_has_no_newline(text.drop_first(), i - front.len());
    }
}

/// A line ends where its first line feed stands.
proof fn lemma_line_ends_once(a: Seq<u8>, x: Seq<u8>, b: Seq<u8>, y: Seq<u8>)
    requires
        forall|i: int| 0 <= i < a.len() ==> #[trigger] a[i] != 10,
        forall|i: int| 0 <= i < b.len() ==> #[trigger] b[i] != 10,
        a + newline() + x == b + newline() + y,
    ensures
        a == b,
        x == y,
{
    let s = a + newline() + x;
    let t = b + newline() + y;
    if a.len() < b.len() {
        assert(s[a.len() as int] == 10);
        assert(t[a.len() as int] == b[a.len() as int]);
    }
    if b.len() < a.len() {
        assert(t[b.len() as int] == 10);
        assert(s[b.len() as int] == a[b.len() as int]);
    }
    assert(a =~= s.take(a.len() as int));
    assert(b =~= t.take(b.len() as int));
    assert(x =~= s.skip(a.len() + 1int));
    assert(y =~= t.skip(b.len() + 1int));
}

proof fn lemma_same_front(p: Seq<u8>, x: Seq<u8>, y: Seq<u8>)
    requires
        p + x == p + y,
    ensures
        x == y,
{
    assert(x =~= (p + x).skip(p.len() as int));
    assert(y =~= (p + y).skip(p.len() as int));
}

proof fn lemma_utf8_injective(a: Seq<char>, b: Seq<char>)
    requires
        encode_utf8(a) == encode_utf8(b),
    ensures
        a == b,
{
    vstd::utf8::encode_utf8_decode_utf8(a);
    vstd::utf8::encode_utf8_decode_utf8(b);
}

/// A folded body can be taken apart again: as no header value holds a line
/// feed, the body determines both values and the ciphertext.
pub proof fn law_folded_body_is_recoverable(
    encryption: Seq<char>,
    crypto_key: Seq<char>,
    body: Seq<u8>,
    other_encryption: Seq<char>,
    other_crypto_key: Seq<char>,
    other_body: Seq<u8>,
)
    requires
        !encryption.contains('\n'),
        !crypto_key.contains('\n'),
        !other_encryption.contains('\n'),
        !other_crypto_key.contains('\n'),
        folded(encryption, crypto_key, body) == folded(
            other_encryption,
            other_crypto_key,
            other_body,
        ),
    ensures
        encryption == other_encryption,
        crypto_key == other_crypto_key,
        body == other_body,
{
    let p = encode_utf8("aesgcm\nEncryption: "@);
    let q = encode_utf8("Crypto-Key: "@);
    let e = encode_utf8(encryption);
    let k = encode_utf8(crypto_key);
    let f = encode_utf8(other_encryption);
    let l = encode_utf8(other_crypto_key);
    assert(folded(encryption, crypto_key, body) =~= p + (e + newline() + (q + (k + newline()
        + body))));
    assert(folded(other_encryption, other_crypto_key, other_body) =~= p + (f + newline() + (q + (l
        + newline() + other_body))));
    lemma_same_front(
        p,
        e + newline() + (q + (k + newline() + body)),
        f + newline() + (q + (l + newline() + other_body)),
    );
    assert forall|i: int| 0 <= i < e.len() implies #[trigger] e[i] != 10 by {
        lemma_text_has_no_newline(encryption, i);
    }
    assert forall|i: int| 0 <= i < f.len() implies #[trigger] f[i] != 10 by {
        lemma_text_has_no_newline(other_encryption, i);
    }
    assert forall|i: int| 0 <= i < k.len() implies #[trigger] k[i] != 10 by {
        lemma_text_has_no_newline(crypto_key, i);
    }
    assert forall|i: int| 0 <= i < l.len() implies #[trigger] l[i] != 10 by {
        lemma_text_has_no_newline(other_crypto_key, i);
    }
    lemma_line_ends_once(
        e,
        q + (k + newline() + body),
        f,
        q + (l + newline() + other_body),
    );
    lemma_same_front(q, k + newline() + body, l + newline() + other_body);
    lemma_line_ends_once(k, body, l, other_body);
    lemma_utf8_injective(encryption, other_encryption);
    lemma_utf8_injective(crypto_key, other_crypto_key);
}

/// The text of a header field never holds a line feed, so every body that is
/// folded from a request can be taken apart again.
pub proof fn law_header_fields_hold_no_newline(value: Option<Seq<u8>>)
    ensures
        !crate::header::field_text(value).contains('\n'),
{
    let text = crate::header::field_text(value);
    if text.contains('\n') {
        let i = choose|i: int| 0 <= i < text.len() && text[i] == '\n';
        assert(crate::header::visible_byte(value->0[i]));
    }
}

/// A folded body begins with the line `aesgcm` and ends with the ciphertext as it
/// was; between them stand the two headers, each with its name and on a line of its
/// own.
pub proof fn law_folded_body_layout(encryption: Seq<char>, crypto_key: Seq<char>, body: Seq<u8>)
    ensures
        folded(encryption, crypto_key, body) == seq![
            97u8, 101, 115, 103, 99, 109, 10, 69, 110, 99, 114, 121, 112, 116, 105, 111, 110, 58, 32,
        ] + encode_utf8(encryption) + seq![10u8] + seq![
            67u8, 114, 121, 112, 116, 111, 45, 75, 101, 121, 58, 32,
        ] + encode_utf8(crypto_key) + seq![10u8] + body,
{
    let first = "aesgcm\nEncryption: "@;
    let second = "Crypto-Key: "@;
    reveal_strlit("aesgcm\nEncryption: ");
    reveal_strlit("Crypto-Key: ");
    assert(vstd::utf8::is_ascii_chars(first));
    assert(vstd::utf8::is_ascii_chars(second));
    vstd::utf8::is_ascii_chars_encode_utf8(first);
    vstd::utf8::is_ascii_chars_encode_utf8(second);
    assert(encode_utf8(first) =~= seq![
        97u8, 101, 115, 103, 99, 109, 10, 69, 110, 99, 114, 121, 112, 116, 105, 111, 110, 58, 32,
    ]);
    assert(encode_utf8(second) =~= seq![67u8, 114, 121, 112, 116, 111, 45, 75, 101, 121, 58, 32]);
}

} // verus!
