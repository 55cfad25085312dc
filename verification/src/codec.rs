//! Unpadded base64url (RFC 4648, section 5).

use base64::Engine;
use vstd::prelude::*;

verus! {

/// The base64url symbol for the six-bit value `v`.
pub open spec fn symbol(v: int) -> char {
    if v < 26 {
        (65 + v) as char
    } else if v < 52 {
        (97 + (v - 26)) as char
    } else if v < 62 {
        (48 + (v - 52)) as char
    } else if v == 62 {
        '-'
    } else {
        '_'
    }
}

/// The `i`-th group of six bits of `data`, read from the most significant bit
/// on. Bits past the end of `data` are zero.
pub open spec fn sextet(data: Seq<u8>, i: int) -> int {
    let k = 6 * i / 8;
    let high = data[k] as int;
    let low = if k + 1 < data.len() {
        data[k + 1] as int
    } else {
        0
    };
    let unit: int = if i % 4 == 0 {
        1024
    } else if i % 4 == 1 {
        16
    } else if i % 4 == 2 {
        64
    } else {
        256
    };
    ((high * 256 + low) / unit) % 64
}

/// The length of the encoding of `n` bytes: the smallest number of groups of
/// six bits that covers them.
pub open spec fn encoded_len(n: nat) -> nat {
    ((4 * n + 2) / 3) as nat
}

/// The unpadded base64url encoding of `data`.
pub open spec fn base64url(data: Seq<u8>) -> Seq<char> {
    Seq::new(encoded_len(data.len()), |i: int| symbol(sextet(data, i)))
}

/// Whether `c` is a base64url symbol.
pub open spec fn is_symbol(c: char) -> bool {
    ||| 'A' <= c <= 'Z'
    ||| 'a' <= c <= 'z'
    ||| '0' <= c <= '9'
    ||| c == '-'
    ||| c == '_'
}

/// The text of the error that `base64` reports for `text`, where `text` is not
/// the encoding of any byte sequence.
pub uninterp spec fn decode_fault(text: Seq<char>) -> Seq<char>;

/// `base64::Engine::encode` of `URL_SAFE_NO_PAD`: the result is the unpadded
/// base64url encoding of `data`. The bound keeps the encoding within what one
/// allocation can hold, past which the call panics.
#[verifier::external_body]
pub(crate) fn encode(data: &[u8]) -> (text: String)
    requires
        encoded_len(data@.len()) <= isize::MAX,
    ensures
        text@ == base64url(data@),
{
    base64::engine::general_purpose::URL_SAFE_NO_PAD.encode(data)
}

/// `base64::Engine::decode` of `URL_SAFE_NO_PAD`: the call succeeds exactly on
/// the canonical unpadded encodings, and then returns the encoded bytes. An
/// error is handed on as its text, which no clause describes further.
#[verifier::external_body]
pub(crate) fn decode(text: &str) -> (r: Result<Vec<u8>, String>)
    ensures
        match r {
            Ok(data) => base64url(data@) == text@,
            Err(fault) => {
                &&& forall|data: Seq<u8>| base64url(data) != text@
                &&& fault@ == decode_fault(text@)
            },
        },
{
    base64::engine::general_purpose::URL_SAFE_NO_PAD.decode(text).map_err(|e| e.to_string())
}

proof fn lemma_sextet_range(data: Seq<u8>, i: int)
    ensures
        0 <= sextet(data, i) < 64,
{
}

proof fn lemma_symbol_injective(a: int, b: int)
    requires
        0 <= a < 64,
        0 <= b < 64,
        symbol(a) == symbol(b),
    ensures
        a == b,
{
}

/// Every character of an encoding is a base64url symbol.
pub(crate) proof fn lemma_base64url_symbols(data: Seq<u8>)
    ensures
        forall|i: int| 0 <= i < base64url(data).len() ==> is_symbol(#[trigger] base64url(data)[i]),
{
    assert forall|i: int| 0 <= i < base64url(data).len() implies is_symbol(
        #[trigger] base64url(data)[i],
    ) by {
        lemma_sextet_range(data, i);
    }
}

/// The four ways in which a group of six bits lies across two adjacent bytes.
proof fn lemma_pair_bits(high: u8, low: u8)
    by (bit_vector)
    ensures
        ((high * 256 + low) / 1024) % 64 == high / 4,
        ((high * 256 + low) / 16) % 64 == (high % 4) * 16 + low / 16,
        ((high * 256 + low) / 64) % 64 == (high % 16) * 4 + low / 64,
        ((high * 256 + low) / 256) % 64 == high % 64,
{
}

/// The group of six bits at `i`, for `i` written as `4 * q + r`.
proof fn lemma_sextet_at(data: Seq<u8>, q: int, r: int)
    requires
        0 <= r < 4,
        0 <= q,
        if r == 0 {
            3 * q < data.len()
        } else {
            3 * q + r <= data.len()
        },
    ensures
        ({
            let k = if r == 0 {
                3 * q
            } else {
                3 * q + r - 1
            };
            let high = data[k];
            let low = if k + 1 < data.len() {
                data[k + 1]
            } else {
                0
            };
            sextet(data, 4 * q + r) == if r == 0 {
                (high / 4) as int
            } else if r == 1 {
                (high % 4) * 16 + low / 16
            } else if r == 2 {
                (high % 16) * 4 + low / 64
            } else {
                (high % 64) as int
            }
        }),
{
    let k = if r == 0 {
        3 * q
    } else {
        3 * q + r - 1
    };
    let high = data[k];
    let low = if k + 1 < data.len() {
        data[k + 1]
    } else {
        0
    };
    lemma_pair_bits(high, low);
    assert(6 * (4 * q + r) / 8 == k);
    assert((4 * q + r) % 4 == r);
}

/// The four symbols for the three bytes from `3 * q` on.
pub(crate) proof fn lemma_encoded_triple(data: Seq<u8>, q: int)
    requires
        0 <= q,
        3 * q + 2 < data.len(),
    ensures
        ({
            let a = data[3 * q] as int;
            let b = data[3 * q + 1] as int;
            let c = data[3 * q + 2] as int;
            &&& base64url(data)[4 * q] == symbol(a / 4)
            &&& base64url(data)[4 * q + 1] == symbol((a % 4) * 16 + b / 16)
            &&& base64url(data)[4 * q + 2] == symbol((b % 16) * 4 + c / 64)
            &&& base64url(data)[4 * q + 3] == symbol(c % 64)
        }),
{
    lemma_sextet_at(data, q, 0);
    lemma_sextet_at(data, q, 1);
    lemma_sextet_at(data, q, 2);
    lemma_sextet_at(data, q, 3);
}

/// The byte at `3 * q + r` from the two groups of six bits that it lies in.
proof fn lemma_byte_from_sextets(data: Seq<u8>, q: int, r: int)
    requires
        0 <= q,
        0 <= r < 3,
        3 * q + r < data.len(),
    ensures
        ({
            let s = sextet(data, 4 * q + r);
            let t = sextet(data, 4 * q + r + 1);
            data[3 * q + r] as int == if r == 0 {
                s * 4 + t / 16
            } else if r == 1 {
                (s % 16) * 16 + t / 4
            } else {
                (s % 4) * 64 + t
            }
        }),
{
    lemma_sextet_at(data, q, r);
    lemma_sextet_at(data, q, r + 1);
}

/// Two byte sequences with one encoding are the same: an encoding determines
/// what it encodes.
pub(crate) proof fn lemma_base64url_injective(a: Seq<u8>, b: Seq<u8>)
    requires
        base64url(a) == base64url(b),
    ensures
        a == b,
{
    assert(base64url(a).len() == encoded_len(a.len()));
    assert(base64url(b).len() == encoded_len(b.len()));
    assert(a.len() == b.len());
    assert forall|k: int| 0 <= k < a.len() implies a[k] == b[k] by {
        let q = k / 3;
        let r = k % 3;
        let i = 4 * q + r;
        assert(i + 1 < encoded_len(a.len()));
        assert(base64url(a)[i] == symbol(sextet(a, i)));
        assert(base64url(b)[i] == symbol(sextet(b, i)));
        assert(base64url(a)[i + 1] == symbol(sextet(a, i + 1)));
        assert(base64url(b)[i + 1] == symbol(sextet(b, i + 1)));
        lemma_sextet_range(a, i);
        lemma_sextet_range(a, i + 1);
        lemma_sextet_range(b, i);
        lemma_sextet_range(b, i + 1);
        lemma_symbol_injective(sextet(a, i), sextet(b, i));
        lemma_symbol_injective(sextet(a, i + 1), sextet(b, i + 1));
        lemma_byte_from_sextets(a, q, r);
        lemma_byte_from_sextets(b, q, r);
    }
    assert(a =~= b);
}

/// The six-bit value of a base64url symbol.
pub open spec fn symbol_value(c: char) -> int {
    if 'A' <= c <= 'Z' {
        c as int - 65
    } else if 'a' <= c <= 'z' {
        c as int - 71
    } else if '0' <= c <= '9' {
        c as int + 4
    } else if c == '-' {
        62
    } else {
        63
    }
}

/// An encoding spells the bits of its data: every three bytes are four symbols with
/// the same bits, one byte that is left over is two symbols and two bytes are
/// three, with zero bits at the end. There is no padding, and every symbol is a
/// letter, a digit, a hyphen or an underscore.
pub proof fn law_encoding_spells_the_bits(data: Seq<u8>, q: int)
    requires
        0 <= q,
        3 * q < data.len(),
    ensures
        ({
            let text = base64url(data);
            let rest = data.len() - 3 * q;
            let v0 = symbol_value(text[4 * q]);
            let v1 = symbol_value(text[4 * q + 1]);
            let v2 = symbol_value(text[4 * q + 2]);
            let v3 = symbol_value(text[4 * q + 3]);
            &&& rest >= 3 ==> text.len() >= 4 * q + 4 && 262144 * v0 + 4096 * v1 + 64 * v2 + v3
                == 65536 * data[3 * q] + 256 * data[3 * q + 1] + data[3 * q + 2]
            &&& rest == 3 ==> text.len() == 4 * q + 4
            &&& rest == 2 ==> text.len() == 4 * q + 3 && 4096 * v0 + 64 * v1 + v2 == 4 * (256
                * data[3 * q] + data[3 * q + 1])
            &&& rest == 1 ==> text.len() == 4 * q + 2 && 64 * v0 + v1 == 16 * data[3 * q]
            &&& forall|i: int|
                0 <= i < text.len() ==> {
                    ||| 'A' <= #[trigger] text[i] <= 'Z'
                    ||| 'a' <= text[i] <= 'z'
                    ||| '0' <= text[i] <= '9'
                    ||| text[i] == '-'
                    ||| text[i] == '_'
                }
        }),
{
    let text = base64url(data);
    let rest = data.len() - 3 * q;
    lemma_base64url_symbols(data);
    lemma_symbol_value_at(data, 4 * q);
    lemma_symbol_value_at(data, 4 * q + 1);
    lemma_sextet_at(data, q, 0);
    lemma_sextet_at(data, q, 1);
    if rest >= 2 {
        lemma_symbol_value_at(data, 4 * q + 2);
        lemma_sextet_at(data, q, 2);
    }
    if rest >= 3 {
        lemma_symbol_value_at(data, 4 * q + 3);
        lemma_sextet_at(data, q, 3);
    }
}

proof fn lemma_symbol_value_at(data: Seq<u8>, i: int)
    requires
        0 <= i < base64url(data).len(),
    ensures
        symbol_value(base64url(data)[i]) == sextet(data, i),
{
    lemma_sextet_range(data, i);
}

} // verus!
