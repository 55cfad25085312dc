//! VAPID authorization of pushes to FCM (RFC 8292).
//!
//! The private key lives here only. The app carries the matching public key,
//! which it passes to Play Services at registration time, so FCM binds the
//! subscription to this proxy.

use crate::codec::{base64url, decode, decode_fault, encode, encoded_len, is_symbol};
use crate::curve::{
    derive_public_point, ecdsa_signature, is_scalar, parse_scalar, public_point, random_scalar,
    sign, signature_verifies, verify,
};
use crate::header::{header_text, HeaderValue};
use crate::text::{
    chars_of, decimal, decimal_text, trim, trim_end, trim_end_char, trim_start, white_space,
};
use vstd::prelude::*;
use vstd::utf8::encode_utf8;

verus! {

/// FCM rejects a JWT valid for more than 24 hours. 12 hours leave room for clock
/// skew.
pub const JWT_LIFETIME_SECS: u64 = 43200;

/// Re-sign this long before expiry so an in-flight push never carries a stale
/// JWT.
pub const JWT_REFRESH_MARGIN_SECS: u64 = 3600;

/// base64url of `{"typ":"JWT","alg":"ES256"}`, fixed for every JWT.
pub const JWT_HEADER: &'static str = "eyJ0eXAiOiJKV1QiLCJhbGciOiJFUzI1NiJ9";

/// The push service that a JWT is for.
pub const FCM_AUDIENCE: &'static str = "https://fcm.googleapis.com";

/// RFC 8292 requires a contact; FCM does not act on it, but it must be present.
pub const VAPID_SUBJECT: &'static str = "https://mercurygram.org/";

/// The claims of a JWT that expires at `exp`.
pub open spec fn claims(exp: nat) -> Seq<char> {
    "{\"aud\":\""@ + FCM_AUDIENCE@ + "\",\"exp\":"@ + decimal(exp) + ",\"sub\":\""@
        + VAPID_SUBJECT@ + "\"}"@
}

/// The part of a JWT that is signed.
pub open spec fn signing_input(exp: nat) -> Seq<char> {
    JWT_HEADER@ + "."@ + base64url(encode_utf8(claims(exp)))
}

/// The JWT that expires at `exp` and carries `signature`.
pub open spec fn jwt_with(exp: nat, signature: Seq<u8>) -> Seq<char> {
    signing_input(exp) + "."@ + base64url(signature)
}

/// The `Authorization` value that carries `jwt` and the base64url of a public
/// key.
pub open spec fn vapid_text(jwt: Seq<char>, public_key: Seq<char>) -> Seq<char> {
    "vapid t="@ + jwt + ",k="@ + public_key
}

/// Whether `point` has the shape of an uncompressed SEC1 point.
pub open spec fn uncompressed(point: Seq<u8>) -> bool {
    point.len() == 65 && point[0] == 4
}

/// The base64url of the public point of the secret `scalar`.
pub open spec fn advertised_key(scalar: Seq<u8>) -> Seq<char> {
    base64url(public_point(scalar))
}

/// The JWT that expires at `exp`, signed with the secret `scalar`. There is none
/// where the key has no signature for it.
pub open spec fn signed_jwt(scalar: Seq<u8>, exp: nat) -> Option<Seq<char>> {
    match ecdsa_signature(scalar, encode_utf8(signing_input(exp))) {
        Some(signature) => Some(jwt_with(exp, signature)),
        None => None,
    }
}

/// Whether the signature in the JWT that expires at `exp` has 64 bytes and is one
/// that the public point accepts.
pub open spec fn jwt_verifies(scalar: Seq<u8>, exp: nat) -> bool {
    let message = encode_utf8(signing_input(exp));
    &&& ecdsa_signature(scalar, message) matches Some(signature)
    &&& signature.len() == 64
    &&& signature_verifies(public_point(scalar), message, signature)
}

/// Whether `public_key` accepts `jwt`: what stands behind the last dot is the
/// base64url of a signature for what stands before it.
pub open spec fn jwt_accepted(jwt: Seq<char>, public_key: Seq<char>) -> bool {
    let front = trim_end(jwt, |c: char| c != '.');
    &&& front.len() > 0
    &&& decoded(jwt.skip(front.len() as int)) matches Some(signature)
    &&& decoded(public_key) matches Some(point)
    &&& signature_verifies(point, encode_utf8(front.drop_last()), signature)
}

/// The `Authorization` value with a JWT that expires at `exp`, signed with the
/// secret `scalar`, next to the matching public key.
pub open spec fn authorization_text(scalar: Seq<u8>, exp: nat) -> Option<Seq<char>> {
    match signed_jwt(scalar, exp) {
        Some(jwt) => Some(vapid_text(jwt, advertised_key(scalar))),
        None => None,
    }
}

proof fn lemma_decimal_len(n: nat, k: nat)
    requires
        n < vstd::arithmetic::power::pow(10, k),
        k > 0,
    ensures
        decimal(n).len() <= k,
    decreases k,
{
    vstd::arithmetic::power::lemma_pow1(10);
    if n >= 10 {
        if k == 1 {
            assert(false);
        }
        reveal(vstd::arithmetic::power::pow);
        let m = vstd::arithmetic::power::pow(10, (k - 1) as nat);
        assert(n < 10 * m);
        assert(n / 10 < m);
        lemma_decimal_len(n / 10, (k - 1) as nat);
    }
}

proof fn lemma_u64_decimal_len(n: u64)
    ensures
        decimal(n as nat).len() <= 20,
{
    assert(vstd::arithmetic::power::pow(10, 20) == 100_000_000_000_000_000_000int) by {
        reveal_with_fuel(vstd::arithmetic::power::pow, 21);
    }
    lemma_decimal_len(n as nat, 20);
}

proof fn lemma_utf8_len(chars: Seq<char>)
    ensures
        encode_utf8(chars).len() <= 4 * chars.len(),
    decreases chars.len(),
{
    if chars.len() > 0 {
        lemma_utf8_len(chars.drop_first());
    }
}

proof fn lemma_claims_len(exp: u64)
    ensures
        encode_utf8(claims(exp as nat)).len() <= 1000,
{
    lemma_u64_decimal_len(exp);
    reveal_strlit("{\"aud\":\"");
    reveal_strlit("https://fcm.googleapis.com");
    reveal_strlit("\",\"exp\":");
    reveal_strlit(",\"sub\":\"");
    reveal_strlit("https://mercurygram.org/");
    reveal_strlit("\"}");
    lemma_utf8_len(claims(exp as nat));
}

/// The claims of a JWT that expires at `exp`. The JSON has a fixed shape and
/// holds nothing from outside, so it is written out.
fn claims_text(exp: u64) -> (text: String)
    ensures
        text@ == claims(exp as nat),
{
    let mut text = "{\"aud\":\"".to_owned();
    text.append(FCM_AUDIENCE);
    text.append("\",\"exp\":");
    text.append(decimal_text(exp).as_str());
    text.append(",\"sub\":\"");
    text.append(VAPID_SUBJECT);
    text.append("\"}");
    text
}

/// The part of a JWT that is signed, for the expiry `exp`.
pub fn jwt_signing_input(exp: u64) -> (text: String)
    ensures
        text@ == signing_input(exp as nat),
{
    let claims = claims_text(exp);
    proof {
        lemma_claims_len(exp);
    }
    let mut text = JWT_HEADER.to_owned();
    text.append(".");
    text.append(encode(claims.as_str().as_bytes()).as_str());
    text
}

/// The JWT that expires at `exp` and carries `signature`.
pub fn jwt_with_signature(exp: u64, signature: &[u8]) -> (jwt: String)
    requires
        encoded_len(signature@.len()) <= isize::MAX,
    ensures
        jwt@ == jwt_with(exp as nat, signature@),
{
    let mut jwt = jwt_signing_input(exp);
    jwt.append(".");
    jwt.append(encode(signature).as_str());
    jwt
}

/// The `Authorization` value that carries `jwt` and `public_key`.
pub fn vapid_value(jwt: &str, public_key: &str) -> (text: String)
    ensures
        text@ == vapid_text(jwt@, public_key@),
{
    let mut text = "vapid t=".to_owned();
    text.append(jwt);
    text.append(",k=");
    text.append(public_key);
    text
}

/// Whether `text` is made of base64url symbols.
pub open spec fn all_symbols(text: Seq<char>) -> bool {
    forall|i: int| 0 <= i < text.len() ==> is_symbol(#[trigger] text[i])
}

proof fn lemma_symbols_are_header_text(text: Seq<char>)
    requires
        all_symbols(text),
    ensures
        header_text(text),
{
}

proof fn lemma_header_text_concat(a: Seq<char>, b: Seq<char>)
    requires
        header_text(a),
        header_text(b),
    ensures
        header_text(a + b),
{
    assert forall|i: int| 0 <= i < (a + b).len() implies crate::header::header_char(
        #[trigger] (a + b)[i],
    ) by {
        if i < a.len() {
            assert((a + b)[i] == a[i]);
        } else {
            assert((a + b)[i] == b[i - a.len()]);
        }
    }
}

proof fn lemma_base64url_is_header_text(data: Seq<u8>)
    ensures
        header_text(base64url(data)),
{
    crate::codec::lemma_base64url_symbols(data);
    lemma_symbols_are_header_text(base64url(data));
}

/// An authorization is made of base64url and fixed key names alone, so a header
/// value may hold it.
pub proof fn law_authorization_is_header_text(scalar: Seq<u8>, exp: nat)
    requires
        authorization_text(scalar, exp) is Some,
    ensures
        header_text(authorization_text(scalar, exp)->0),
{
    let signature = ecdsa_signature(scalar, encode_utf8(signing_input(exp)))->0;
    reveal_strlit("vapid t=");
    reveal_strlit(",k=");
    reveal_strlit(".");
    reveal_strlit("eyJ0eXAiOiJKV1QiLCJhbGciOiJFUzI1NiJ9");
    lemma_symbols_are_header_text(JWT_HEADER@);
    lemma_base64url_is_header_text(encode_utf8(claims(exp)));
    lemma_base64url_is_header_text(signature);
    lemma_base64url_is_header_text(public_point(scalar));
    lemma_header_text_concat(JWT_HEADER@, "."@);
    lemma_header_text_concat(JWT_HEADER@ + "."@, base64url(encode_utf8(claims(exp))));
    lemma_header_text_concat(signing_input(exp), "."@);
    lemma_header_text_concat(signing_input(exp) + "."@, base64url(signature));
    let jwt = jwt_with(exp, signature);
    lemma_header_text_concat("vapid t="@, jwt);
    lemma_header_text_concat("vapid t="@ + jwt, ",k="@);
    lemma_header_text_concat("vapid t="@ + jwt + ",k="@, advertised_key(scalar));
}

/// A receiver can take an authorization apart at its separators: the three parts
/// of the JWT and the public key are base64url, which holds neither a dot nor a
/// comma.
pub proof fn law_authorization_parts_are_base64url(scalar: Seq<u8>, exp: nat)
    requires
        authorization_text(scalar, exp) is Some,
    ensures
        ({
            let claims_part = base64url(encode_utf8(claims(exp)));
            let signature_part = base64url(
                ecdsa_signature(scalar, encode_utf8(signing_input(exp)))->0,
            );
            let key_part = advertised_key(scalar);
            &&& authorization_text(scalar, exp)->0 == "vapid t="@ + (JWT_HEADER@ + "."@
                + claims_part + "."@ + signature_part) + ",k="@ + key_part
            &&& all_symbols(JWT_HEADER@)
            &&& all_symbols(claims_part)
            &&& all_symbols(signature_part)
            &&& all_symbols(key_part)
        }),
{
    reveal_strlit("eyJ0eXAiOiJKV1QiLCJhbGciOiJFUzI1NiJ9");
    crate::codec::lemma_base64url_symbols(encode_utf8(claims(exp)));
    crate::codec::lemma_base64url_symbols(
        ecdsa_signature(scalar, encode_utf8(signing_input(exp)))->0,
    );
    crate::codec::lemma_base64url_symbols(public_point(scalar));
}

/// The bytes that `text` encodes in base64url, if there are any.
pub open spec fn decoded(text: Seq<char>) -> Option<Seq<u8>> {
    if exists|data: Seq<u8>| base64url(data) == text {
        Some(choose|data: Seq<u8>| base64url(data) == text)
    } else {
        None
    }
}

/// Decoding gives back what was encoded.
proof fn lemma_decoded(data: Seq<u8>)
    ensures
        decoded(base64url(data)) == Some(data),
{
    crate::codec::lemma_base64url_injective(data, decoded(base64url(data))->0);
}

/// A JWT that is signed with a key is one that the matching advertised key
/// accepts.
pub proof fn law_signed_jwt_is_accepted(scalar: Seq<u8>, exp: nat)
    requires
        jwt_verifies(scalar, exp),
    ensures
        signed_jwt(scalar, exp) is Some,
        jwt_accepted(signed_jwt(scalar, exp)->0, advertised_key(scalar)),
{
    let signature = ecdsa_signature(scalar, encode_utf8(signing_input(exp)))->0;
    let jwt = jwt_with(exp, signature);
    let front = signing_input(exp) + "."@;
    let behind = |c: char| c != '.';
    reveal_strlit(".");
    crate::codec::lemma_base64url_symbols(signature);
    crate::text::lemma_trim_back(front, base64url(signature), behind);
    assert(front.last() == '.');
    assert(trim_end(jwt, behind) == front);
    assert(front.drop_last() =~= signing_input(exp));
    assert(jwt.skip(front.len() as int) =~= base64url(signature));
    lemma_decoded(signature);
    lemma_decoded(public_point(scalar));
}

/// The fixed JWT header is the base64url of its JSON.
pub proof fn law_jwt_header_encodes_its_json()
    ensures
        JWT_HEADER@ == base64url(encode_utf8("{\"typ\":\"JWT\",\"alg\":\"ES256\"}"@)),
{
    let json = "{\"typ\":\"JWT\",\"alg\":\"ES256\"}"@;
    reveal_strlit("{\"typ\":\"JWT\",\"alg\":\"ES256\"}");
    reveal_strlit("eyJ0eXAiOiJKV1QiLCJhbGciOiJFUzI1NiJ9");
    assert(vstd::utf8::is_ascii_chars(json));
    vstd::utf8::is_ascii_chars_encode_utf8(json);
    let data = encode_utf8(json);
    assert forall|i: int| 0 <= i < 27 implies data[i] == json[i] as u8 by {}
    assert forall|q: int| 0 <= q < 9 implies {
        &&& JWT_HEADER@[4 * q] == #[trigger] base64url(data)[4 * q]
        &&& JWT_HEADER@[4 * q + 1] == base64url(data)[4 * q + 1]
        &&& JWT_HEADER@[4 * q + 2] == base64url(data)[4 * q + 2]
        &&& JWT_HEADER@[4 * q + 3] == base64url(data)[4 * q + 3]
    } by {
        crate::codec::lemma_encoded_triple(data, q);
    }
    assert forall|i: int| 0 <= i < 36 implies JWT_HEADER@[i] == base64url(data)[i] by {
        let q = i / 4;
        assert(JWT_HEADER@[4 * q] == base64url(data)[4 * q]);
    }
    assert(JWT_HEADER@ =~= base64url(data));
}

/// A private key as it is written down, without white space around it and
/// without padding behind it.
pub open spec fn bare_key(text: Seq<char>) -> Seq<char> {
    let blank = |c: char| white_space(c);
    trim_end(trim_start(trim_end(text, blank), blank), |c: char| c == '=')
}

/// The secret scalar that a private key in base64url stands for, in 32 bytes, or
/// what is wrong with it.
pub open spec fn key_verdict(text: Seq<char>) -> Result<Seq<u8>, Seq<char>> {
    match decoded(bare_key(text)) {
        None => Err("VAPID private key is not base64url: "@ + decode_fault(bare_key(text))),
        Some(raw) => if is_scalar(raw) {
            Ok(raw)
        } else {
            Err("VAPID private key invalid: "@ + "crypto error"@)
        },
    }
}

/// When the JWT expires that a push sent at `now` carries, where the JWT at hand
/// expires at `expires`: a JWT that is close to expiry is replaced.
pub open spec fn authorization_expiry(expires: nat, now: nat) -> nat {
    if expires <= now + JWT_REFRESH_MARGIN_SECS {
        now + JWT_LIFETIME_SECS as nat
    } else {
        expires
    }
}

/// Signs pushes to FCM, and keeps the last authorization for as long as it is
/// good.
pub struct VapidSigner {
    scalar: Vec<u8>,
    /// base64url of the uncompressed public point, as passed to Play Services.
    public_key: String,
    /// Ready-to-send `Authorization` value.
    cached: HeaderValue,
    /// The expiry of the JWT in `cached`. Expiry 0 forces a mint on first use.
    expires: u64,
}

impl VapidSigner {
    /// The secret scalar, in 32 bytes.
    pub closed spec fn secret(&self) -> Seq<u8> {
        self.scalar@
    }

    /// The `Authorization` value at hand.
    pub closed spec fn cached(&self) -> Seq<u8> {
        self.cached@
    }

    /// The expiry of the JWT at hand.
    pub closed spec fn expires(&self) -> nat {
        self.expires as nat
    }

    closed spec fn advertised(&self) -> Seq<char> {
        self.public_key@
    }

    /// The key is a P-256 scalar, the advertised public key belongs to it, and
    /// the authorization at hand is the one for its expiry.
    #[verifier::type_invariant]
    spec fn wf(self) -> bool {
        &&& is_scalar(self.secret())
        &&& uncompressed(public_point(self.secret()))
        &&& self.advertised() == advertised_key(self.secret())
        &&& self.expires() != 0 ==> {
            &&& authorization_text(self.secret(), self.expires()) is Some
            &&& jwt_verifies(self.secret(), self.expires())
            &&& self.cached() == encode_utf8(
                authorization_text(self.secret(), self.expires())->0,
            )
        }
    }

    /// `private_key` is the base64url-encoded raw 32-byte P-256 scalar, the
    /// format every WebPush tool emits.
    pub fn from_base64(private_key: &str) -> (signer: Result<VapidSigner, String>)
        ensures
            match signer {
                Ok(s) => {
                    &&& key_verdict(private_key@) == Ok::<Seq<u8>, Seq<char>>(s.secret())
                    &&& is_scalar(s.secret())
                    &&& s.expires() == 0
                },
                Err(fault) => key_verdict(private_key@) == Err::<Seq<u8>, Seq<char>>(fault@),
            },
    {
        let bare = trim_end_char(trim(private_key), '=');
        let raw = match decode(bare) {
            Ok(raw) => raw,
            Err(fault) => {
                let mut text = "VAPID private key is not base64url: ".to_owned();
                text.append(fault.as_str());
                return Err(text);
            },
        };
        proof {
            lemma_decoded(raw@);
        }
        // The curve library would fill up a shorter key with zeros.
        if raw.len() != 32 {
            let mut text = "VAPID private key invalid: ".to_owned();
            text.append("crypto error");
            return Err(text);
        }
        proof {
            crate::curve::lemma_full_length_is_kept(raw@);
        }
        match parse_scalar(raw.as_slice()) {
            Ok(scalar) => Ok(Self::from_secret(scalar)),
            Err(fault) => {
                let mut text = "VAPID private key invalid: ".to_owned();
                text.append(fault.as_str());
                Err(text)
            },
        }
    }

    fn from_secret(scalar: Vec<u8>) -> (signer: VapidSigner)
        requires
            is_scalar(scalar@),
        ensures
            signer.secret() == scalar@,
            signer.expires() == 0,
    {
        let point = derive_public_point(scalar.as_slice());
        let public_key = encode(point.as_slice());
        VapidSigner { scalar, public_key, cached: HeaderValue { bytes: Vec::new() }, expires: 0 }
    }

    /// A signer with a key of its own, drawn at random.
    pub fn generate() -> (signer: VapidSigner)
        ensures
            is_scalar(signer.secret()),
            signer.expires() == 0,
    {
        Self::from_secret(random_scalar())
    }

    /// base64url of the uncompressed public point.
    pub fn public_key(&self) -> (key: &str)
        ensures
            key@ == advertised_key(self.secret()),
            uncompressed(public_point(self.secret())),
            is_scalar(self.secret()),
    {
        proof {
            use_type_invariant(self);
        }
        self.public_key.as_str()
    }

    /// base64url of the 32-byte secret scalar.
    pub fn private_key_base64(&self) -> (key: String)
        ensures
            key@ == base64url(self.secret()),
            is_scalar(self.secret()),
    {
        proof {
            use_type_invariant(self);
        }
        encode(self.scalar.as_slice())
    }

    /// The JWT that expires at `exp`, or `None` where the key has no signature
    /// for it.
    pub fn sign_jwt(&self, exp: u64) -> (jwt: Option<String>)
        ensures
            match jwt {
                Some(j) => {
                    &&& signed_jwt(self.secret(), exp as nat) == Some(j@)
                    &&& jwt_verifies(self.secret(), exp as nat)
                    &&& jwt_accepted(j@, advertised_key(self.secret()))
                },
                None => signed_jwt(self.secret(), exp as nat) is None,
            },
    {
        proof {
            use_type_invariant(self);
        }
        let input = jwt_signing_input(exp);
        match sign(self.scalar.as_slice(), input.as_str().as_bytes()) {
            Some(signature) => {
                proof {
                    law_signed_jwt_is_accepted(self.secret(), exp as nat);
                }
                Some(jwt_with_signature(exp, signature.as_slice()))
            },
            None => None,
        }
    }

    /// `Authorization` header value for a push sent to FCM `now` seconds after
    /// the Unix epoch, minting a fresh JWT when the cached one is close to
    /// expiry. `None` where a fresh JWT is due and the key has no signature for
    /// it.
    pub fn authorization(&mut self, now: u64) -> (value: Option<HeaderValue>)
        requires
            now + JWT_LIFETIME_SECS <= u64::MAX,
        ensures
            final(self).secret() == old(self).secret(),
            ({
                let exp = authorization_expiry(old(self).expires(), now as nat);
                match value {
                    Some(v) => {
                        &&& authorization_text(old(self).secret(), exp) is Some
                        &&& v@ == encode_utf8(authorization_text(old(self).secret(), exp)->0)
                        &&& jwt_verifies(old(self).secret(), exp)
                        &&& jwt_accepted(
                            signed_jwt(old(self).secret(), exp)->0,
                            advertised_key(old(self).secret()),
                        )
                        &&& final(self).expires() == exp
                        &&& final(self).cached() == v@
                    },
                    None => {
                        &&& authorization_text(old(self).secret(), exp) is None
                        &&& *final(self) == *old(self)
                    },
                }
            }),
    {
        proof {
            use_type_invariant(&*self);
        }
        if self.expires <= now + JWT_REFRESH_MARGIN_SECS {
            let exp = now + JWT_LIFETIME_SECS;
            let jwt = match self.sign_jwt(exp) {
                Some(jwt) => jwt,
                None => return None,
            };
            let text = vapid_value(jwt.as_str(), self.public_key.as_str());
            proof {
                law_authorization_is_header_text(self.secret(), exp as nat);
            }
            // Both halves are base64url plus the fixed key names, so this cannot
            // contain a byte a header value rejects.
            let value = HeaderValue::from_str(text.as_str()).unwrap();
            self.expires = 0;
            self.cached = value;
            self.expires = exp;
        }
        proof {
            law_signed_jwt_is_accepted(self.secret(), self.expires());
        }
        Some(self.cached.copy())
    }
}

/// Whether `public_key` accepts `jwt`, as a push service decides on it.
pub fn verify_jwt(jwt: &str, public_key: &str) -> (accepted: bool)
    ensures
        accepted == jwt_accepted(jwt@, public_key@),
{
    let chars = chars_of(jwt);
    let ghost behind = |c: char| c != '.';
    let mut end: usize = chars.len();
    proof {
        assert(jwt@.take(end as int) =~= jwt@);
    }
    while end > 0 && chars[end - 1] != '.'
        invariant
            end <= chars@.len(),
            chars@ == jwt@,
            behind == (|c: char| c != '.'),
            trim_end(jwt@.take(end as int), behind) == trim_end(jwt@, behind),
        decreases end,
    {
        proof {
            assert(jwt@.take(end as int).drop_last() =~= jwt@.take(end - 1));
        }
        end = end - 1;
    }
    if end == 0 {
        return false;
    }
    proof {
        assert(trim_end(jwt@, behind) == jwt@.take(end as int));
        assert(jwt@.subrange(0, end - 1) =~= jwt@.take(end as int).drop_last());
        assert(jwt@.subrange(end as int, jwt@.len() as int) =~= jwt@.skip(end as int));
    }
    let input = jwt.substring_char(0, end - 1);
    let signature = match decode(jwt.substring_char(end, chars.len())) {
        Ok(signature) => signature,
        Err(_) => return false,
    };
    let point = match decode(public_key) {
        Ok(point) => point,
        Err(_) => return false,
    };
    proof {
        lemma_decoded(signature@);
        lemma_decoded(point@);
    }
    verify(point.as_slice(), input.as_bytes(), signature.as_slice())
}

/// The key that the `VAPID_PRIVATE_KEY` variable holds: none where it is unset or
/// empty, and what is wrong with it where it is malformed.
pub open spec fn variable_verdict(
    variable: Option<Seq<char>>,
) -> Result<Option<Seq<u8>>, Seq<char>> {
    match variable {
        Some(text) if text.len() > 0 => match key_verdict(text) {
            Ok(scalar) => Ok(Some(scalar)),
            Err(fault) => Err(fault),
        },
        _ => Ok(None),
    }
}

/// An unset and an empty variable ask for no signer. Any other value is read as a
/// private key, blanks among them, and never passed over.
pub proof fn law_variable_is_read_as_a_key(text: Seq<char>)
    ensures
        variable_verdict(None) == Ok::<Option<Seq<u8>>, Seq<char>>(None),
        text.len() == 0 ==> variable_verdict(Some(text)) == Ok::<Option<Seq<u8>>, Seq<char>>(None),
        text.len() > 0 ==> match key_verdict(text) {
            Ok(scalar) => variable_verdict(Some(text)) == Ok::<Option<Seq<u8>>, Seq<char>>(
                Some(scalar),
            ),
            Err(fault) => variable_verdict(Some(text)) == Err::<Option<Seq<u8>>, Seq<char>>(fault),
        },
{
}

/// The signer that the `VAPID_PRIVATE_KEY` variable asks for: none where it is
/// unset or empty, and an error where it is malformed.
pub fn load_signer(variable: &Option<String>) -> (signer: Result<Option<VapidSigner>, String>)
    ensures
        match variable {
            Some(text) if text@.len() > 0 => match signer {
                Ok(Some(s)) => {
                    &&& key_verdict(text@) == Ok::<Seq<u8>, Seq<char>>(s.secret())
                    &&& s.expires() == 0
                },
                Ok(None) => false,
                Err(fault) => key_verdict(text@) == Err::<Seq<u8>, Seq<char>>(fault@),
            },
            _ => signer matches Ok(None),
        },
        ({
            let verdict = variable_verdict(
                match variable {
                    Some(text) => Some(text@),
                    None => None,
                },
            );
            match signer {
                Ok(Some(s)) => verdict == Ok::<Option<Seq<u8>>, Seq<char>>(Some(s.secret())),
                Ok(None) => verdict == Ok::<Option<Seq<u8>>, Seq<char>>(None),
                Err(fault) => verdict == Err::<Option<Seq<u8>>, Seq<char>>(fault@),
            }
        }),
{
    match variable {
        Some(text) => if text.as_str().is_empty() {
            Ok(None)
        } else {
            match VapidSigner::from_base64(text.as_str()) {
                Ok(s) => Ok(Some(s)),
                Err(fault) => Err(fault),
            }
        },
        None => Ok(None),
    }
}

/// The private key that a signer gives out leads back to the same key, and so to
/// the same public key.
pub proof fn law_private_key_round_trips(scalar: Seq<u8>)
    requires
        is_scalar(scalar),
    ensures
        key_verdict(base64url(scalar)) == Ok::<Seq<u8>, Seq<char>>(scalar),
{
    let text = base64url(scalar);
    crate::codec::lemma_base64url_symbols(scalar);
    crate::text::lemma_trim_keeps(text, |c: char| white_space(c));
    crate::text::lemma_trim_keeps(text, |c: char| c == '=');
    assert(bare_key(text) == text);
    lemma_decoded(scalar);
}

/// White space around a private key and padding behind it change nothing, whatever
/// the key is: it is accepted or refused as it would be without. Only between the
/// key and its padding there is no white space.
pub proof fn law_private_key_may_be_padded(
    before: Seq<char>,
    text: Seq<char>,
    padding: Seq<char>,
    after: Seq<char>,
)
    requires
        padding.len() > 0 && text.len() > 0 ==> !white_space(text.last()),
        forall|i: int| 0 <= i < before.len() ==> white_space(#[trigger] before[i]),
        forall|i: int| 0 <= i < padding.len() ==> #[trigger] padding[i] == '=',
        forall|i: int| 0 <= i < after.len() ==> white_space(#[trigger] after[i]),
    ensures
        key_verdict(before + text + padding + after) == key_verdict(text),
{
    let blank = |c: char| white_space(c);
    let pad = |c: char| c == '=';
    let body = text + padding;
    assert(before + text + padding + after =~= (before + body) + after);
    crate::text::lemma_trim_back(before + body, after, blank);
    crate::text::lemma_trim_both(before, body, blank);
    if padding.len() == 0 {
        assert(body =~= text);
    } else {
        assert(body.last() == '=');
        if text.len() > 0 {
            crate::text::lemma_trim_start_stops(text, padding, blank);
        } else {
            assert(body.first() == '=');
        }
        crate::text::lemma_trim_back(trim_start(text, blank), padding, pad);
    }
    assert(bare_key(before + text + padding + after) == bare_key(text));
}

/// An authorization stays good for longer than the refresh margin, so a push in
/// flight never carries a stale one.
pub proof fn law_authorization_outlives_the_margin(expires: nat, now: nat)
    ensures
        authorization_expiry(expires, now) > now + JWT_REFRESH_MARGIN_SECS,
{
}

/// On a clock that does not run backwards, no authorization is good for more
/// than the lifetime of a JWT, which is under the 24 hours that FCM allows: the
/// bound holds of a signer that has not signed yet, each use keeps it, and so
/// does the passing of time.
pub proof fn law_authorization_is_short_lived(expires: nat, now: nat, later: nat)
    requires
        expires <= now + JWT_LIFETIME_SECS,
        now <= later,
    ensures
        authorization_expiry(expires, now) <= now + JWT_LIFETIME_SECS,
        authorization_expiry(expires, now) <= later + JWT_LIFETIME_SECS,
        JWT_LIFETIME_SECS < 24 * 60 * 60,
{
}

/// A minted authorization is used again until it comes within the refresh margin
/// of its expiry, and replaced from then on.
pub proof fn law_authorization_is_reused(expires: nat, minted: nat, later: nat)
    requires
        expires <= minted + JWT_REFRESH_MARGIN_SECS,
    ensures
        ({
            let first = authorization_expiry(expires, minted);
            let second = authorization_expiry(first, later);
            if later + JWT_REFRESH_MARGIN_SECS < minted + JWT_LIFETIME_SECS {
                second == first
            } else {
                second == later + JWT_LIFETIME_SECS
            }
        }),
{
}

/// The claims name the push service, the expiry and the contact, in JSON.
pub proof fn law_claims_are_json(exp: nat)
    ensures
        claims(exp) == "{\"aud\":\"https://fcm.googleapis.com\",\"exp\":"@ + decimal(exp)
            + ",\"sub\":\"https://mercurygram.org/\"}"@,
        crate::text::decimal_value(decimal(exp)) == exp,
{
    reveal_strlit("{\"aud\":\"");
    reveal_strlit("https://fcm.googleapis.com");
    reveal_strlit("\",\"exp\":");
    reveal_strlit(",\"sub\":\"");
    reveal_strlit("https://mercurygram.org/");
    reveal_strlit("\"}");
    reveal_strlit("{\"aud\":\"https://fcm.googleapis.com\",\"exp\":");
    reveal_strlit(",\"sub\":\"https://mercurygram.org/\"}");
    assert("{\"aud\":\""@ + FCM_AUDIENCE@ + "\",\"exp\":"@
        =~= "{\"aud\":\"https://fcm.googleapis.com\",\"exp\":"@);
    assert(",\"sub\":\""@ + VAPID_SUBJECT@ + "\"}"@ =~= ",\"sub\":\"https://mercurygram.org/\"}"@);
    assert(claims(exp) =~= ("{\"aud\":\""@ + FCM_AUDIENCE@ + "\",\"exp\":"@) + decimal(exp) + (
    ",\"sub\":\""@ + VAPID_SUBJECT@ + "\"}"@));
    crate::text::law_decimal_reads_back(exp);
}

/// What is signed is the base64url of the JSON header, a dot, and the base64url of
/// the claims; the JWT has the base64url of the signature behind another dot.
pub proof fn law_jwt_is_three_encodings(exp: nat, signature: Seq<u8>)
    ensures
        signing_input(exp) == base64url(
            encode_utf8("{\"typ\":\"JWT\",\"alg\":\"ES256\"}"@),
        ) + seq!['.'] + base64url(encode_utf8(claims(exp))),
        jwt_with(exp, signature) == signing_input(exp) + seq!['.'] + base64url(signature),
{
    law_jwt_header_encodes_its_json();
    reveal_strlit(".");
    assert("."@ =~= seq!['.']);
}

/// Two JWTs that are the same have the same expiry and the same signature.
pub proof fn law_jwts_are_told_apart(a: nat, b: nat, x: Seq<u8>, y: Seq<u8>)
    requires
        jwt_with(a, x) == jwt_with(b, y),
    ensures
        a == b,
        x == y,
{
    let behind = |c: char| c != '.';
    reveal_strlit(".");
    crate::codec::lemma_base64url_symbols(x);
    crate::codec::lemma_base64url_symbols(y);
    crate::text::lemma_trim_back(signing_input(a) + "."@, base64url(x), behind);
    crate::text::lemma_trim_back(signing_input(b) + "."@, base64url(y), behind);
    assert((signing_input(a) + "."@).last() == '.');
    assert((signing_input(b) + "."@).last() == '.');
    let front = signing_input(a) + "."@;
    assert(trim_end(jwt_with(a, x), behind) == front);
    assert(trim_end(jwt_with(b, y), behind) == signing_input(b) + "."@);
    assert(front.drop_last() =~= signing_input(a));
    assert((signing_input(b) + "."@).drop_last() =~= signing_input(b));
    assert(jwt_with(a, x).skip(front.len() as int) =~= base64url(x));
    assert(jwt_with(b, y).skip(front.len() as int) =~= base64url(y));
    crate::codec::lemma_base64url_injective(x, y);
    let head = JWT_HEADER@ + "."@;
    let ca = encode_utf8(claims(a));
    let cb = encode_utf8(claims(b));
    assert(signing_input(a).skip(head.len() as int) =~= base64url(ca));
    assert(signing_input(b).skip(head.len() as int) =~= base64url(cb));
    crate::codec::lemma_base64url_injective(ca, cb);
    vstd::utf8::encode_utf8_decode_utf8(claims(a));
    vstd::utf8::encode_utf8_decode_utf8(claims(b));
    law_claims_are_json(a);
    law_claims_are_json(b);
    let p = "{\"aud\":\"https://fcm.googleapis.com\",\"exp\":"@;
    let q = ",\"sub\":\"https://mercurygram.org/\"}"@;
    let n = claims(a).len() - q.len();
    assert(claims(a).subrange(p.len() as int, n) =~= decimal(a));
    assert(claims(b).subrange(p.len() as int, n) =~= decimal(b));
}

/// A JWT is accepted exactly where the key at hand takes the signature behind its
/// last dot for what stands before that dot. Without a dot, or with a signature or
/// a key that is no base64url, it is not.
pub proof fn law_jwts_are_accepted_by_their_signature(
    input: Seq<char>,
    signature: Seq<u8>,
    point: Seq<u8>,
    text: Seq<char>,
)
    ensures
        jwt_accepted(input + seq!['.'] + base64url(signature), base64url(point))
            <==> signature_verifies(point, encode_utf8(input), signature),
        !text.contains('.') ==> !jwt_accepted(text, base64url(point)),
        !text.contains('.') && (forall|data: Seq<u8>| #[trigger] base64url(data) != text)
            ==> !jwt_accepted(input + seq!['.'] + text, base64url(point)),
        (forall|data: Seq<u8>| #[trigger] base64url(data) != text) ==> !jwt_accepted(input, text),
{
    let behind = |c: char| c != '.';
    let front = input + seq!['.'];
    assert(front.last() == '.');
    assert(front.drop_last() =~= input);
    crate::codec::lemma_base64url_symbols(signature);
    crate::text::lemma_trim_back(front, base64url(signature), behind);
    assert((front + base64url(signature)).skip(front.len() as int) =~= base64url(signature));
    lemma_decoded(signature);
    lemma_decoded(point);
    if !text.contains('.') {
        assert forall|i: int| 0 <= i < text.len() implies behind(#[trigger] text[i]) by {
            assert(text.contains(text[i]));
        }
        crate::text::lemma_trim_back(Seq::empty(), text, behind);
        assert(Seq::<char>::empty() + text =~= text);
        crate::text::lemma_trim_back(front, text, behind);
        assert((front + text).skip(front.len() as int) =~= text);
    }
}

/// A JWT is used for as long as it is good for more than an hour, whatever its
/// expiry; else a push carries one that expires twelve hours from then.
pub proof fn law_jwt_is_replaced_in_its_last_hour(expires: nat, now: nat)
    ensures
        expires > now + 3600 ==> authorization_expiry(expires, now) == expires,
        expires <= now + 3600 ==> authorization_expiry(expires, now) == now + 43200,
{
}

/// Which private keys are accepted: the base64url of 32 bytes that write a number
/// from one up to the order of the P-256 group, which is left out. They are taken
/// as they are, and any other bytes are refused.
pub proof fn law_accepted_private_keys(raw: Seq<u8>)
    ensures
        ({
            let verdict = key_verdict(base64url(raw));
            let good = raw.len() == 32 && 1 <= crate::curve::big_endian(raw)
                < 115792089210356248762697446949407573529996955224135760342422259061068512044369int;
            &&& good ==> verdict == Ok::<Seq<u8>, Seq<char>>(raw)
            &&& !good ==> verdict == Err::<Seq<u8>, Seq<char>>(
                "VAPID private key invalid: crypto error"@,
            )
        }),
{
    let text = base64url(raw);
    crate::codec::lemma_base64url_symbols(raw);
    crate::text::lemma_trim_keeps(text, |c: char| white_space(c));
    crate::text::lemma_trim_keeps(text, |c: char| c == '=');
    lemma_decoded(raw);
    crate::curve::law_secret_scalars(raw, 0);
    reveal_strlit("VAPID private key invalid: ");
    reveal_strlit("crypto error");
    reveal_strlit("VAPID private key invalid: crypto error");
    assert("VAPID private key invalid: "@ + "crypto error"@
        =~= "VAPID private key invalid: crypto error"@);
}

/// A private key that is no base64url, once what surrounds it is gone, is refused
/// with what the decoder says of it.
pub proof fn law_text_that_is_no_base64url_is_refused(text: Seq<char>)
    requires
        forall|data: Seq<u8>| #[trigger] base64url(data) != bare_key(text),
    ensures
        key_verdict(text) == Err::<Seq<u8>, Seq<char>>(
            "VAPID private key is not base64url: "@ + decode_fault(bare_key(text)),
        ),
{
}

/// What is left of a private key as it is written down: everything but the white
/// space around it and the padding at its end.
pub proof fn law_bare_key_is_what_stands_inside(
    before: Seq<char>,
    text: Seq<char>,
    padding: Seq<char>,
    after: Seq<char>,
)
    requires
        forall|i: int| 0 <= i < before.len() ==> white_space(#[trigger] before[i]),
        forall|i: int| 0 <= i < padding.len() ==> #[trigger] padding[i] == '=',
        forall|i: int| 0 <= i < after.len() ==> white_space(#[trigger] after[i]),
        text.len() > 0 ==> !white_space(text[0]) && text.last() != '=',
        text.len() > 0 && padding.len() == 0 ==> !white_space(text.last()),
    ensures
        bare_key(before + text + padding + after) == text,
{
    let blank = |c: char| white_space(c);
    let pad = |c: char| c == '=';
    let body = text + padding;
    assert(before + text + padding + after =~= (before + body) + after);
    crate::text::lemma_trim_back(before + body, after, blank);
    crate::text::lemma_trim_both(before, body, blank);
    if padding.len() > 0 {
        assert(body.last() == '=');
    } else {
        assert(body =~= text);
    }
    if body.len() > 0 {
        assert(body[0] == '=' || body[0] == text[0]);
    }
    assert(trim_start(trim_end(body, blank), blank) == body);
    crate::text::lemma_trim_back(text, padding, pad);
}

/// There is a JWT exactly where there is a signature for it, and an authorization
/// exactly where there is a JWT. It holds the JWT and the base64url of the public
/// point, each behind its name.
pub proof fn law_authorization_holds_jwt_and_key(
    scalar: Seq<u8>,
    exp: nat,
    jwt: Seq<char>,
    key: Seq<char>,
)
    ensures
        ({
            let signature = ecdsa_signature(scalar, encode_utf8(signing_input(exp)));
            &&& signed_jwt(scalar, exp) is Some <==> signature is Some
            &&& signature is Some ==> signed_jwt(scalar, exp)->0 == signing_input(exp) + "."@
                + base64url(signature->0)
        }),
        authorization_text(scalar, exp) is Some <==> signed_jwt(scalar, exp) is Some,
        signed_jwt(scalar, exp) is Some ==> authorization_text(scalar, exp)->0 == "vapid t="@
            + signed_jwt(scalar, exp)->0 + ",k="@ + base64url(public_point(scalar)),
        vapid_text(jwt, key) == "vapid t="@ + jwt + ",k="@ + key,
{
}

} // verus!
