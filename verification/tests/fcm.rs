use aesgcm_proxy::endpoint::Url;
use aesgcm_proxy::fcm::{fits_in_url, send_url, Redacted, FCM_SEND_PREFIX, MAX_PAYLOAD};
use aesgcm_proxy::vapid::{VapidSigner, JWT_HEADER};
use base64::engine::general_purpose::URL_SAFE_NO_PAD;
use base64::Engine;
use p256::ecdsa::signature::Verifier;
use p256::ecdsa::{Signature, VerifyingKey};
use p256::EncodedPoint;

#[test]
fn jwt_header_constant_matches_its_json() {
    assert_eq!(
        JWT_HEADER,
        URL_SAFE_NO_PAD.encode(br#"{"typ":"JWT","alg":"ES256"}"#)
    );
}

#[test]
fn jwt_verifies_against_advertised_public_key() {
    let mut signer = VapidSigner::generate();
    let header = signer.authorization(1_700_000_000).unwrap();
    let header = header.to_str().unwrap();

    let (t, k) = header
        .trim_start_matches("vapid ")
        .split_once(',')
        .expect("header has both parts");
    let token = t.strip_prefix("t=").expect("t= part");
    let advertised = k.strip_prefix("k=").expect("k= part");
    assert_eq!(advertised, signer.public_key());

    let (signing_input, signature) = token.rsplit_once('.').unwrap();

    let point = EncodedPoint::from_bytes(URL_SAFE_NO_PAD.decode(advertised).unwrap()).unwrap();
    let verifying = VerifyingKey::from_encoded_point(&point).unwrap();
    let signature = Signature::from_slice(&URL_SAFE_NO_PAD.decode(signature).unwrap()).unwrap();
    verifying
        .verify(signing_input.as_bytes(), &signature)
        .expect("signature matches the advertised key");

    let claims = String::from_utf8(
        URL_SAFE_NO_PAD
            .decode(signing_input.split('.').nth(1).unwrap())
            .unwrap(),
    )
    .unwrap();
    assert!(claims.contains(r#""aud":"https://fcm.googleapis.com""#));
}

#[test]
fn round_trips_the_private_key() {
    let signer = VapidSigner::generate();
    let reloaded = VapidSigner::from_base64(&signer.private_key_base64()).unwrap();
    assert_eq!(signer.public_key(), reloaded.public_key());
    assert!(VapidSigner::from_base64("not base64!!").is_err());
}

#[test]
fn send_url_stays_under_the_fcm_prefix() {
    let url = send_url("fMe1_ab:APA91bHq-token.value").expect("plain token");
    assert_eq!(
        url.as_str(),
        "https://fcm.googleapis.com/fcm/send/fMe1_ab:APA91bHq-token.value"
    );
    // Pure alphanumeric before the colon: a relative join would read it as a
    // scheme and leave FCM entirely.
    let url = send_url("e5fNOEHUN4E:APA91bEKcyXKGhix").expect("scheme-shaped token");
    assert_eq!(
        url.as_str(),
        "https://fcm.googleapis.com/fcm/send/e5fNOEHUN4E:APA91bEKcyXKGhix"
    );
    assert!(send_url("").is_none());
    assert!(send_url("..").is_none());
    assert!(send_url("../../etc/passwd").is_none());
    assert!(send_url("//evil.example/x").is_none());
    assert!(send_url("https://evil.example/x").is_none());
}

#[test]
fn redacts_the_token_in_logs() {
    let url = send_url("fMe1_ab:APA91bHq").unwrap();
    assert_eq!(
        Redacted(&url).to_string(),
        "https://fcm.googleapis.com/fcm/send/fMe1_a…"
    );
    let plain = Url::parse("https://up.example/UP?token=1").unwrap();
    assert_eq!(Redacted(&plain).to_string(), plain.as_str());
}

#[test]
fn send_url_escapes_what_a_segment_cannot_hold() {
    let url = send_url("a b\"#%<>?\\`{}|^~\u{7f}\u{e9}").unwrap();
    assert_eq!(
        url.as_str(),
        "https://fcm.googleapis.com/fcm/send/a%20b%22%23%25%3C%3E%3F%5C%60%7B%7D|^~%7F%C3%A9"
    );
    assert_eq!(
        send_url("%2e%2e").unwrap().as_str(),
        "https://fcm.googleapis.com/fcm/send/%252e%252e"
    );
    assert_eq!(
        send_url("C|").unwrap().as_str(),
        "https://fcm.googleapis.com/fcm/send/C|"
    );
}

#[test]
fn send_url_skips_tabs_and_line_breaks() {
    assert_eq!(
        send_url("a\tb\nc\rd").unwrap().as_str(),
        "https://fcm.googleapis.com/fcm/send/abcd"
    );
    assert!(send_url("\t\r\n").is_none());
    assert!(send_url(".\t").is_none());
    assert!(send_url(".\n.").is_none());
    assert!(send_url(".").is_none());
    assert_eq!(
        send_url("...").unwrap().as_str(),
        "https://fcm.googleapis.com/fcm/send/..."
    );
    assert_eq!(
        send_url(" x ").unwrap().as_str(),
        "https://fcm.googleapis.com/fcm/send/%20x%20"
    );
}

#[test]
fn every_ascii_token_character_lands_behind_the_prefix() {
    for b in 1u8..128 {
        let token = format!("t{}", b as char);
        match send_url(&token) {
            None => assert_eq!(b, b'/'),
            Some(url) => {
                let rest = url.as_str().strip_prefix(FCM_SEND_PREFIX).unwrap();
                let expected = if b == b'\t' || b == b'\n' || b == b'\r' {
                    "t".to_owned()
                } else if b <= b' ' || b == 0x7f || b"\"#%<>?\\`{}".contains(&b) {
                    format!("t%{:02X}", b)
                } else {
                    token
                };
                assert_eq!(rest, expected);
            }
        }
    }
}

fn unescape(segment: &str) -> Vec<u8> {
    let bytes = segment.as_bytes();
    let mut out = Vec::new();
    let mut i = 0;
    while i < bytes.len() {
        if bytes[i] == b'%' {
            out.push(u8::from_str_radix(&segment[i + 1..i + 3], 16).unwrap());
            i += 3;
        } else {
            out.push(bytes[i]);
            i += 1;
        }
    }
    out
}

#[test]
fn the_token_can_be_read_back_from_its_send_url() {
    for token in ["id:APA91b-x_y.z", "100%25", "%", "a b?c#d", "\u{e9}\u{20ac}\u{1f600}", "..."] {
        let url = send_url(token).unwrap();
        let segment = url.as_str().strip_prefix(FCM_SEND_PREFIX).unwrap();
        assert_eq!(unescape(segment), token.as_bytes());
    }
    let url = send_url("a\tb\r\n").unwrap();
    let segment = url.as_str().strip_prefix(FCM_SEND_PREFIX).unwrap();
    assert_eq!(unescape(segment), b"ab".to_vec());
}

#[test]
fn tokens_that_differ_have_send_urls_that_differ() {
    let tokens = ["%", "%25", "%2525", " ", "%20", "a", "A", "?", "%3F", "%3f"];
    for (i, one) in tokens.iter().enumerate() {
        for two in &tokens[i + 1..] {
            let (one, two) = (send_url(one).unwrap(), send_url(two).unwrap());
            assert!(one.as_str() != two.as_str());
        }
    }
}

#[test]
fn redaction_keeps_short_tokens_and_hides_long_ones() {
    let short = send_url("abc").unwrap();
    assert_eq!(
        Redacted(&short).to_string(),
        "https://fcm.googleapis.com/fcm/send/abc\u{2026}"
    );
    let one = send_url("abcdefSECRET").unwrap();
    let two = send_url("abcdefOTHER").unwrap();
    assert_eq!(Redacted(&one).to_string(), Redacted(&two).to_string());
}

#[test]
fn tokens_of_ordinary_length_fit_in_a_url() {
    for token in ["", "/", "a/b", "id:APA91b-x_y.z", "\u{e9}\u{20ac}\u{1f600}\t%"] {
        assert!(fits_in_url(token));
    }
    assert!(fits_in_url(&"\u{1f600}".repeat(100_000)));
}

#[test]
fn the_payload_limit_is_four_kibibytes() {
    assert_eq!(MAX_PAYLOAD, 4096);
}
