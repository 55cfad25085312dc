use aesgcm_proxy::vapid::{
    jwt_signing_input, jwt_with_signature, load_signer, vapid_value, verify_jwt, VapidSigner,
    JWT_LIFETIME_SECS, JWT_REFRESH_MARGIN_SECS,
};
use base64::engine::general_purpose::URL_SAFE_NO_PAD;
use base64::Engine;

const NOW: u64 = 1_700_000_000;

fn key_text(bytes: &[u8]) -> String {
    URL_SAFE_NO_PAD.encode(bytes)
}

fn scalar(last: u8) -> Vec<u8> {
    let mut bytes = vec![0u8; 32];
    bytes[31] = last;
    bytes
}

fn order() -> Vec<u8> {
    let mut bytes = vec![0xffu8; 32];
    bytes[4..8].copy_from_slice(&[0; 4]);
    bytes[16..].copy_from_slice(&[
        0xbc, 0xe6, 0xfa, 0xad, 0xa7, 0x17, 0x9e, 0x84, 0xf3, 0xb9, 0xca, 0xc2, 0xfc, 0x63, 0x25,
        0x51,
    ]);
    bytes
}

#[test]
fn signing_input_has_the_fixed_shape() {
    let input = jwt_signing_input(1_700_043_200);
    let (head, claims) = input.split_once('.').unwrap();
    assert_eq!(
        URL_SAFE_NO_PAD.decode(head).unwrap(),
        br#"{"typ":"JWT","alg":"ES256"}"#.to_vec()
    );
    assert_eq!(
        String::from_utf8(URL_SAFE_NO_PAD.decode(claims).unwrap()).unwrap(),
        r#"{"aud":"https://fcm.googleapis.com","exp":1700043200,"sub":"https://mercurygram.org/"}"#
    );
}

#[test]
fn expiry_is_written_in_decimal() {
    for exp in [0u64, 7, 9, 10, 99, 100, 1_000_000_007, u64::MAX] {
        let input = jwt_signing_input(exp);
        let claims = URL_SAFE_NO_PAD.decode(input.split('.').nth(1).unwrap()).unwrap();
        let claims = String::from_utf8(claims).unwrap();
        assert!(claims.contains(&format!("\"exp\":{exp},")));
    }
}

#[test]
fn jwt_and_header_are_assembled_from_their_parts() {
    let jwt = jwt_with_signature(5, &[0xff, 0xfe, 0xfd, 0xfc]);
    assert_eq!(jwt, format!("{}.__79_A", jwt_signing_input(5)));
    assert_eq!(vapid_value("a.b.c", "KEY"), "vapid t=a.b.c,k=KEY");
}

#[test]
fn public_key_of_the_generator() {
    // The public point of the scalar 1 is the base point of the curve.
    let signer = VapidSigner::from_base64(&key_text(&scalar(1))).unwrap();
    let point = URL_SAFE_NO_PAD.decode(signer.public_key()).unwrap();
    assert_eq!(point.len(), 65);
    assert_eq!(point[0], 4);
    assert_eq!(
        point[1..9].to_vec(),
        vec![0x6b, 0x17, 0xd1, 0xf2, 0xe1, 0x2c, 0x42, 0x47]
    );
    assert_eq!(
        point[33..41].to_vec(),
        vec![0x4f, 0xe3, 0x42, 0xe2, 0xfe, 0x1a, 0x7f, 0x9b]
    );
}

#[test]
fn private_key_may_be_padded_and_surrounded_by_blanks() {
    let text = key_text(&scalar(9));
    let plain = VapidSigner::from_base64(&text).unwrap();
    let padded = VapidSigner::from_base64(&format!(" \n\u{a0}{text}==\r\n\t\u{3000}")).unwrap();
    assert_eq!(plain.public_key(), padded.public_key());
    assert_eq!(padded.private_key_base64(), text);
    assert!(VapidSigner::from_base64(&format!("={text}")).is_err());
    assert!(VapidSigner::from_base64(&format!("{text}= =")).is_err());
}

#[test]
fn blanks_and_padding_change_nothing_about_a_refused_key() {
    for text in ["", "A", "AB", "not base64!!", "AAAA", "=A="] {
        let plain = VapidSigner::from_base64(text).err().unwrap();
        let padded = VapidSigner::from_base64(&format!("\u{2003} {text}=== \n")).err().unwrap();
        assert_eq!(plain, padded);
    }
}

#[test]
fn private_keys_have_exactly_32_bytes() {
    for len in [0usize, 1, 23, 24, 25, 31, 33, 48] {
        let mut raw = vec![0u8; len];
        if let Some(last) = raw.last_mut() {
            *last = 9;
        }
        let fault = VapidSigner::from_base64(&key_text(&raw)).err().unwrap();
        assert_eq!(fault, "VAPID private key invalid: crypto error");
    }
    let fault = VapidSigner::from_base64("AAAAAAAAAAAAAAAAAAAAAAAAAAAAAAAB").err().unwrap();
    assert_eq!(fault, "VAPID private key invalid: crypto error");
    assert!(load_signer(&Some("AAAAAAAAAAAAAAAAAAAAAAAAAAAAAAAB".to_owned())).is_err());
    let signer = VapidSigner::from_base64(&key_text(&scalar(9))).unwrap();
    assert_eq!(signer.private_key_base64(), key_text(&scalar(9)));
}

#[test]
fn keys_out_of_range_are_refused() {
    let fault = VapidSigner::from_base64(&key_text(&scalar(0))).err().unwrap();
    assert_eq!(fault, "VAPID private key invalid: crypto error");
    let fault = VapidSigner::from_base64(&key_text(&order())).err().unwrap();
    assert_eq!(fault, "VAPID private key invalid: crypto error");
    let mut largest = order();
    largest[31] -= 1;
    assert!(VapidSigner::from_base64(&key_text(&largest)).is_ok());
    let fault = VapidSigner::from_base64("").err().unwrap();
    assert_eq!(fault, "VAPID private key invalid: crypto error");
}

#[test]
fn text_that_is_not_base64url_is_refused() {
    let fault = VapidSigner::from_base64("not base64!!").err().unwrap();
    assert_eq!(
        fault,
        "VAPID private key is not base64url: Invalid symbol 32, offset 3."
    );
    // A last symbol with stray bits encodes nothing.
    let fault = VapidSigner::from_base64("AB").err().unwrap();
    assert!(fault.starts_with("VAPID private key is not base64url: "));
    let fault = VapidSigner::from_base64("A").err().unwrap();
    assert!(fault.starts_with("VAPID private key is not base64url: "));
    let fault = VapidSigner::from_base64("ab+/").err().unwrap();
    assert!(fault.starts_with("VAPID private key is not base64url: "));
}

#[test]
fn authorization_is_reused_until_the_refresh_margin() {
    let mut signer = VapidSigner::from_base64(&key_text(&scalar(3))).unwrap();
    let first = signer.authorization(NOW).unwrap().bytes;
    let last_use = NOW + JWT_LIFETIME_SECS - JWT_REFRESH_MARGIN_SECS - 1;
    assert_eq!(signer.authorization(last_use).unwrap().bytes, first);
    let second = signer.authorization(last_use + 1).unwrap().bytes;
    assert!(second != first);
    assert_eq!(signer.authorization(last_use + 2).unwrap().bytes, second);
}

#[test]
fn authorization_expires_after_its_lifetime() {
    let mut signer = VapidSigner::from_base64(&key_text(&scalar(3))).unwrap();
    let value = signer.authorization(NOW).unwrap().to_str().unwrap();
    let jwt = signer.sign_jwt(NOW + JWT_LIFETIME_SECS).unwrap();
    assert_eq!(value, vapid_value(&jwt, signer.public_key()));
    assert_eq!(JWT_LIFETIME_SECS, 12 * 60 * 60);
    assert_eq!(JWT_REFRESH_MARGIN_SECS, 60 * 60);
}

#[test]
fn authorization_parts_are_base64url() {
    let mut signer = VapidSigner::generate();
    let value = signer.authorization(NOW).unwrap().to_str().unwrap();
    let (jwt, key) = value.strip_prefix("vapid t=").unwrap().split_once(",k=").unwrap();
    let parts: Vec<&str> = jwt.split('.').collect();
    assert_eq!(parts.len(), 3);
    for part in parts.iter().chain([key].iter()) {
        assert!(part.bytes().all(|b| b.is_ascii_alphanumeric() || b == b'-' || b == b'_'));
    }
    assert_eq!(URL_SAFE_NO_PAD.decode(parts[2]).unwrap().len(), 64);
}

#[test]
fn signatures_are_deterministic() {
    let one = VapidSigner::from_base64(&key_text(&scalar(5))).unwrap();
    let two = VapidSigner::from_base64(&key_text(&scalar(5))).unwrap();
    assert_eq!(one.sign_jwt(77), two.sign_jwt(77));
    assert!(one.sign_jwt(77) != one.sign_jwt(78));
}

#[test]
fn generated_keys_differ() {
    let one = VapidSigner::generate();
    let two = VapidSigner::generate();
    assert!(one.private_key_base64() != two.private_key_base64());
    assert_eq!(URL_SAFE_NO_PAD.decode(one.private_key_base64()).unwrap().len(), 32);
}

#[test]
fn the_variable_decides_whether_there_is_a_signer() {
    assert!(matches!(load_signer(&None), Ok(None)));
    assert!(matches!(load_signer(&Some(String::new())), Ok(None)));
    let signer = load_signer(&Some(key_text(&scalar(2)))).unwrap_or(None).unwrap();
    assert_eq!(signer.private_key_base64(), key_text(&scalar(2)));
    assert!(load_signer(&Some("garbage!".to_owned())).is_err());
    assert!(load_signer(&Some(" ".to_owned())).is_err());
}

#[test]
fn a_signed_jwt_is_accepted_by_its_own_key_only() {
    let signer = VapidSigner::from_base64(&key_text(&scalar(5))).unwrap();
    let other = VapidSigner::from_base64(&key_text(&scalar(6))).unwrap();
    let jwt = signer.sign_jwt(77).unwrap();
    assert!(verify_jwt(&jwt, signer.public_key()));
    assert!(!verify_jwt(&jwt, other.public_key()));
    assert!(verify_jwt(&other.sign_jwt(77).unwrap(), other.public_key()));

    // The signature of one expiry does not do for another.
    let (_, signature) = jwt.rsplit_once('.').unwrap();
    let forged = format!("{}.{signature}", jwt_signing_input(78));
    assert!(!verify_jwt(&forged, signer.public_key()));
}

#[test]
fn an_authorization_carries_a_jwt_that_its_key_accepts() {
    let mut signer = VapidSigner::generate();
    let value = signer.authorization(NOW).unwrap().to_str().unwrap();
    let (jwt, key) = value.strip_prefix("vapid t=").unwrap().split_once(",k=").unwrap();
    assert_eq!(key, signer.public_key());
    assert!(verify_jwt(jwt, key));
}

#[test]
fn a_malformed_jwt_or_key_is_not_accepted() {
    let signer = VapidSigner::from_base64(&key_text(&scalar(5))).unwrap();
    let key = signer.public_key();
    let jwt = signer.sign_jwt(77).unwrap();
    let (input, signature) = jwt.rsplit_once('.').unwrap();
    for bad in [
        String::new(),
        ".".to_owned(),
        input.replace('.', "") + signature,
        format!("{input}."),
        format!("{input}.{}", &signature[..80]),
        format!("{input}.{}", key_text(&[0u8; 64])),
        format!("{input}.{signature}="),
        format!("{jwt}."),
    ] {
        assert!(!verify_jwt(&bad, key));
    }
    for bad in ["", "!", &key[..80], &key_text(&[4u8; 65]), &format!("{key}=")] {
        assert!(!verify_jwt(&jwt, bad));
    }
}
