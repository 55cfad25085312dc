use aesgcm_proxy::endpoint::{validate_endpoint, Rejection, Url};
use aesgcm_proxy::fcm::send_url;
use aesgcm_proxy::fold::make_aesgcm_body;
use aesgcm_proxy::header::{header_field, HeaderValue};
use aesgcm_proxy::proxy::{
    aesgcm, aesgcm_reply, assemble_fcm_push, cap_payload, decide_post, decide_put, fcm_post,
    fcm_put, fcm_put_after_wait, push_headers, put_after_wait, put_proxy, put_reply, Encrypted,
    PostStep, Push, PutStep, Refusal, Reply, Upstream,
};
use aesgcm_proxy::recent::{
    cleanup_recent_posts, recent_post_within_window, RecentPosts, CORRELATION_WINDOW_MILLIS,
};
use aesgcm_proxy::vapid::VapidSigner;

const UP: &str = "https://up.example/UP?token=1";
const SECOND: u64 = 1_000_000_000;
const UNIX_NOW: u64 = 1_700_000_000;

fn value(text: &str) -> Option<HeaderValue> {
    HeaderValue::from_str(text)
}

fn request(body: &[u8]) -> Encrypted {
    Encrypted {
        encryption: value("salt=abc"),
        crypto_key: value("dh=xyz"),
        body: body.to_vec(),
    }
}

fn answered(status: u16) -> Upstream {
    Upstream::Answered { status, location: None }
}

fn posted(step: PostStep) -> Push {
    match step {
        PostStep::Forward(push) => push,
        other => panic!("{other:?}"),
    }
}

fn refused(step: PostStep) -> u16 {
    match step {
        PostStep::Refuse(why) => why.status(),
        other => panic!("{other:?}"),
    }
}

fn endpoint(text: &str) -> Url {
    validate_endpoint(text).unwrap()
}

fn delivered_at(time: u64) -> RecentPosts {
    let mut recent = RecentPosts::new();
    aesgcm_reply(&endpoint(UP), answered(201), &mut recent, time);
    recent
}

#[test]
fn headers_are_folded_in_front_of_the_body() {
    assert_eq!(
        make_aesgcm_body("salt=abc", "dh=xyz", &[0, 10, 255]),
        b"aesgcm\nEncryption: salt=abc\nCrypto-Key: dh=xyz\n\x00\x0a\xff".to_vec()
    );
    assert_eq!(
        make_aesgcm_body("", "", &[]),
        b"aesgcm\nEncryption: \nCrypto-Key: \n".to_vec()
    );
    assert_eq!(
        make_aesgcm_body("\u{e9}", "k", b"x"),
        "aesgcm\nEncryption: \u{e9}\nCrypto-Key: k\nx".as_bytes().to_vec()
    );
}

#[test]
fn a_folded_body_can_be_taken_apart() {
    let body = b"line\nline\n\xff".to_vec();
    let folded = make_aesgcm_body("e: f", "", &body);
    let rest = folded.strip_prefix(b"aesgcm\nEncryption: ").unwrap();
    let end = rest.iter().position(|b| *b == b'\n').unwrap();
    assert_eq!(&rest[..end], b"e: f");
    let rest = rest[end + 1..].strip_prefix(b"Crypto-Key: ").unwrap();
    let end = rest.iter().position(|b| *b == b'\n').unwrap();
    assert_eq!(end, 0);
    assert_eq!(rest[1..].to_vec(), body);
}

#[test]
fn header_values_take_text_without_controls() {
    assert_eq!(HeaderValue::from_str("a\tb").unwrap().bytes, b"a\tb".to_vec());
    assert_eq!(HeaderValue::from_str("\u{e9}").unwrap().bytes, vec![0xc3, 0xa9]);
    assert!(HeaderValue::from_str("a\nb").is_none());
    assert!(HeaderValue::from_str("a\u{7f}").is_none());
    assert!(HeaderValue::from_str("\u{0}").is_none());
    assert_eq!(HeaderValue::from_str("").unwrap().copy().bytes, Vec::<u8>::new());
}

#[test]
fn only_visible_ascii_is_read_from_a_header() {
    assert_eq!(header_field(&value("salt=a\tb ~")), "salt=a\tb ~");
    assert_eq!(header_field(&value("\u{e9}")), "");
    assert_eq!(header_field(&None), "");
    for b in 0u8..=255 {
        let text = HeaderValue { bytes: vec![b'a', b] }.to_str();
        let visible = b == 9 || (b >= 32 && b < 127);
        assert_eq!(text.is_some(), visible);
        if let Some(t) = text {
            assert_eq!(t.as_bytes(), &[b'a', b]);
        }
    }
}

#[test]
fn post_without_an_endpoint_is_a_bad_request() {
    assert_eq!(refused(aesgcm("", &request(b"x"))), 400);
    assert_eq!(refused(decide_post("", validate_endpoint(UP), &request(b"x"))), 400);
}

#[test]
fn post_to_a_refused_endpoint_is_forbidden() {
    for e in ["nonsense", "ftp://a.example/", "https://u@a.example/", "http://10.0.0.1/"] {
        assert_eq!(refused(aesgcm(e, &request(b"x"))), 403, "{e}");
    }
    assert_eq!(
        refused(decide_post("e", Err(Rejection::NoHost), &request(b"x"))),
        403
    );
}

#[test]
fn post_is_folded_and_forwarded() {
    let push = posted(aesgcm(UP, &request(b"cipher")));
    assert_eq!(push.url.as_str(), UP);
    assert_eq!(push.body, make_aesgcm_body("salt=abc", "dh=xyz", b"cipher"));
    assert!(push.authorization.is_none());
}

#[test]
fn post_with_unreadable_headers_is_still_forwarded() {
    let broken = Encrypted { encryption: None, crypto_key: value("\u{e9}"), body: vec![1] };
    let push = posted(aesgcm(UP, &broken));
    assert_eq!(push.body, make_aesgcm_body("", "", &[1]));
}

#[test]
fn any_success_is_answered_created() {
    for status in [200u16, 201, 202, 204, 299] {
        let mut recent = RecentPosts::new();
        match aesgcm_reply(&endpoint(UP), answered(status), &mut recent, 7) {
            Reply::Created(location) => assert_eq!(location.bytes, UP.as_bytes().to_vec()),
            other => panic!("{other:?}"),
        }
        assert!(recent_post_within_window(&recent, UP, 7));
    }
}

#[test]
fn upstream_location_is_kept() {
    let mut recent = RecentPosts::new();
    let upstream = Upstream::Answered { status: 201, location: value("/messages/1") };
    match aesgcm_reply(&endpoint(UP), upstream, &mut recent, 7) {
        Reply::Created(location) => assert_eq!(location.bytes, b"/messages/1".to_vec()),
        other => panic!("{other:?}"),
    }
    let odd = Url { href: "bad\n".to_owned() };
    match aesgcm_reply(&odd, answered(200), &mut recent, 7) {
        Reply::Created(location) => assert!(location.bytes.is_empty()),
        other => panic!("{other:?}"),
    }
}

#[test]
fn undelivered_posts_leave_no_trace() {
    for status in [199u16, 300, 404, 500] {
        let mut recent = RecentPosts::new();
        let reply = aesgcm_reply(&endpoint(UP), answered(status), &mut recent, 7);
        assert!(matches!(reply, Reply::Relay(s) if s == status));
        assert!(!recent_post_within_window(&recent, UP, 7));
    }
    let mut recent = RecentPosts::new();
    let reply = aesgcm_reply(&endpoint(UP), Upstream::Failed, &mut recent, 7);
    assert!(matches!(reply, Reply::Status(500)));
    assert!(!recent_post_within_window(&recent, UP, 7));
}

#[test]
fn put_after_a_delivered_post_is_suppressed() {
    let recent = delivered_at(5 * SECOND);
    let now = 7 * SECOND - 1;
    assert!(matches!(put_proxy(UP, vec![1], &recent, now), PutStep::Suppress));
    assert_eq!(put_proxy(UP, vec![1], &recent, now).status(), Some(200));
    assert!(matches!(put_proxy(UP, vec![1], &recent, 7 * SECOND), PutStep::Wait(_)));
    assert!(matches!(
        put_proxy("https://up.example/other", vec![1], &recent, now),
        PutStep::Wait(_)
    ));
    // The same endpoint in another spelling.
    assert!(matches!(
        put_proxy("https://UP.example:443/UP?token=1", vec![1], &recent, now),
        PutStep::Suppress
    ));
}

#[test]
fn post_during_the_wait_suppresses_the_put() {
    let pending = match put_proxy(UP, b"version=3".to_vec(), &RecentPosts::new(), 0) {
        PutStep::Wait(pending) => pending,
        other => panic!("{other:?}"),
    };
    let step = put_after_wait(pending, &delivered_at(SECOND / 10), SECOND / 5);
    assert!(matches!(step, PutStep::Suppress));
}

#[test]
fn unmatched_put_is_forwarded_unchanged() {
    let recent = RecentPosts::new();
    let pending = match put_proxy(UP, b"version=3".to_vec(), &recent, 0) {
        PutStep::Wait(pending) => pending,
        other => panic!("{other:?}"),
    };
    match put_after_wait(pending, &recent, SECOND / 5) {
        PutStep::Forward(push) => {
            assert_eq!(push.url.as_str(), UP);
            assert_eq!(push.body, b"version=3".to_vec());
            assert!(push.authorization.is_none());
        }
        other => panic!("{other:?}"),
    }
    assert_eq!(CORRELATION_WINDOW_MILLIS, 200);
}

#[test]
fn put_to_a_refused_endpoint_is_forbidden() {
    match put_proxy("http://127.0.0.1/", vec![], &RecentPosts::new(), 0) {
        PutStep::Refuse(why) => assert_eq!(why.status(), 403),
        other => panic!("{other:?}"),
    }
    match decide_put(Err(Rejection::Credentials), vec![], &RecentPosts::new(), 0) {
        PutStep::Refuse(why) => assert_eq!(why.status(), 403),
        other => panic!("{other:?}"),
    }
}

#[test]
fn forwarded_put_is_answered_with_what_came_back() {
    assert!(matches!(put_reply(&answered(204)), Reply::Relay(204)));
    assert!(matches!(put_reply(&answered(410)), Reply::Relay(410)));
    assert!(matches!(put_reply(&Upstream::Failed), Reply::Status(500)));
}

#[test]
fn statuses_of_steps_and_replies() {
    let recent = RecentPosts::new();
    assert_eq!(put_proxy(UP, vec![1], &recent, 0).status(), None);
    assert_eq!(put_proxy("http://[::1]/", vec![1], &recent, 0).status(), Some(403));
    let mut recent = RecentPosts::new();
    let created = aesgcm_reply(&endpoint(UP), answered(202), &mut recent, 0);
    assert_eq!(created.status(), 201);
    let relayed = aesgcm_reply(&endpoint(UP), answered(429), &mut recent, 0);
    assert_eq!(relayed.status(), 429);
    assert_eq!(put_reply(&Upstream::Failed).status(), 500);
    assert_eq!(Refusal::MissingEndpoint.status(), 400);
}

#[test]
fn lookups_follow_the_last_delivery() {
    let mut recent = RecentPosts::new();
    assert!(!recent_post_within_window(&recent, "k", 0));
    recent.record("k", 10 * SECOND);
    assert!(recent_post_within_window(&recent, "k", 10 * SECOND));
    assert!(recent_post_within_window(&recent, "k", 9 * SECOND));
    assert!(recent_post_within_window(&recent, "k", 12 * SECOND - 1));
    assert!(!recent_post_within_window(&recent, "k", 12 * SECOND));
    assert!(!recent_post_within_window(&recent, "other", 10 * SECOND));
    recent.record("k", 12 * SECOND);
    assert!(recent_post_within_window(&recent, "k", 13 * SECOND));
}

#[test]
fn eviction_changes_no_lookup() {
    let mut recent = RecentPosts::new();
    let mut same = RecentPosts::new();
    for i in 0u64..50 {
        recent.record(&format!("k{}", i % 20), i * SECOND / 10);
        same.record(&format!("k{}", i % 20), i * SECOND / 10);
    }
    let now = 5 * SECOND;
    cleanup_recent_posts(&mut recent, now);
    for later in [now, now + SECOND / 2, now + 3 * SECOND] {
        for i in 0u64..20 {
            let key = format!("k{i}");
            assert_eq!(
                recent_post_within_window(&recent, &key, later),
                recent_post_within_window(&same, &key, later)
            );
        }
    }
    cleanup_recent_posts(&mut recent, now + 10 * SECOND);
    // What was evicted does not come back, even for an earlier time.
    assert!(!recent_post_within_window(&recent, "k9", now));
    recent.record("k9", now + 10 * SECOND);
    assert!(recent_post_within_window(&recent, "k9", now + 10 * SECOND));
}

#[test]
fn fcm_is_disabled_without_a_key() {
    let mut signer: Option<VapidSigner> = None;
    assert_eq!(refused(fcm_post(&mut signer, "tok", &request(b"x"), UNIX_NOW)), 503);
    match fcm_put(&signer, "tok", vec![], &RecentPosts::new(), 0) {
        PutStep::Refuse(why) => assert_eq!(why.status(), 503),
        other => panic!("{other:?}"),
    }
}

#[test]
fn fcm_refuses_what_cannot_be_a_token() {
    let mut signer = Some(VapidSigner::generate());
    assert_eq!(refused(fcm_post(&mut signer, "..", &request(b"x"), UNIX_NOW)), 403);
    match fcm_put(&signer, "a/b", vec![], &RecentPosts::new(), 0) {
        PutStep::Refuse(why) => assert_eq!(why.status(), 403),
        other => panic!("{other:?}"),
    }
}

#[test]
fn fcm_post_is_folded_and_signed() {
    let mut signer = Some(VapidSigner::generate());
    let push = posted(fcm_post(&mut signer, "id:tok", &request(b"cipher"), UNIX_NOW));
    assert_eq!(push.url.as_str(), "https://fcm.googleapis.com/fcm/send/id:tok");
    assert_eq!(push.body, make_aesgcm_body("salt=abc", "dh=xyz", b"cipher"));
    let due = signer.as_mut().unwrap().authorization(UNIX_NOW).unwrap();
    assert_eq!(push.authorization.unwrap().bytes, due.bytes);
}

#[test]
fn payload_over_the_fcm_limit_is_replaced_by_an_empty_one() {
    assert_eq!(cap_payload(vec![7; 4096]).len(), 4096);
    assert_eq!(cap_payload(vec![7; 4097]).len(), 0);
    let overhead = make_aesgcm_body("salt=abc", "dh=xyz", b"").len();
    let mut signer = Some(VapidSigner::generate());
    let fits = request(&vec![1; 4096 - overhead]);
    assert_eq!(posted(fcm_post(&mut signer, "t", &fits, UNIX_NOW)).body.len(), 4096);
    let over = request(&vec![1; 4097 - overhead]);
    let push = posted(fcm_post(&mut signer, "t", &over, UNIX_NOW));
    assert!(push.body.is_empty());
    assert!(push.authorization.is_some());
}

#[test]
fn unsigned_fcm_push_is_an_internal_error() {
    let url = send_url("t").unwrap();
    let why = assemble_fcm_push(url, vec![1], None).unwrap_err();
    assert!(matches!(why, Refusal::Unsigned));
    assert_eq!(why.status(), 500);
    let url = send_url("t").unwrap();
    let push = assemble_fcm_push(url, vec![1], value("vapid")).unwrap();
    assert_eq!(push.body, vec![1]);
}

#[test]
fn fcm_legs_are_correlated() {
    let mut signer = Some(VapidSigner::generate());
    let mut recent = RecentPosts::new();
    let push = posted(fcm_post(&mut signer, "id:tok", &request(b"c"), UNIX_NOW));
    aesgcm_reply(&push.url, answered(201), &mut recent, SECOND);
    assert!(matches!(
        fcm_put(&signer, "id:tok", vec![], &recent, 2 * SECOND),
        PutStep::Suppress
    ));
    assert!(matches!(
        fcm_put(&signer, "id:other", vec![], &recent, 2 * SECOND),
        PutStep::Wait(_)
    ));
    assert!(matches!(
        fcm_put(&signer, "id:tok", vec![], &recent, 3 * SECOND),
        PutStep::Wait(_)
    ));
}

#[test]
fn unmatched_fcm_put_is_signed_and_forwarded() {
    let mut signer = Some(VapidSigner::generate());
    let recent = RecentPosts::new();
    let pending = match fcm_put(&signer, "id:tok", b"version=1".to_vec(), &recent, 0) {
        PutStep::Wait(pending) => pending,
        other => panic!("{other:?}"),
    };
    match fcm_put_after_wait(&mut signer, pending, &recent, SECOND, UNIX_NOW) {
        PutStep::Forward(push) => {
            assert_eq!(push.url.as_str(), "https://fcm.googleapis.com/fcm/send/id:tok");
            assert_eq!(push.body, b"version=1".to_vec());
            assert!(push.authorization.is_some());
        }
        other => panic!("{other:?}"),
    }
    let pending = match fcm_put(&signer, "id:tok", vec![], &recent, 0) {
        PutStep::Wait(pending) => pending,
        other => panic!("{other:?}"),
    };
    let mut later = RecentPosts::new();
    later.record("https://fcm.googleapis.com/fcm/send/id:tok", SECOND);
    assert!(matches!(
        fcm_put_after_wait(&mut signer, pending, &later, SECOND, UNIX_NOW),
        PutStep::Suppress
    ));
}

#[test]
fn every_push_carries_the_webpush_headers() {
    assert_eq!(
        push_headers(),
        vec![("ttl", "2592000"), ("urgency", "high"), ("content-encoding", "aes128gcm")]
    );
}
