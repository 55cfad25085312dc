//! The decisions behind each route.
//!
//! A request is handled in steps. Each step is a function from what is known to
//! what is to be done next: refuse, suppress, wait, or forward. The server does
//! it and comes back with the outcome.

use crate::codec::base64url;
use crate::curve::{ecdsa_signature, public_point};
use crate::endpoint::{
    endpoint_verdict, parsed_url, validate_endpoint, verdict_view, Rejection, RejectionView, Url,
};
use crate::fcm::{send_url, token_fits, token_url, usable_token, MAX_PAYLOAD};
use crate::fold::{folded, make_aesgcm_body};
use crate::header::{field_text, field_view, header_field, header_text, HeaderValue};
use crate::recent::{recent_post_within_window, recent_within, RecentPosts, LOOKUP_AGE_NANOS};
use crate::vapid::{
    authorization_expiry, authorization_text, signing_input, VapidSigner, JWT_LIFETIME_SECS,
};
use vstd::prelude::*;
use vstd::utf8::encode_utf8;

verus! {

pub const OK: u16 = 200;

pub const CREATED: u16 = 201;

pub const BAD_REQUEST: u16 = 400;

pub const FORBIDDEN: u16 = 403;

pub const INTERNAL_SERVER_ERROR: u16 = 500;

pub const SERVICE_UNAVAILABLE: u16 = 503;

/// The largest request body that is taken, in bytes.
pub const MAX_BODY: usize = 65536;

/// Why a request is turned down.
#[derive(Debug)]
pub enum Refusal {
    /// It names no endpoint.
    MissingEndpoint,
    /// Its endpoint may not be pushed to.
    Endpoint(Rejection),
    /// Its FCM token cannot be one.
    Token,
    /// There is no key to sign pushes to FCM with.
    Disabled,
    /// The push to FCM could not be signed.
    Unsigned,
}

/// Why a request is turned down, with each text as its characters.
#[verifier::ext_equal]
pub enum RefusalView {
    MissingEndpoint,
    Endpoint(RejectionView),
    Token,
    Disabled,
    Unsigned,
}

impl View for Refusal {
    type V = RefusalView;

    open spec fn view(&self) -> RefusalView {
        match self {
            Refusal::MissingEndpoint => RefusalView::MissingEndpoint,
            Refusal::Endpoint(why) => RefusalView::Endpoint(why@),
            Refusal::Token => RefusalView::Token,
            Refusal::Disabled => RefusalView::Disabled,
            Refusal::Unsigned => RefusalView::Unsigned,
        }
    }
}

/// The status that a refused request is answered with.
pub open spec fn refusal_status(why: RefusalView) -> u16 {
    match why {
        RefusalView::MissingEndpoint => BAD_REQUEST,
        RefusalView::Endpoint(_) => FORBIDDEN,
        RefusalView::Token => FORBIDDEN,
        RefusalView::Disabled => SERVICE_UNAVAILABLE,
        RefusalView::Unsigned => INTERNAL_SERVER_ERROR,
    }
}

impl Refusal {
    /// The status that the request is answered with.
    pub fn status(&self) -> (status: u16)
        ensures
            status == refusal_status(self@),
    {
        match self {
            Refusal::MissingEndpoint => BAD_REQUEST,
            Refusal::Endpoint(_) => FORBIDDEN,
            Refusal::Token => FORBIDDEN,
            Refusal::Disabled => SERVICE_UNAVAILABLE,
            Refusal::Unsigned => INTERNAL_SERVER_ERROR,
        }
    }
}

/// A push to be posted upstream.
#[derive(Debug)]
pub struct Push {
    pub url: Url,
    pub body: Vec<u8>,
    pub authorization: Option<HeaderValue>,
}

/// A push, with each part as what it holds.
#[verifier::ext_equal]
pub struct PushView {
    pub url: Seq<char>,
    pub body: Seq<u8>,
    pub authorization: Option<Seq<u8>>,
}

impl View for Push {
    type V = PushView;

    open spec fn view(&self) -> PushView {
        PushView {
            url: self.url@,
            body: self.body@,
            authorization: field_view(self.authorization),
        }
    }
}

/// A Simple Push that waits for a matching encrypted push.
#[derive(Debug)]
pub struct PendingPut {
    pub endpoint: Url,
    pub body: Vec<u8>,
}

/// What to do next with a Simple Push.
#[derive(Debug)]
pub enum PutStep {
    /// Answer with the status of the refusal.
    Refuse(Refusal),
    /// Answer 200: the event was delivered as an encrypted push.
    Suppress,
    /// Wait for the correlation window, then decide again.
    Wait(PendingPut),
    /// Forward the push as a wake-up.
    Forward(Push),
}

/// What to do next with a Simple Push, with each part as what it holds.
#[verifier::ext_equal]
pub enum PutStepView {
    Refuse(RefusalView),
    Suppress,
    Wait { endpoint: Seq<char>, body: Seq<u8> },
    Forward(PushView),
}

impl View for PutStep {
    type V = PutStepView;

    open spec fn view(&self) -> PutStepView {
        match self {
            PutStep::Refuse(why) => PutStepView::Refuse(why@),
            PutStep::Suppress => PutStepView::Suppress,
            PutStep::Wait(pending) => PutStepView::Wait {
                endpoint: pending.endpoint@,
                body: pending.body@,
            },
            PutStep::Forward(push) => PutStepView::Forward(push@),
        }
    }
}

/// The status that ends a Simple Push at this step, if it ends here.
pub open spec fn put_step_status(step: PutStepView) -> Option<u16> {
    match step {
        PutStepView::Refuse(why) => Some(refusal_status(why)),
        PutStepView::Suppress => Some(OK),
        PutStepView::Wait { .. } => None,
        PutStepView::Forward(_) => None,
    }
}

impl PutStep {
    /// The status that the request is answered with, if it ends at this step.
    pub fn status(&self) -> (status: Option<u16>)
        ensures
            status == put_step_status(self@),
    {
        match self {
            PutStep::Refuse(why) => Some(why.status()),
            PutStep::Suppress => Some(OK),
            PutStep::Wait(_) => None,
            PutStep::Forward(_) => None,
        }
    }
}

/// What to do with an encrypted push.
#[derive(Debug)]
pub enum PostStep {
    /// Answer with the status of the refusal.
    Refuse(Refusal),
    /// Forward the push.
    Forward(Push),
}

/// What to do with an encrypted push, with each part as what it holds.
#[verifier::ext_equal]
pub enum PostStepView {
    Refuse(RefusalView),
    Forward(PushView),
}

impl View for PostStep {
    type V = PostStepView;

    open spec fn view(&self) -> PostStepView {
        match self {
            PostStep::Refuse(why) => PostStepView::Refuse(why@),
            PostStep::Forward(push) => PostStepView::Forward(push@),
        }
    }
}

/// The status that ends an encrypted push at this step, if it ends here.
pub open spec fn post_step_status(step: PostStepView) -> Option<u16> {
    match step {
        PostStepView::Refuse(why) => Some(refusal_status(why)),
        PostStepView::Forward(_) => None,
    }
}

/// What came of a push that was forwarded.
#[derive(Debug)]
pub enum Upstream {
    /// No answer came.
    Failed,
    /// The endpoint answered with a status and perhaps a `Location`.
    Answered { status: u16, location: Option<HeaderValue> },
}

/// What a request is answered with.
#[derive(Debug)]
pub enum Reply {
    /// A status and no body.
    Status(u16),
    /// 201, with this `Location`.
    Created(HeaderValue),
    /// The status of the upstream answer, and its body.
    Relay(u16),
}

/// What a request is answered with, with the `Location` as its bytes.
#[verifier::ext_equal]
pub enum ReplyView {
    Status(u16),
    Created(Seq<u8>),
    Relay(u16),
}

impl View for Reply {
    type V = ReplyView;

    open spec fn view(&self) -> ReplyView {
        match self {
            Reply::Status(status) => ReplyView::Status(*status),
            Reply::Created(location) => ReplyView::Created(location@),
            Reply::Relay(status) => ReplyView::Relay(*status),
        }
    }
}

/// The status of an answer.
pub open spec fn reply_status(reply: ReplyView) -> u16 {
    match reply {
        ReplyView::Status(status) => status,
        ReplyView::Created(_) => CREATED,
        ReplyView::Relay(status) => status,
    }
}

impl Reply {
    /// The status of the answer.
    pub fn status(&self) -> (status: u16)
        ensures
            status == reply_status(self@),
    {
        match self {
            Reply::Status(status) => *status,
            Reply::Created(_) => CREATED,
            Reply::Relay(status) => *status,
        }
    }
}

/// What to do with a Simple Push for an endpoint with the given verdict.
pub open spec fn put_step(
    verdict: Result<Seq<char>, RejectionView>,
    body: Seq<u8>,
    posts: Map<Seq<char>, u64>,
    now: u64,
) -> PutStepView {
    match verdict {
        Err(why) => PutStepView::Refuse(RefusalView::Endpoint(why)),
        Ok(endpoint) => first_put_step(endpoint, body, posts, now),
    }
}

/// What to do with a Simple Push as it arrives.
pub open spec fn first_put_step(
    endpoint: Seq<char>,
    body: Seq<u8>,
    posts: Map<Seq<char>, u64>,
    now: u64,
) -> PutStepView {
    if recent_within(posts, endpoint, now) {
        PutStepView::Suppress
    } else {
        PutStepView::Wait { endpoint, body }
    }
}

/// What to do with a Simple Push after the wait.
pub open spec fn second_put_step(
    endpoint: Seq<char>,
    body: Seq<u8>,
    posts: Map<Seq<char>, u64>,
    now: u64,
) -> PutStepView {
    if recent_within(posts, endpoint, now) {
        PutStepView::Suppress
    } else {
        PutStepView::Forward(PushView { url: endpoint, body, authorization: None })
    }
}

fn arrive(
    endpoint: Url,
    body: Vec<u8>,
    recent: &RecentPosts,
    now: u64,
) -> (step: PutStep)
    ensures
        step@ == first_put_step(endpoint@, body@, recent@, now),
{
    if recent_post_within_window(recent, endpoint.as_str(), now) {
        PutStep::Suppress
    } else {
        PutStep::Wait(PendingPut { endpoint, body })
    }
}

/// Decides on a Simple Push as it arrives, from the verdict on its endpoint.
pub fn decide_put(
    verdict: Result<Url, Rejection>,
    body: Vec<u8>,
    recent: &RecentPosts,
    now: u64,
) -> (step: PutStep)
    ensures
        step@ == put_step(verdict_view(verdict), body@, recent@, now),
{
    match verdict {
        Err(why) => PutStep::Refuse(Refusal::Endpoint(why)),
        Ok(endpoint) => arrive(endpoint, body, recent, now),
    }
}

/// `PUT /<url>`: a Simple Push.
///
/// One arrives for every event. For a regular message a matching encrypted push
/// arrives as well, before it or within the correlation window; it has woken the
/// app already, so the Simple Push is suppressed. For a secret chat only the
/// Simple Push arrives, and is forwarded to wake the app once the window has
/// passed.
pub fn put_proxy(path: &str, body: Vec<u8>, recent: &RecentPosts, now: u64) -> (step: PutStep)
    ensures
        step@ == put_step(endpoint_verdict(parsed_url(path@)), body@, recent@, now),
{
    decide_put(validate_endpoint(path), body, recent, now)
}

/// Decides on a Simple Push after the wait.
pub fn put_after_wait(pending: PendingPut, recent: &RecentPosts, now: u64) -> (step: PutStep)
    ensures
        step@ == second_put_step(pending.endpoint@, pending.body@, recent@, now),
{
    if recent_post_within_window(recent, pending.endpoint.as_str(), now) {
        PutStep::Suppress
    } else {
        PutStep::Forward(
            Push { url: pending.endpoint, body: pending.body, authorization: None },
        )
    }
}

/// What a Simple Push that was forwarded is answered with.
pub open spec fn put_answer(upstream: Upstream) -> ReplyView {
    match upstream {
        Upstream::Failed => ReplyView::Status(INTERNAL_SERVER_ERROR),
        Upstream::Answered { status, .. } => ReplyView::Relay(status),
    }
}

/// Answers a Simple Push that was forwarded: with what came back, or with 500.
pub fn put_reply(upstream: &Upstream) -> (reply: Reply)
    ensures
        reply@ == put_answer(*upstream),
{
    match upstream {
        Upstream::Failed => Reply::Status(INTERNAL_SERVER_ERROR),
        Upstream::Answered { status, .. } => Reply::Relay(*status),
    }
}

/// An encrypted push as it arrives: the two headers that carry its parameters,
/// and its ciphertext.
#[derive(Debug)]
pub struct Encrypted {
    pub encryption: Option<HeaderValue>,
    pub crypto_key: Option<HeaderValue>,
    pub body: Vec<u8>,
}

impl Encrypted {
    /// The body with the headers folded into it.
    pub open spec fn folded_body(&self) -> Seq<u8> {
        folded(
            field_text(field_view(self.encryption)),
            field_text(field_view(self.crypto_key)),
            self.body@,
        )
    }

    /// The body with the headers folded into it. A header that is absent or not
    /// visible ASCII is folded in as the empty text.
    pub fn fold(&self) -> (body: Vec<u8>)
        ensures
            body@ == self.folded_body(),
    {
        let encryption = header_field(&self.encryption);
        let crypto_key = header_field(&self.crypto_key);
        make_aesgcm_body(encryption.as_str(), crypto_key.as_str(), self.body.as_slice())
    }
}

/// What to do with an encrypted push for the endpoint parameter `e`, which has
/// the given verdict.
pub open spec fn post_step(
    e: Seq<char>,
    verdict: Result<Seq<char>, RejectionView>,
    body: Seq<u8>,
) -> PostStepView {
    if e.len() == 0 {
        PostStepView::Refuse(RefusalView::MissingEndpoint)
    } else {
        match verdict {
            Err(why) => PostStepView::Refuse(RefusalView::Endpoint(why)),
            Ok(endpoint) => PostStepView::Forward(
                PushView { url: endpoint, body, authorization: None },
            ),
        }
    }
}

/// Decides on an encrypted push from the verdict on its endpoint.
pub fn decide_post(
    e: &str,
    verdict: Result<Url, Rejection>,
    request: &Encrypted,
) -> (step: PostStep)
    ensures
        step@ == post_step(e@, verdict_view(verdict), request.folded_body()),
{
    if e.is_empty() {
        return PostStep::Refuse(Refusal::MissingEndpoint);
    }
    match verdict {
        Err(why) => PostStep::Refuse(Refusal::Endpoint(why)),
        Ok(url) => PostStep::Forward(Push { url, body: request.fold(), authorization: None }),
    }
}

/// `POST /aesgcm?e=<endpoint>`: an encrypted push.
///
/// The `Encryption` and `Crypto-Key` headers are folded into the body before it
/// goes to the endpoint, since UnifiedPush distributors strip HTTP headers and a
/// device could not decrypt the push without them.
pub fn aesgcm(e: &str, request: &Encrypted) -> (step: PostStep)
    ensures
        step@ == post_step(e@, endpoint_verdict(parsed_url(e@)), request.folded_body()),
{
    if e.is_empty() {
        return PostStep::Refuse(Refusal::MissingEndpoint);
    }
    decide_post(e, validate_endpoint(e), request)
}

/// Whether a status says that a push was taken.
pub open spec fn success(status: u16) -> bool {
    200 <= status < 300
}

/// Whether a forwarded push was taken.
pub open spec fn delivered(upstream: Upstream) -> bool {
    upstream matches Upstream::Answered { status, .. } && success(status)
}

/// The `Location` of a delivered push: that of the upstream answer, else the
/// endpoint, else nothing.
pub open spec fn location(upstream: Option<Seq<u8>>, endpoint: Seq<char>) -> Seq<u8> {
    match upstream {
        Some(value) => value,
        None => if header_text(endpoint) {
            encode_utf8(endpoint)
        } else {
            Seq::empty()
        },
    }
}

/// What an encrypted push that was forwarded is answered with. Any success is
/// answered 201, as WebPush asks, so that the sender does not back off.
pub open spec fn post_answer(endpoint: Seq<char>, upstream: Upstream) -> ReplyView {
    match upstream {
        Upstream::Failed => ReplyView::Status(INTERNAL_SERVER_ERROR),
        Upstream::Answered { status, location: value } => if success(status) {
            ReplyView::Created(location(field_view(value), endpoint))
        } else {
            ReplyView::Relay(status)
        },
    }
}

/// What is on record once an encrypted push was forwarded.
pub open spec fn posts_after(
    posts: Map<Seq<char>, u64>,
    endpoint: Seq<char>,
    upstream: Upstream,
    now: u64,
) -> Map<Seq<char>, u64> {
    if delivered(upstream) {
        posts.insert(endpoint, now)
    } else {
        posts
    }
}

/// Answers an encrypted push that was forwarded to `endpoint`, and records it
/// where it was delivered, so that its Simple Push is suppressed.
pub fn aesgcm_reply(
    endpoint: &Url,
    upstream: Upstream,
    recent: &mut RecentPosts,
    now: u64,
) -> (reply: Reply)
    ensures
        final(recent)@ == posts_after(old(recent)@, endpoint@, upstream, now),
        reply@ == post_answer(endpoint@, upstream),
{
    match upstream {
        Upstream::Failed => Reply::Status(INTERNAL_SERVER_ERROR),
        Upstream::Answered { status, location } => {
            if !(200 <= status && status < 300) {
                return Reply::Relay(status);
            }
            recent.record(endpoint.as_str(), now);
            let value = match location {
                Some(value) => value,
                None => match HeaderValue::from_str(endpoint.as_str()) {
                    Some(value) => value,
                    None => HeaderValue { bytes: Vec::new() },
                },
            };
            Reply::Created(value)
        },
    }
}

/// What is sent to FCM for `body`: the body itself, or nothing where it is
/// longer than FCM takes.
pub open spec fn fcm_payload(body: Seq<u8>) -> Seq<u8> {
    if body.len() > MAX_PAYLOAD {
        Seq::empty()
    } else {
        body
    }
}

/// Replaces a body that is longer than FCM takes by an empty one, so that the app
/// still wakes and fetches the message rather than losing the notification.
pub fn cap_payload(body: Vec<u8>) -> (payload: Vec<u8>)
    ensures
        payload@ == fcm_payload(body@),
{
    if body.len() > MAX_PAYLOAD {
        Vec::new()
    } else {
        body
    }
}

/// The push of `body` to the FCM `url` with the given authorization, if there is
/// one.
pub open spec fn fcm_push(
    url: Seq<char>,
    body: Seq<u8>,
    authorization: Option<Seq<u8>>,
) -> Result<PushView, RefusalView> {
    match authorization {
        Some(value) => Ok(PushView { url, body, authorization: Some(value) }),
        None => Err(RefusalView::Unsigned),
    }
}

/// The authorization of a push to FCM at `now`, for the secret `scalar` and a JWT
/// at hand that expires at `expires`.
pub open spec fn fcm_authorization(scalar: Seq<u8>, expires: nat, now: u64) -> Option<Seq<u8>> {
    match authorization_text(scalar, authorization_expiry(expires, now as nat)) {
        Some(text) => Some(encode_utf8(text)),
        None => None,
    }
}

/// Makes a push to FCM from its parts, or refuses it where it is not signed.
pub fn assemble_fcm_push(
    url: Url,
    body: Vec<u8>,
    authorization: Option<HeaderValue>,
) -> (push: Result<Push, Refusal>)
    ensures
        match push {
            Ok(p) => fcm_push(url@, body@, field_view(authorization)) == Ok::<
                PushView,
                RefusalView,
            >(p@),
            Err(why) => fcm_push(url@, body@, field_view(authorization)) == Err::<
                PushView,
                RefusalView,
            >(why@),
        },
{
    match authorization {
        Some(value) => Ok(Push { url, body, authorization: Some(value) }),
        None => Err(Refusal::Unsigned),
    }
}

/// How a signer stands after it was asked for the authorization of a push at
/// `now`: with the same key, and with the JWT that the push carries.
pub open spec fn signer_after(before: VapidSigner, after: VapidSigner, now: u64) -> bool {
    let expires = authorization_expiry(before.expires(), now as nat);
    &&& after.secret() == before.secret()
    &&& match fcm_authorization(before.secret(), before.expires(), now) {
        Some(value) => after.expires() == expires && after.cached() == value,
        None => after == before,
    }
}

/// Signs a push of `body` to `url`.
fn signed_push(
    signer: &mut VapidSigner,
    url: Url,
    body: Vec<u8>,
    now: u64,
) -> (push: Result<Push, Refusal>)
    requires
        now + JWT_LIFETIME_SECS <= u64::MAX,
    ensures
        signer_after(*old(signer), *final(signer), now),
        ({
            let due = fcm_push(
                url@,
                body@,
                fcm_authorization(old(signer).secret(), old(signer).expires(), now),
            );
            match push {
                Ok(p) => due == Ok::<PushView, RefusalView>(p@),
                Err(why) => due == Err::<PushView, RefusalView>(why@),
            }
        }),
{
    let authorization = signer.authorization(now);
    assemble_fcm_push(url, body, authorization)
}

/// What to do with an encrypted push to the FCM `token`, for the key and the JWT
/// at hand that are given, if there is a key.
pub open spec fn fcm_post_step(
    signer: Option<(Seq<u8>, nat)>,
    token: Seq<char>,
    body: Seq<u8>,
    now: u64,
) -> PostStepView {
    match signer {
        None => PostStepView::Refuse(RefusalView::Disabled),
        Some((scalar, expires)) => if !usable_token(token) {
            PostStepView::Refuse(RefusalView::Token)
        } else {
            match fcm_push(
                token_url(token),
                fcm_payload(body),
                fcm_authorization(scalar, expires, now),
            ) {
                Ok(push) => PostStepView::Forward(push),
                Err(why) => PostStepView::Refuse(why),
            }
        },
    }
}

/// The key of a signer and the expiry of its JWT, if there is a signer.
pub open spec fn signer_state(signer: Option<VapidSigner>) -> Option<(Seq<u8>, nat)> {
    match signer {
        Some(s) => Some((s.secret(), s.expires())),
        None => None,
    }
}

/// `POST /fcm/<token>`: an encrypted push to FCM, folded like any other and
/// signed here. `now` is in seconds since the Unix epoch. Without a key the
/// route is disabled.
pub fn fcm_post(
    signer: &mut Option<VapidSigner>,
    token: &str,
    request: &Encrypted,
    now: u64,
) -> (step: PostStep)
    requires
        token_fits(token@),
        now + JWT_LIFETIME_SECS <= u64::MAX,
    ensures
        step@ == fcm_post_step(signer_state(*old(signer)), token@, request.folded_body(), now),
        match *old(signer) {
            Some(before) if usable_token(token@) => *final(signer) matches Some(after)
                && signer_after(before, after, now),
            _ => *final(signer) == *old(signer),
        },
{
    match signer {
        None => PostStep::Refuse(Refusal::Disabled),
        Some(s) => {
            let url = match send_url(token) {
                Some(url) => url,
                None => return PostStep::Refuse(Refusal::Token),
            };
            match signed_push(s, url, cap_payload(request.fold()), now) {
                Ok(push) => PostStep::Forward(push),
                Err(why) => PostStep::Refuse(why),
            }
        },
    }
}

/// What to do with a Simple Push to the FCM `token` as it arrives, where there is
/// a key to sign with or not.
pub open spec fn fcm_put_step(
    enabled: bool,
    token: Seq<char>,
    body: Seq<u8>,
    posts: Map<Seq<char>, u64>,
    now: u64,
) -> PutStepView {
    if !enabled {
        PutStepView::Refuse(RefusalView::Disabled)
    } else if !usable_token(token) {
        PutStepView::Refuse(RefusalView::Token)
    } else {
        first_put_step(token_url(token), body, posts, now)
    }
}

/// `PUT /fcm/<token>`: a Simple Push to FCM, which waits for a matching encrypted
/// push like any other. `now` is the time of the correlation cache.
pub fn fcm_put(
    signer: &Option<VapidSigner>,
    token: &str,
    body: Vec<u8>,
    recent: &RecentPosts,
    now: u64,
) -> (step: PutStep)
    requires
        token_fits(token@),
    ensures
        step@ == fcm_put_step(*signer is Some, token@, body@, recent@, now),
{
    if signer.is_none() {
        return PutStep::Refuse(Refusal::Disabled);
    }
    match send_url(token) {
        None => PutStep::Refuse(Refusal::Token),
        Some(url) => arrive(url, body, recent, now),
    }
}

/// What to do with a Simple Push to FCM after the wait.
pub open spec fn fcm_second_put_step(
    signer: Option<(Seq<u8>, nat)>,
    endpoint: Seq<char>,
    body: Seq<u8>,
    posts: Map<Seq<char>, u64>,
    now: u64,
    unix_now: u64,
) -> PutStepView {
    if recent_within(posts, endpoint, now) {
        PutStepView::Suppress
    } else {
        match signer {
            None => PutStepView::Refuse(RefusalView::Disabled),
            Some((scalar, expires)) => match fcm_push(
                endpoint,
                body,
                fcm_authorization(scalar, expires, unix_now),
            ) {
                Ok(push) => PutStepView::Forward(push),
                Err(why) => PutStepView::Refuse(why),
            },
        }
    }
}

/// Decides on a Simple Push to FCM after the wait. `now` is the time of the
/// correlation cache, `unix_now` that of the authorization, in seconds since the
/// Unix epoch.
pub fn fcm_put_after_wait(
    signer: &mut Option<VapidSigner>,
    pending: PendingPut,
    recent: &RecentPosts,
    now: u64,
    unix_now: u64,
) -> (step: PutStep)
    requires
        unix_now + JWT_LIFETIME_SECS <= u64::MAX,
    ensures
        step@ == fcm_second_put_step(
            signer_state(*old(signer)),
            pending.endpoint@,
            pending.body@,
            recent@,
            now,
            unix_now,
        ),
        match *old(signer) {
            Some(before) if !recent_within(recent@, pending.endpoint@, now) => {
                *final(signer) matches Some(after) && signer_after(before, after, unix_now)
            },
            _ => *final(signer) == *old(signer),
        },
{
    if recent_post_within_window(recent, pending.endpoint.as_str(), now) {
        return PutStep::Suppress;
    }
    match signer {
        None => PutStep::Refuse(Refusal::Disabled),
        Some(s) => match signed_push(s, pending.endpoint, pending.body, unix_now) {
            Ok(push) => PutStep::Forward(push),
            Err(why) => PutStep::Refuse(why),
        },
    }
}

/// The headers that every push carries upstream.
pub open spec fn push_header_pairs() -> Seq<(Seq<char>, Seq<char>)> {
    seq![
        ("ttl"@, "2592000"@),
        ("urgency"@, "high"@),
        ("content-encoding"@, "aes128gcm"@),
    ]
}

/// The headers that every push carries upstream, as names and values.
pub fn push_headers() -> (headers: Vec<(&'static str, &'static str)>)
    ensures
        headers@.len() == push_header_pairs().len(),
        forall|i: int|
            0 <= i < headers@.len() ==> (#[trigger] headers@[i].0@, headers@[i].1@)
                == push_header_pairs()[i],
{
    vec![("ttl", "2592000"), ("urgency", "high"), ("content-encoding", "aes128gcm")]
}

/// An event is not delivered twice: once an encrypted push has reached an
/// endpoint, a Simple Push for it is suppressed, on arrival and after the wait,
/// for as long as the lookup age.
pub proof fn law_delivered_event_is_not_repeated(
    posts: Map<Seq<char>, u64>,
    endpoint: Seq<char>,
    upstream: Upstream,
    then: u64,
    body: Seq<u8>,
    now: u64,
)
    requires
        delivered(upstream),
        now < then + LOOKUP_AGE_NANOS,
    ensures
        put_step(Ok(endpoint), body, posts_after(posts, endpoint, upstream, then), now)
            == PutStepView::Suppress,
        second_put_step(endpoint, body, posts_after(posts, endpoint, upstream, then), now)
            == PutStepView::Suppress,
{
}

/// The same holds of FCM: the two legs of a token meet at one endpoint.
pub proof fn law_delivered_fcm_event_is_not_repeated(
    posts: Map<Seq<char>, u64>,
    signer: Option<(Seq<u8>, nat)>,
    token: Seq<char>,
    sent: Seq<u8>,
    upstream: Upstream,
    then: u64,
    body: Seq<u8>,
    now: u64,
    unix_now: u64,
)
    requires
        fcm_post_step(signer, token, sent, unix_now) is Forward,
        delivered(upstream),
        now < then + LOOKUP_AGE_NANOS,
    ensures
        ({
            let endpoint = fcm_post_step(signer, token, sent, unix_now)->Forward_0.url;
            let after = posts_after(posts, endpoint, upstream, then);
            &&& fcm_put_step(true, token, body, after, now) == PutStepView::Suppress
            &&& fcm_second_put_step(signer, endpoint, body, after, now, unix_now)
                == PutStepView::Suppress
        }),
{
}

/// A Simple Push without a matching encrypted push is not lost: it waits, and is
/// then forwarded to its endpoint with its body as it came.
pub proof fn law_unmatched_put_is_forwarded(
    endpoint: Seq<char>,
    body: Seq<u8>,
    before: Map<Seq<char>, u64>,
    arrival: u64,
    after: Map<Seq<char>, u64>,
    now: u64,
)
    requires
        !recent_within(before, endpoint, arrival),
        !recent_within(after, endpoint, now),
    ensures
        put_step(Ok(endpoint), body, before, arrival) == (PutStepView::Wait { endpoint, body }),
        second_put_step(endpoint, body, after, now) == PutStepView::Forward(
            PushView { url: endpoint, body, authorization: None },
        ),
{
}

/// The same holds of FCM, where the push is signed when it is forwarded, unless
/// the key has no signature for it.
pub proof fn law_unmatched_fcm_put_is_forwarded(
    scalar: Seq<u8>,
    expires: nat,
    token: Seq<char>,
    body: Seq<u8>,
    before: Map<Seq<char>, u64>,
    arrival: u64,
    after: Map<Seq<char>, u64>,
    now: u64,
    unix_now: u64,
)
    requires
        usable_token(token),
        !recent_within(before, token_url(token), arrival),
        !recent_within(after, token_url(token), now),
    ensures
        fcm_put_step(true, token, body, before, arrival) == (PutStepView::Wait {
            endpoint: token_url(token),
            body,
        }),
        fcm_second_put_step(Some((scalar, expires)), token_url(token), body, after, now, unix_now)
            == match fcm_authorization(scalar, expires, unix_now) {
            Some(value) => PutStepView::Forward(
                PushView { url: token_url(token), body, authorization: Some(value) },
            ),
            None => PutStepView::Refuse(RefusalView::Unsigned),
        },
{
}

/// An encrypted push that was not delivered is not held against its Simple Push:
/// it leaves the record as it was.
pub proof fn law_undelivered_push_leaves_no_trace(
    posts: Map<Seq<char>, u64>,
    endpoint: Seq<char>,
    upstream: Upstream,
    now: u64,
)
    requires
        !delivered(upstream),
    ensures
        posts_after(posts, endpoint, upstream, now) == posts,
        post_answer(endpoint, upstream) !is Created,
{
}

/// A Simple Push waits once: what is decided after the wait is final.
pub proof fn law_put_waits_once(
    signer: Option<(Seq<u8>, nat)>,
    endpoint: Seq<char>,
    body: Seq<u8>,
    posts: Map<Seq<char>, u64>,
    now: u64,
    unix_now: u64,
)
    ensures
        second_put_step(endpoint, body, posts, now) !is Wait,
        fcm_second_put_step(signer, endpoint, body, posts, now, unix_now) !is Wait,
{
}

/// A request for an endpoint that may not be pushed to is answered 403 and goes
/// nowhere, and so is one for what cannot be an FCM token. One that names no
/// endpoint is answered 400.
pub proof fn law_refused_requests_are_answered(
    e: Seq<char>,
    sent: Seq<u8>,
    posts: Map<Seq<char>, u64>,
    scalar: Seq<u8>,
    expires: nat,
    now: u64,
)
    ensures
        endpoint_verdict(parsed_url(e)) is Err ==> put_step_status(
            put_step(endpoint_verdict(parsed_url(e)), sent, posts, now),
        ) == Some(403u16),
        endpoint_verdict(parsed_url(e)) is Err && e.len() > 0 ==> post_step_status(
            post_step(e, endpoint_verdict(parsed_url(e)), sent),
        ) == Some(403u16),
        e.len() == 0 ==> post_step_status(post_step(e, endpoint_verdict(parsed_url(e)), sent))
            == Some(400u16),
        !usable_token(e) ==> put_step_status(fcm_put_step(true, e, sent, posts, now)) == Some(
            403u16,
        ),
        !usable_token(e) ==> post_step_status(
            fcm_post_step(Some((scalar, expires)), e, sent, now),
        ) == Some(403u16),
{
}

/// A delivered push is answered 201, whatever success came back; any other answer
/// is passed on, and where none came the status is 500.
pub proof fn law_answers_to_an_encrypted_push(endpoint: Seq<char>, upstream: Upstream)
    ensures
        reply_status(post_answer(endpoint, upstream)) == match upstream {
            Upstream::Failed => 500u16,
            Upstream::Answered { status, .. } => if 200 <= status < 300 {
                201u16
            } else {
                status
            },
        },
        post_answer(endpoint, upstream) is Created <==> delivered(upstream),
{
}

/// Nothing is forwarded but to an endpoint that was accepted, and no push to such
/// an endpoint carries the authorization for FCM.
pub proof fn law_only_accepted_endpoints_are_pushed_to(
    e: Seq<char>,
    sent: Seq<u8>,
    posts: Map<Seq<char>, u64>,
    now: u64,
)
    ensures
        post_step(e, endpoint_verdict(parsed_url(e)), sent) matches PostStepView::Forward(push)
            ==> endpoint_verdict(parsed_url(e)) == Ok::<Seq<char>, RejectionView>(push.url)
            && push.authorization is None,
        put_step(endpoint_verdict(parsed_url(e)), sent, posts, now) matches PutStepView::Wait {
            endpoint,
            ..
        } ==> endpoint_verdict(parsed_url(e)) == Ok::<Seq<char>, RejectionView>(endpoint),
        put_step(endpoint_verdict(parsed_url(e)), sent, posts, now) !is Forward,
{
}

/// What goes to FCM for an encrypted push is signed, leads to its token, and is
/// never longer than FCM takes: a body that fits is sent as it is, and any other
/// is replaced by an empty one.
pub proof fn law_fcm_push_fits(
    signer: Option<(Seq<u8>, nat)>,
    token: Seq<char>,
    body: Seq<u8>,
    now: u64,
)
    ensures
        fcm_post_step(signer, token, body, now) matches PostStepView::Forward(push) ==> {
            &&& push.url == token_url(token)
            &&& push.body.len() <= MAX_PAYLOAD
            &&& push.body == body || (body.len() > MAX_PAYLOAD && push.body.len() == 0)
            &&& push.authorization is Some
        },
{
}

/// Without a key both legs of the FCM route answer 503, whatever the request.
pub proof fn law_fcm_is_disabled_without_a_key(
    token: Seq<char>,
    body: Seq<u8>,
    posts: Map<Seq<char>, u64>,
    now: u64,
)
    ensures
        fcm_post_step(None, token, body, now) == PostStepView::Refuse(RefusalView::Disabled),
        fcm_put_step(false, token, body, posts, now) == PutStepView::Refuse(RefusalView::Disabled),
        refusal_status(RefusalView::Disabled) == 503,
{
}

/// Whether `bytes` holds tabs and visible ASCII alone.
pub open spec fn readable(bytes: Seq<u8>) -> bool {
    forall|i: int| 0 <= i < bytes.len() ==> #[trigger] bytes[i] == 9 || 32 <= bytes[i] <= 126
}

/// A push with readable headers is folded byte for byte: `aesgcm`, the two headers
/// as they came and the ciphertext as it came.
pub proof fn law_readable_headers_are_folded_as_they_are(
    request: Encrypted,
    encryption: HeaderValue,
    crypto_key: HeaderValue,
)
    requires
        request.encryption == Some(encryption),
        request.crypto_key == Some(crypto_key),
        readable(encryption.bytes@),
        readable(crypto_key.bytes@),
    ensures
        request.folded_body() == seq![
            97u8, 101, 115, 103, 99, 109, 10, 69, 110, 99, 114, 121, 112, 116, 105, 111, 110, 58, 32,
        ] + encryption.bytes@ + seq![10u8] + seq![
            67u8, 114, 121, 112, 116, 111, 45, 75, 101, 121, 58, 32,
        ] + crypto_key.bytes@ + seq![10u8] + request.body@,
{
    lemma_readable_bytes_are_kept(encryption.bytes@);
    lemma_readable_bytes_are_kept(crypto_key.bytes@);
    crate::fold::law_folded_body_layout(
        field_text(Some(encryption.bytes@)),
        field_text(Some(crypto_key.bytes@)),
        request.body@,
    );
}

proof fn lemma_readable_bytes_are_kept(bytes: Seq<u8>)
    requires
        readable(bytes),
    ensures
        encode_utf8(field_text(Some(bytes))) == bytes,
{
    let text = field_text(Some(bytes));
    crate::header::law_readable_header_is_kept(bytes);
    assert forall|i: int| 0 <= i < text.len() implies (text[i] as int) < 128 by {
        assert(text[i] as int == bytes[i] as int);
    }
    assert(vstd::utf8::is_ascii_chars(text));
    vstd::utf8::is_ascii_chars_encode_utf8(text);
    assert forall|i: int| 0 <= i < bytes.len() implies encode_utf8(text)[i] == bytes[i] by {
        assert(text[i] as int == bytes[i] as int);
        assert(text[i] as u8 == encode_utf8(text)[i]);
    }
    assert(encode_utf8(text) =~= bytes);
}

/// Two pushes with readable headers that are folded to the same body came with the
/// same headers and the same ciphertext: the device can tell them apart.
pub proof fn law_folded_pushes_are_told_apart(
    a: Encrypted,
    b: Encrypted,
    a_encryption: HeaderValue,
    a_crypto_key: HeaderValue,
    b_encryption: HeaderValue,
    b_crypto_key: HeaderValue,
)
    requires
        a.encryption == Some(a_encryption),
        a.crypto_key == Some(a_crypto_key),
        b.encryption == Some(b_encryption),
        b.crypto_key == Some(b_crypto_key),
        readable(a_encryption.bytes@),
        readable(a_crypto_key.bytes@),
        readable(b_encryption.bytes@),
        readable(b_crypto_key.bytes@),
        a.folded_body() == b.folded_body(),
    ensures
        a_encryption.bytes@ == b_encryption.bytes@,
        a_crypto_key.bytes@ == b_crypto_key.bytes@,
        a.body@ == b.body@,
{
    let ae = field_text(field_view(a.encryption));
    let ak = field_text(field_view(a.crypto_key));
    let be = field_text(field_view(b.encryption));
    let bk = field_text(field_view(b.crypto_key));
    crate::fold::law_header_fields_hold_no_newline(field_view(a.encryption));
    crate::fold::law_header_fields_hold_no_newline(field_view(a.crypto_key));
    crate::fold::law_header_fields_hold_no_newline(field_view(b.encryption));
    crate::fold::law_header_fields_hold_no_newline(field_view(b.crypto_key));
    crate::fold::law_folded_body_is_recoverable(ae, ak, a.body@, be, bk, b.body@);
    crate::header::law_headers_are_told_apart(a_encryption.bytes@, b_encryption.bytes@);
    crate::header::law_headers_are_told_apart(a_crypto_key.bytes@, b_crypto_key.bytes@);
}

/// A push that lacks a header, or has one that cannot be read, is folded like one
/// in which that header is empty; nothing else of it is lost.
pub proof fn law_missing_headers_are_folded_as_empty(a: Encrypted, b: Encrypted)
    requires
        a.body@ == b.body@,
        a.encryption == b.encryption || ({
            &&& a.encryption is None || !readable(a.encryption->0.bytes@)
            &&& b.encryption is Some && b.encryption->0.bytes@.len() == 0
        }),
        a.crypto_key == b.crypto_key || ({
            &&& a.crypto_key is None || !readable(a.crypto_key->0.bytes@)
            &&& b.crypto_key is Some && b.crypto_key->0.bytes@.len() == 0
        }),
    ensures
        a.folded_body() == b.folded_body(),
{
    lemma_missing_header_is_empty(a.encryption, b.encryption);
    lemma_missing_header_is_empty(a.crypto_key, b.crypto_key);
}

proof fn lemma_missing_header_is_empty(a: Option<HeaderValue>, b: Option<HeaderValue>)
    requires
        a == b || ({
            &&& a is None || !readable(a->0.bytes@)
            &&& b is Some && b->0.bytes@.len() == 0
        }),
    ensures
        field_text(field_view(a)) == field_text(field_view(b)),
{
    if a != b {
        crate::header::law_readable_header_is_kept(b->0.bytes@);
        if a is Some {
            let bytes = a->0.bytes@;
            let i = choose|i: int|
                0 <= i < bytes.len() && #[trigger] bytes[i] != 9 && !(32 <= bytes[i] <= 126);
            assert(0 <= i < bytes.len() && bytes[i] != 9 && !(32 <= bytes[i] <= 126));
            crate::header::law_unreadable_header_is_empty(bytes, i);
        }
        assert(field_text(field_view(a)) =~= field_text(field_view(b)));
    }
}

/// Every encrypted push that names an accepted endpoint is forwarded there, with
/// the folded body as it is and nothing to authorize it.
pub proof fn law_accepted_posts_are_forwarded(e: Seq<char>, endpoint: Seq<char>, body: Seq<u8>)
    requires
        e.len() > 0,
    ensures
        ({
            let step = post_step(e, Ok(endpoint), body);
            &&& step is Forward
            &&& step->Forward_0.url == endpoint
            &&& step->Forward_0.body == body
            &&& step->Forward_0.authorization is None
        }),
{
}

/// What a refused encrypted push is told: that it names no endpoint where it names
/// none, else what is wrong with the endpoint.
pub proof fn law_posts_are_refused_for_a_reason(
    e: Seq<char>,
    verdict: Result<Seq<char>, RejectionView>,
    body: Seq<u8>,
)
    ensures
        post_step(e, verdict, body) matches PostStepView::Refuse(why) ==> match why {
            RefusalView::MissingEndpoint => e.len() == 0,
            RefusalView::Endpoint(rejection) => e.len() > 0 && verdict == Err::<
                Seq<char>,
                RejectionView,
            >(rejection),
            _ => false,
        },
        post_step(e, verdict, body) is Refuse <==> e.len() == 0 || verdict is Err,
{
}

/// Each refusal has its status, and so has each step that ends a request: 400
/// without an endpoint, 403 for an endpoint or a token that is turned down, 503
/// without a key, 500 without a signature, and 200 where a Simple Push is
/// suppressed. A step that leads on has none.
pub proof fn law_statuses(
    rejection: RejectionView,
    why: RefusalView,
    push: PushView,
    endpoint: Seq<char>,
    body: Seq<u8>,
    status: u16,
    location: Seq<u8>,
)
    ensures
        refusal_status(RefusalView::MissingEndpoint) == 400,
        refusal_status(RefusalView::Endpoint(rejection)) == 403,
        refusal_status(RefusalView::Token) == 403,
        refusal_status(RefusalView::Disabled) == 503,
        refusal_status(RefusalView::Unsigned) == 500,
        post_step_status(PostStepView::Refuse(why)) == Some(refusal_status(why)),
        post_step_status(PostStepView::Forward(push)) is None,
        put_step_status(PutStepView::Refuse(why)) == Some(refusal_status(why)),
        put_step_status(PutStepView::Suppress) == Some(200u16),
        put_step_status(PutStepView::Wait { endpoint, body }) is None,
        put_step_status(PutStepView::Forward(push)) is None,
        reply_status(ReplyView::Status(status)) == status,
        reply_status(ReplyView::Relay(status)) == status,
        reply_status(ReplyView::Created(location)) == 201,
{
}

/// Whether a Simple Push is suppressed depends on one thing alone, on arrival and
/// after the wait: whether an encrypted push for the same endpoint is on record
/// that is less than two seconds old. Where none is, it waits, and then goes out to
/// its endpoint with its body as it came.
pub proof fn law_simple_pushes_wait_then_go_out(
    endpoint: Seq<char>,
    body: Seq<u8>,
    posts: Map<Seq<char>, u64>,
    now: u64,
)
    ensures
        ({
            let matched = posts.contains_key(endpoint) && now < posts[endpoint] + 2_000_000_000;
            let first = put_step(Ok(endpoint), body, posts, now);
            let second = second_put_step(endpoint, body, posts, now);
            &&& matched ==> first is Suppress && second is Suppress
            &&& !matched ==> {
                &&& first is Wait
                &&& first->endpoint == endpoint
                &&& first->body == body
                &&& second is Forward
                &&& second->Forward_0.url == endpoint
                &&& second->Forward_0.body == body
                &&& second->Forward_0.authorization is None
            }
        }),
{
    crate::recent::law_recent_means_less_than_two_seconds_ago(posts, endpoint, now);
}

/// A Simple Push for an endpoint that is turned down is refused with what is wrong
/// with the endpoint, whatever is on record.
pub proof fn law_simple_pushes_to_refused_endpoints_are_refused(
    rejection: RejectionView,
    body: Seq<u8>,
    posts: Map<Seq<char>, u64>,
    now: u64,
)
    ensures
        put_step(Err(rejection), body, posts, now) == PutStepView::Refuse(
            RefusalView::Endpoint(rejection),
        ),
{
}

/// Whatever status the endpoint answers a forwarded Simple Push with, a success
/// among them, that very status is relayed with the body that came with it. Only
/// where no answer came the status is 500, without a body.
pub proof fn law_answers_to_a_simple_push_are_relayed(status: u16, location: Option<HeaderValue>)
    ensures
        ({
            let reply = put_answer(Upstream::Answered { status, location });
            reply is Relay && reply_status(reply) == status
        }),
        put_answer(Upstream::Failed) is Status,
        reply_status(put_answer(Upstream::Failed)) == 500,
{
}

/// Where a delivered push was answered with a `Location`, whatever its bytes, the
/// sender gets those bytes.
pub proof fn law_upstream_location_is_handed_on(
    endpoint: Seq<char>,
    status: u16,
    location: HeaderValue,
)
    requires
        200 <= status <= 299,
    ensures
        ({
            let reply = post_answer(
                endpoint,
                Upstream::Answered { status, location: Some(location) },
            );
            reply is Created && reply->Created_0 == location.bytes@
        }),
{
}

/// Where a delivered push was answered without a `Location`, the endpoint stands in
/// for it, or the empty value where a header cannot hold the endpoint.
pub proof fn law_endpoint_stands_in_for_a_location(endpoint: Seq<char>, status: u16)
    requires
        200 <= status <= 299,
    ensures
        ({
            let reply = post_answer(endpoint, Upstream::Answered { status, location: None });
            let fits = forall|i: int|
                0 <= i < endpoint.len() ==> #[trigger] endpoint[i] as int == 9 || (
                endpoint[i] as int >= 32 && endpoint[i] as int != 127);
            &&& reply is Created
            &&& fits ==> reply->Created_0 == encode_utf8(endpoint)
            &&& !fits ==> reply->Created_0.len() == 0
        }),
{
    crate::header::law_control_characters_make_no_header(endpoint);
}

/// An encrypted push that the endpoint turned down is answered with the endpoint's
/// own status and body, and one that got no answer with 500.
pub proof fn law_upstream_refusals_are_relayed(
    endpoint: Seq<char>,
    status: u16,
    location: Option<HeaderValue>,
)
    requires
        status < 200 || status > 299,
    ensures
        post_answer(endpoint, Upstream::Answered { status, location }) == ReplyView::Relay(status),
        post_answer(endpoint, Upstream::Failed) == ReplyView::Status(500),
{
}

/// A push is recorded exactly where it was answered with a success: under its
/// endpoint and with the time of the answer, next to what was on record for other
/// endpoints.
pub proof fn law_deliveries_are_recorded(
    posts: Map<Seq<char>, u64>,
    endpoint: Seq<char>,
    other: Seq<char>,
    status: u16,
    location: Option<HeaderValue>,
    now: u64,
)
    ensures
        ({
            let after = posts_after(
                posts,
                endpoint,
                Upstream::Answered { status, location },
                now,
            );
            &&& 200 <= status <= 299 ==> after.contains_key(endpoint) && after[endpoint] == now
            &&& other != endpoint || !(200 <= status <= 299) ==> {
                &&& after.contains_key(other) <==> posts.contains_key(other)
                &&& posts.contains_key(other) ==> after[other] == posts[other]
            }
        }),
        posts_after(posts, endpoint, Upstream::Failed, now) == posts,
{
}

/// A body of up to 4096 bytes goes to FCM as it is, and a longer one is replaced by
/// an empty one.
pub proof fn law_fcm_takes_4096_bytes(body: Seq<u8>)
    ensures
        body.len() <= 4096 ==> fcm_payload(body) == body,
        body.len() > 4096 ==> fcm_payload(body).len() == 0,
{
}

/// An encrypted push to FCM is forwarded for every usable token, however long, and
/// every key that has a signature for the JWT that is due: to the send URL of the
/// token, with the body where it has no more than 4096 bytes and an empty one
/// otherwise, and with an authorization made of that JWT and the public key.
pub proof fn law_fcm_posts_are_forwarded(
    scalar: Seq<u8>,
    expires: nat,
    token: Seq<char>,
    body: Seq<u8>,
    now: u64,
    signature: Seq<u8>,
)
    requires
        usable_token(token),
        ({
            let exp = if expires <= now + 3600 {
                (now + 43200) as nat
            } else {
                expires
            };
            ecdsa_signature(scalar, encode_utf8(signing_input(exp))) == Some(signature)
        }),
    ensures
        ({
            let exp = if expires <= now + 3600 {
                (now + 43200) as nat
            } else {
                expires
            };
            let step = fcm_post_step(Some((scalar, expires)), token, body, now);
            &&& step is Forward
            &&& step->Forward_0.url == token_url(token)
            &&& body.len() <= 4096 ==> step->Forward_0.body == body
            &&& body.len() > 4096 ==> step->Forward_0.body.len() == 0
            &&& step->Forward_0.authorization == Some(
                encode_utf8(
                    "vapid t="@ + signing_input(exp) + "."@ + base64url(signature) + ",k="@
                        + base64url(public_point(scalar)),
                ),
            )
        }),
{
    let exp = authorization_expiry(expires, now as nat);
    assert("vapid t="@ + signing_input(exp) + "."@ + base64url(signature) + ",k="@ + base64url(
        public_point(scalar),
    ) =~= authorization_text(scalar, exp)->0);
}

/// An encrypted push to FCM is refused only for want of a key, of a usable token or
/// of a signature, in this order.
pub proof fn law_fcm_posts_are_refused_for_a_reason(
    signer: Option<(Seq<u8>, nat)>,
    token: Seq<char>,
    body: Seq<u8>,
    now: u64,
)
    ensures
        fcm_post_step(signer, token, body, now) matches PostStepView::Refuse(why) ==> match why {
            RefusalView::Disabled => signer is None,
            RefusalView::Token => signer is Some && !usable_token(token),
            RefusalView::Unsigned => signer is Some && usable_token(token) && ({
                let (scalar, expires) = signer->0;
                let exp = if expires <= now + 3600 {
                    (now + 43200) as nat
                } else {
                    expires
                };
                ecdsa_signature(scalar, encode_utf8(signing_input(exp))) is None
            }),
            _ => false,
        },
        signer is None || !usable_token(token) ==> fcm_post_step(signer, token, body, now) is Refuse,
{
}

/// A Simple Push to FCM, where there is a key and the token is usable, depends on
/// what is on record for the send URL alone, on arrival and after the wait. Where
/// nothing recent is, it waits, and then goes out to that URL with its body as it
/// came and an authorization made of the JWT that is due and the public key.
pub proof fn law_fcm_simple_pushes_wait_then_go_out(
    scalar: Seq<u8>,
    expires: nat,
    token: Seq<char>,
    body: Seq<u8>,
    posts: Map<Seq<char>, u64>,
    now: u64,
    unix_now: u64,
    signature: Seq<u8>,
)
    requires
        usable_token(token),
        ({
            let exp = if expires <= unix_now + 3600 {
                (unix_now + 43200) as nat
            } else {
                expires
            };
            ecdsa_signature(scalar, encode_utf8(signing_input(exp))) == Some(signature)
        }),
    ensures
        ({
            let exp = if expires <= unix_now + 3600 {
                (unix_now + 43200) as nat
            } else {
                expires
            };
            let url = token_url(token);
            let matched = posts.contains_key(url) && now < posts[url] + 2_000_000_000;
            let first = fcm_put_step(true, token, body, posts, now);
            let second = fcm_second_put_step(
                Some((scalar, expires)),
                url,
                body,
                posts,
                now,
                unix_now,
            );
            &&& matched ==> first is Suppress && second is Suppress
            &&& !matched ==> {
                &&& first is Wait
                &&& first->endpoint == url
                &&& first->body == body
                &&& second is Forward
                &&& second->Forward_0.url == url
                &&& second->Forward_0.body == body
                &&& second->Forward_0.authorization == Some(
                    encode_utf8(
                        "vapid t="@ + signing_input(exp) + "."@ + base64url(signature) + ",k="@
                            + base64url(public_point(scalar)),
                    ),
                )
            }
        }),
{
    let exp = authorization_expiry(expires, unix_now as nat);
    crate::recent::law_recent_means_less_than_two_seconds_ago(posts, token_url(token), now);
    assert("vapid t="@ + signing_input(exp) + "."@ + base64url(signature) + ",k="@ + base64url(
        public_point(scalar),
    ) =~= authorization_text(scalar, exp)->0);
}

/// After the wait a Simple Push to FCM is refused only where nothing recent is on
/// record and there is no key, or no signature for the JWT that is due; on arrival
/// only where there is no key or the token is not usable.
pub proof fn law_fcm_simple_pushes_are_refused_for_a_reason(
    signer: Option<(Seq<u8>, nat)>,
    token: Seq<char>,
    endpoint: Seq<char>,
    body: Seq<u8>,
    posts: Map<Seq<char>, u64>,
    now: u64,
    unix_now: u64,
)
    ensures
        fcm_put_step(signer is Some, token, body, posts, now) matches PutStepView::Refuse(why)
            ==> match why {
            RefusalView::Disabled => signer is None,
            RefusalView::Token => signer is Some && !usable_token(token),
            _ => false,
        },
        signer is None || !usable_token(token) ==> fcm_put_step(
            signer is Some,
            token,
            body,
            posts,
            now,
        ) is Refuse,
        fcm_second_put_step(signer, endpoint, body, posts, now, unix_now) matches PutStepView::Refuse(
            why,
        ) ==> !(posts.contains_key(endpoint) && now < posts[endpoint] + 2_000_000_000) && match why {
            RefusalView::Disabled => signer is None,
            RefusalView::Unsigned => signer is Some && ({
                let (scalar, expires) = signer->0;
                let exp = if expires <= unix_now + 3600 {
                    (unix_now + 43200) as nat
                } else {
                    expires
                };
                ecdsa_signature(scalar, encode_utf8(signing_input(exp))) is None
            }),
            _ => false,
        },
        signer is None ==> fcm_second_put_step(
            signer,
            endpoint,
            body,
            posts,
            now,
            unix_now,
        ) !is Forward,
{
    crate::recent::law_recent_means_less_than_two_seconds_ago(posts, endpoint, now);
}

/// The signer keeps its key, and the JWT of the push that it signed: another push
/// before the last hour of that JWT carries the same authorization.
pub proof fn law_signed_pushes_share_their_authorization(
    before: VapidSigner,
    after: VapidSigner,
    token: Seq<char>,
    other: Seq<char>,
    body: Seq<u8>,
    other_body: Seq<u8>,
    now: u64,
    later: u64,
)
    requires
        signer_after(before, after, now),
        fcm_post_step(Some((before.secret(), before.expires())), token, body, now) is Forward,
        usable_token(other),
        later + 3600 < after.expires(),
    ensures
        after.secret() == before.secret(),
        ({
            let first = fcm_post_step(
                Some((before.secret(), before.expires())),
                token,
                body,
                now,
            );
            let second = fcm_post_step(
                Some((after.secret(), after.expires())),
                other,
                other_body,
                later,
            );
            &&& second is Forward
            &&& second->Forward_0.authorization == first->Forward_0.authorization
            &&& first->Forward_0.authorization == Some(after.cached())
        }),
        before.expires() <= now + 3600 ==> after.expires() == now + 43200,
        before.expires() > now + 3600 ==> after.expires() == before.expires(),
{
}

/// Every push asks the endpoint to keep it for thirty days, to deliver it at once
/// and to take it for encrypted, and carries no other fixed header.
pub proof fn law_headers_of_a_push()
    ensures
        push_header_pairs().len() == 3,
        push_header_pairs().contains(("ttl"@, crate::text::decimal(30 * 24 * 60 * 60))),
        push_header_pairs().contains(("urgency"@, "high"@)),
        push_header_pairs().contains(("content-encoding"@, "aes128gcm"@)),
{
    let pairs = push_header_pairs();
    reveal_strlit("2592000");
    reveal_with_fuel(crate::text::decimal, 8);
    assert(crate::text::decimal(2592000) =~= "2592000"@);
    assert(pairs[0] == ("ttl"@, "2592000"@));
    assert(pairs[1] == ("urgency"@, "high"@));
    assert(pairs[2] == ("content-encoding"@, "aes128gcm"@));
}

/// A push to FCM is made of what is given for it, whatever it is, and is refused
/// only where there is nothing to authorize it.
pub proof fn law_fcm_pushes_are_made_of_their_parts(
    url: Seq<char>,
    body: Seq<u8>,
    authorization: Seq<u8>,
)
    ensures
        ({
            let push = fcm_push(url, body, Some(authorization));
            &&& push is Ok
            &&& push->Ok_0.url == url
            &&& push->Ok_0.body == body
            &&& push->Ok_0.authorization == Some(authorization)
        }),
        fcm_push(url, body, None) == Err::<PushView, RefusalView>(RefusalView::Unsigned),
{
}

/// Nothing goes to FCM unsigned: without a signature for the JWT that is due, an
/// encrypted push for a usable token is refused, and so is a Simple Push after the
/// wait where nothing recent is on record.
pub proof fn law_nothing_goes_to_fcm_unsigned(
    scalar: Seq<u8>,
    expires: nat,
    token: Seq<char>,
    endpoint: Seq<char>,
    body: Seq<u8>,
    posts: Map<Seq<char>, u64>,
    now: u64,
    unix_now: u64,
)
    requires
        ({
            let exp = if expires <= unix_now + 3600 {
                (unix_now + 43200) as nat
            } else {
                expires
            };
            ecdsa_signature(scalar, encode_utf8(signing_input(exp))) is None
        }),
    ensures
        usable_token(token) ==> fcm_post_step(Some((scalar, expires)), token, body, unix_now)
            == PostStepView::Refuse(RefusalView::Unsigned),
        !(posts.contains_key(endpoint) && now < posts[endpoint] + 2_000_000_000)
            ==> fcm_second_put_step(
            Some((scalar, expires)),
            endpoint,
            body,
            posts,
            now,
            unix_now,
        ) == PutStepView::Refuse(RefusalView::Unsigned),
{
    crate::recent::law_recent_means_less_than_two_seconds_ago(posts, endpoint, now);
}

/// After the wait a key decides nothing but the authorization: where a Simple Push
/// goes out, it goes to the endpoint that it waited for and with the body that it
/// came with.
pub proof fn law_key_changes_the_authorization_only(
    scalar: Seq<u8>,
    expires: nat,
    endpoint: Seq<char>,
    body: Seq<u8>,
    posts: Map<Seq<char>, u64>,
    now: u64,
    unix_now: u64,
)
    ensures
        ({
            let signed = fcm_second_put_step(
                Some((scalar, expires)),
                endpoint,
                body,
                posts,
                now,
                unix_now,
            );
            let plain = second_put_step(endpoint, body, posts, now);
            &&& signed is Suppress <==> plain is Suppress
            &&& signed is Forward ==> {
                &&& plain is Forward
                &&& signed->Forward_0.url == plain->Forward_0.url
                &&& signed->Forward_0.body == plain->Forward_0.body
                &&& signed->Forward_0.authorization is Some
                &&& signed->Forward_0.authorization == fcm_authorization(scalar, expires, unix_now)
            }
            &&& plain is Forward && authorization_text(
                scalar,
                authorization_expiry(expires, unix_now as nat),
            ) is Some ==> signed is Forward
        }),
{
}

/// A signer is seen as its key and the expiry of the JWT at hand, whichever they
/// are.
pub proof fn law_signer_is_seen_as_it_is(signer: VapidSigner)
    ensures
        signer_state(Some(signer)) == Some((signer.secret(), signer.expires())),
        signer_state(None) is None,
{
}

/// Steps, pushes and answers are seen as what they hold.
pub proof fn law_steps_show_what_they_hold(
    why: Refusal,
    push: Push,
    pending: PendingPut,
    status: u16,
    location: HeaderValue,
)
    ensures
        PostStep::Refuse(why)@ == PostStepView::Refuse(why@),
        PostStep::Forward(push)@ == PostStepView::Forward(push@),
        PutStep::Refuse(why)@ == PutStepView::Refuse(why@),
        PutStep::Suppress@ == PutStepView::Suppress,
        PutStep::Wait(pending)@ == (PutStepView::Wait {
            endpoint: pending.endpoint.href@,
            body: pending.body@,
        }),
        PutStep::Forward(push)@ == PutStepView::Forward(push@),
        push@.url == push.url.href@,
        push@.body == push.body@,
        push@.authorization is Some <==> push.authorization is Some,
        push.authorization is Some ==> push@.authorization->0 == push.authorization->0.bytes@,
        Reply::Status(status)@ == ReplyView::Status(status),
        Reply::Created(location)@ == ReplyView::Created(location.bytes@),
        Reply::Relay(status)@ == ReplyView::Relay(status),
{
}

/// Refusals are seen as what they hold.
pub proof fn law_refusals_show_what_they_hold(rejection: Rejection)
    ensures
        Refusal::MissingEndpoint@ == RefusalView::MissingEndpoint,
        Refusal::Endpoint(rejection)@ == RefusalView::Endpoint(rejection@),
        Refusal::Token@ == RefusalView::Token,
        Refusal::Disabled@ == RefusalView::Disabled,
        Refusal::Unsigned@ == RefusalView::Unsigned,
{
}

/// A request body may have up to 64 KiB, of which FCM takes no more than 4 KiB once
/// it is folded.
pub proof fn law_limits_of_a_request()
    ensures
        MAX_BODY == 65536,
        MAX_PAYLOAD == 4096,
        MAX_PAYLOAD < MAX_BODY,
{
}

} // verus!
