//! Verification of an inbound request, as a state machine whose one outside
//! step is the resolution of the signer's key.
use crate::canonical::{
    canonical_string_for, canonical_text, canonical_text_for, default_names, digest, digest_text,
    lemma_default_canonical, SigningContext, SigningContextView,
};
use crate::date::{is_fresh, parse_http_date, rfc2822_seconds, within_window};
use crate::discovery::{ActorPublicKey, ActorPublicKeyView};
use crate::error::Error;
use crate::header::{parse_header, parsed_header, SignatureHeader, SignatureHeaderView};
use crate::keys::{load_public_key, public_key_readable, PublicKey};
use crate::signer::{rsa_accepts, text_bytes, verify};
use crate::text::same_text;
use vstd::prelude::*;

verus! {

/// The outcome of verifying one request.
#[derive(Clone, Copy, Debug, PartialEq, Eq, Structural)]
pub enum Verdict {
    Accepted,
    Rejected(Error),
}

/// When a request is judged and how far its date may lie from that moment.
#[derive(Clone, Copy, Debug, PartialEq, Eq)]
pub struct Policy {
    /// The moment of the judgement, in seconds after the Unix epoch.
    pub now: i64,
    /// The clock-skew window, in seconds, on either side of `now`.
    pub window_seconds: u64,
}

/// An inbound request as it was received.
#[derive(Clone, Debug, PartialEq, Eq)]
pub struct InboundRequest {
    pub context: SigningContext,
    /// The value of the `Signature` header, if the request has one.
    pub signature_header: Option<String>,
}

/// An inbound request as plain sequences.
pub struct InboundRequestView {
    pub context: SigningContextView,
    pub signature_header: Option<Seq<char>>,
}

impl View for InboundRequest {
    type V = InboundRequestView;

    open spec fn view(&self) -> InboundRequestView {
        InboundRequestView {
            context: self.context@,
            signature_header: match self.signature_header {
                Some(text) => Some(text@),
                None => None,
            },
        }
    }
}

/// How far the verification of a request has come.
#[derive(Clone, Debug, PartialEq, Eq)]
pub enum VerifierState {
    Received,
    HeadersParsed(SignatureHeader),
    KeyResolved(SignatureHeader, PublicKey),
    CanonicalRebuilt(SignatureHeader, PublicKey, String),
    Verdict(Verdict),
}

/// A verifier state as plain sequences.
pub enum VerifierStateView {
    Received,
    HeadersParsed(SignatureHeaderView),
    KeyResolved(SignatureHeaderView, Seq<char>),
    CanonicalRebuilt(SignatureHeaderView, Seq<char>, Seq<char>),
    Verdict(Verdict),
}

impl View for VerifierState {
    type V = VerifierStateView;

    open spec fn view(&self) -> VerifierStateView {
        match self {
            VerifierState::Received => VerifierStateView::Received,
            VerifierState::HeadersParsed(header) => VerifierStateView::HeadersParsed(header@),
            VerifierState::KeyResolved(header, key) => VerifierStateView::KeyResolved(
                header@,
                key@,
            ),
            VerifierState::CanonicalRebuilt(header, key, canonical) => {
                VerifierStateView::CanonicalRebuilt(header@, key@, canonical@)
            },
            VerifierState::Verdict(verdict) => VerifierStateView::Verdict(*verdict),
        }
    }
}

/// What the caller reports to the verifier.
#[derive(Clone, Debug, PartialEq, Eq)]
pub enum VerifierEvent {
    /// Nothing to report: the verifier goes on by itself.
    Proceed,
    /// The outcome of resolving the key: the key that the key identifier led
    /// to, or `None` where the fetch failed or the document holds no key.
    KeyDocument(Option<ActorPublicKey>),
}

/// A verifier event as plain sequences.
pub enum VerifierEventView {
    Proceed,
    KeyDocument(Option<ActorPublicKeyView>),
}

impl View for VerifierEvent {
    type V = VerifierEventView;

    open spec fn view(&self) -> VerifierEventView {
        match self {
            VerifierEvent::Proceed => VerifierEventView::Proceed,
            VerifierEvent::KeyDocument(Some(key)) => VerifierEventView::KeyDocument(Some(key@)),
            VerifierEvent::KeyDocument(None) => VerifierEventView::KeyDocument(None),
        }
    }
}

/// What the verifier asks of the caller.
#[derive(Clone, Debug, PartialEq, Eq)]
pub enum VerifierAction {
    /// Fetch the key that this identifier names and report it.
    ResolveKey(String),
    /// Nothing to do: report `Proceed`.
    Proceed,
    /// The request is judged.
    Finish(Verdict),
}

/// A verifier action as plain sequences.
pub enum VerifierActionView {
    ResolveKey(Seq<char>),
    Proceed,
    Finish(Verdict),
}

impl View for VerifierAction {
    type V = VerifierActionView;

    open spec fn view(&self) -> VerifierActionView {
        match self {
            VerifierAction::ResolveKey(key_id) => VerifierActionView::ResolveKey(key_id@),
            VerifierAction::Proceed => VerifierActionView::Proceed,
            VerifierAction::Finish(verdict) => VerifierActionView::Finish(*verdict),
        }
    }
}

/// What a request's `Signature` header says, where the request has one that
/// is well formed.
pub open spec fn header_of(request: InboundRequestView) -> Option<SignatureHeaderView> {
    match request.signature_header {
        Some(text) => parsed_header(text),
        None => None,
    }
}

/// The key that resolution yields: the one that was fetched, where it is
/// published under the identifier that was asked for and is a public key.
pub open spec fn resolved_key(key_id: Seq<char>, fetched: Option<ActorPublicKeyView>) -> Option<
    Seq<char>,
> {
    match fetched {
        Some(key) => if key.id == key_id && public_key_readable(key.public_key_pem) {
            Some(key.public_key_pem)
        } else {
            None
        },
        None => None,
    }
}

/// The verdict on a request whose key is resolved and whose canonical string
/// is rebuilt: the signature must be one over that string under that key, the
/// digest header must be the digest of the body that was received, and the
/// date must be readable and within the window.
pub open spec fn judged(
    ctx: SigningContextView,
    signature: Seq<u8>,
    key: Seq<char>,
    canonical: Seq<char>,
    now: int,
    window: int,
) -> Verdict {
    if !rsa_accepts(key, text_bytes(canonical), signature) {
        Verdict::Rejected(Error::SignatureMismatch)
    } else if ctx.digest != digest_text(ctx.body) {
        Verdict::Rejected(Error::DigestMismatch)
    } else {
        match rfc2822_seconds(ctx.date) {
            Some(then) => if within_window(now, then, window) {
                Verdict::Accepted
            } else {
                Verdict::Rejected(Error::StaleTimestamp)
            },
            None => Verdict::Rejected(Error::StaleTimestamp),
        }
    }
}

/// The verdict on a request, given what key resolution yielded.
pub open spec fn verdict_of(
    request: InboundRequestView,
    fetched: Option<ActorPublicKeyView>,
    now: int,
    window: int,
) -> Verdict {
    match header_of(request) {
        None => Verdict::Rejected(Error::MalformedSignatureHeader),
        Some(header) => match resolved_key(header.key_id, fetched) {
            None => Verdict::Rejected(Error::KeyResolutionError),
            Some(key) => match canonical_text_for(request.context, header.headers) {
                None => Verdict::Rejected(Error::MalformedSignatureHeader),
                Some(canonical) => judged(
                    request.context,
                    header.signature,
                    key,
                    canonical,
                    now,
                    window,
                ),
            },
        },
    }
}

/// The state that follows a state on an event, and what the caller is to do.
pub open spec fn next_step(
    request: InboundRequestView,
    now: int,
    window: int,
    state: VerifierStateView,
    event: VerifierEventView,
) -> (VerifierStateView, VerifierActionView) {
    match state {
        VerifierStateView::Received => match header_of(request) {
            Some(header) => (
                VerifierStateView::HeadersParsed(header),
                VerifierActionView::ResolveKey(header.key_id),
            ),
            None => stopped(Verdict::Rejected(Error::MalformedSignatureHeader)),
        },
        VerifierStateView::HeadersParsed(header) => match event {
            VerifierEventView::KeyDocument(fetched) => match resolved_key(header.key_id, fetched) {
                Some(key) => (
                    VerifierStateView::KeyResolved(header, key),
                    VerifierActionView::Proceed,
                ),
                None => stopped(Verdict::Rejected(Error::KeyResolutionError)),
            },
            VerifierEventView::Proceed => stopped(Verdict::Rejected(Error::KeyResolutionError)),
        },
        VerifierStateView::KeyResolved(header, key) => match canonical_text_for(
            request.context,
            header.headers,
        ) {
            Some(canonical) => (
                VerifierStateView::CanonicalRebuilt(header, key, canonical),
                VerifierActionView::Proceed,
            ),
            None => stopped(Verdict::Rejected(Error::MalformedSignatureHeader)),
        },
        VerifierStateView::CanonicalRebuilt(header, key, canonical) => stopped(
            judged(request.context, header.signature, key, canonical, now, window),
        ),
        VerifierStateView::Verdict(verdict) => stopped(verdict),
    }
}

/// The final state of a verdict, with the action that reports it.
pub open spec fn stopped(verdict: Verdict) -> (VerifierStateView, VerifierActionView) {
    (VerifierStateView::Verdict(verdict), VerifierActionView::Finish(verdict))
}

/// The key that resolution yields, or `KeyResolutionError` where nothing was
/// fetched, the fetched key is published under another identifier, or its
/// text is no public key.
pub fn resolve_key(key_id: &str, fetched: Option<ActorPublicKey>) -> (r: Result<PublicKey, Error>)
    ensures
        match resolved_key(
            key_id@,
            match fetched {
                Some(key) => Some(key@),
                None => None,
            },
        ) {
            Some(pem) => r matches Ok(key) && key@ == pem,
            None => r matches Err(e) && e == Error::KeyResolutionError,
        },
{
    match fetched {
        Some(key) => {
            if !same_text(key.id.as_str(), key_id) {
                return Err(Error::KeyResolutionError);
            }
            match load_public_key(key.public_key_pem.as_str()) {
                Ok(public_key) => Ok(public_key),
                Err(_) => Err(Error::KeyResolutionError),
            }
        },
        None => Err(Error::KeyResolutionError),
    }
}

/// Judges a request whose key is resolved and whose canonical string is
/// rebuilt. The checks are made in this order: signature, digest, date.
pub fn judge(
    ctx: &SigningContext,
    signature: &[u8],
    key: &PublicKey,
    canonical: &str,
    policy: Policy,
) -> (r: Verdict)
    ensures
        r == judged(
            ctx@,
            signature@,
            key@,
            canonical@,
            policy.now as int,
            policy.window_seconds as int,
        ),
{
    if !verify(canonical, signature, key) {
        return Verdict::Rejected(Error::SignatureMismatch);
    }
    let expected = digest(ctx.body.as_slice());
    if !same_text(ctx.digest.as_str(), expected.as_str()) {
        return Verdict::Rejected(Error::DigestMismatch);
    }
    match parse_http_date(ctx.date.as_str()) {
        Some(then) => {
            if is_fresh(policy.now, then, policy.window_seconds) {
                Verdict::Accepted
            } else {
                Verdict::Rejected(Error::StaleTimestamp)
            }
        },
        None => Verdict::Rejected(Error::StaleTimestamp),
    }
}

/// One step of the verification of `request`: from a state and what the
/// caller reports to the next state and what the caller is to do. Only the
/// state `HeadersParsed` reads the event; a request without a well-formed
/// `Signature` header is rejected in the first step, before any key is asked for.
pub fn step(
    request: &InboundRequest,
    policy: Policy,
    state: VerifierState,
    event: VerifierEvent,
) -> (r: (VerifierState, VerifierAction))
    ensures
        (r.0@, r.1@) == next_step(
            request@,
            policy.now as int,
            policy.window_seconds as int,
            state@,
            event@,
        ),
{
    match state {
        VerifierState::Received => {
            let parsed = match &request.signature_header {
                Some(text) => parse_header(text.as_str()),
                None => Err(Error::MalformedSignatureHeader),
            };
            match parsed {
                Ok(header) => {
                    let key_id = header.key_id.clone();
                    (VerifierState::HeadersParsed(header), VerifierAction::ResolveKey(key_id))
                },
                Err(_) => stop(Verdict::Rejected(Error::MalformedSignatureHeader)),
            }
        },
        VerifierState::HeadersParsed(header) => match event {
            VerifierEvent::KeyDocument(fetched) => {
                match resolve_key(header.key_id.as_str(), fetched) {
                    Ok(key) => (VerifierState::KeyResolved(header, key), VerifierAction::Proceed),
                    Err(_) => stop(Verdict::Rejected(Error::KeyResolutionError)),
                }
            },
            VerifierEvent::Proceed => stop(Verdict::Rejected(Error::KeyResolutionError)),
        },
        VerifierState::KeyResolved(header, key) => {
            match canonical_string_for(&request.context, &header.headers) {
                Ok(canonical) => (
                    VerifierState::CanonicalRebuilt(header, key, canonical),
                    VerifierAction::Proceed,
                ),
                Err(_) => stop(Verdict::Rejected(Error::MalformedSignatureHeader)),
            }
        },
        VerifierState::CanonicalRebuilt(header, key, canonical) => {
            let verdict = judge(
                &request.context,
                header.signature.as_slice(),
                &key,
                canonical.as_str(),
                policy,
            );
            stop(verdict)
        },
        VerifierState::Verdict(verdict) => stop(verdict),
    }
}

/// The final state of a verdict, with the action that reports it.
pub fn stop(verdict: Verdict) -> (r: (VerifierState, VerifierAction))
    ensures
        (r.0@, r.1@) == stopped(verdict),
{
    (VerifierState::Verdict(verdict), VerifierAction::Finish(verdict))
}

/// Verifies a request whose key has already been looked up: `fetched` is
/// what the key identifier of its `Signature` header led to, if anything.
pub fn verify_request(request: &InboundRequest, fetched: Option<ActorPublicKey>, policy: Policy) -> (r:
    Verdict)
    ensures
        r == verdict_of(
            request@,
            match fetched {
                Some(key) => Some(key@),
                None => None,
            },
            policy.now as int,
            policy.window_seconds as int,
        ),
{
    let (parsed, _) = step(request, policy, VerifierState::Received, VerifierEvent::Proceed);
    let (resolved, _) = step(request, policy, parsed, VerifierEvent::KeyDocument(fetched));
    let (rebuilt, _) = step(request, policy, resolved, VerifierEvent::Proceed);
    let (last, _) = step(request, policy, rebuilt, VerifierEvent::Proceed);
    match last {
        VerifierState::Verdict(verdict) => verdict,
        _ => Verdict::Rejected(Error::MalformedSignatureHeader),
    }
}

/// The state that the verifier is in after the events of a list, one after
/// the other.
pub open spec fn state_after(
    request: InboundRequestView,
    now: int,
    window: int,
    state: VerifierStateView,
    events: Seq<VerifierEventView>,
) -> VerifierStateView
    decreases events.len(),
{
    if events.len() == 0 {
        state
    } else {
        state_after(
            request,
            now,
            window,
            next_step(request, now, window, state, events[0]).0,
            events.drop_first(),
        )
    }
}

/// Four steps judge a request: from `Received`, with the outcome of key
/// resolution reported in the second, the verifier ends in the verdict that
/// `verdict_of` gives; and a verdict, once reached, stays.
pub proof fn lemma_four_steps_judge(
    request: InboundRequestView,
    fetched: Option<ActorPublicKeyView>,
    now: int,
    window: int,
    later: VerifierEventView,
)
    ensures
        state_after(
            request,
            now,
            window,
            VerifierStateView::Received,
            seq![
                VerifierEventView::Proceed,
                VerifierEventView::KeyDocument(fetched),
                VerifierEventView::Proceed,
                VerifierEventView::Proceed,
            ],
        ) == VerifierStateView::Verdict(verdict_of(request, fetched, now, window)),
        next_step(
            request,
            now,
            window,
            VerifierStateView::Verdict(verdict_of(request, fetched, now, window)),
            later,
        ) == stopped(verdict_of(request, fetched, now, window)),
{
    let e4 = seq![
        VerifierEventView::Proceed,
        VerifierEventView::KeyDocument(fetched),
        VerifierEventView::Proceed,
        VerifierEventView::Proceed,
    ];
    let e3 = e4.drop_first();
    let e2 = e3.drop_first();
    let e1 = e2.drop_first();
    let e0 = e1.drop_first();
    let s0 = VerifierStateView::Received;
    let s1 = next_step(request, now, window, s0, e4[0]).0;
    let s2 = next_step(request, now, window, s1, e3[0]).0;
    let s3 = next_step(request, now, window, s2, e2[0]).0;
    let s4 = next_step(request, now, window, s3, e1[0]).0;
    assert(e0.len() == 0);
    assert(state_after(request, now, window, s4, e0) == s4);
    assert(state_after(request, now, window, s3, e1) == s4);
    assert(state_after(request, now, window, s2, e2) == s4);
    assert(state_after(request, now, window, s1, e3) == s4);
    assert(state_after(request, now, window, s0, e4) == s4);
    assert(e3[0] == VerifierEventView::KeyDocument(fetched));
}

/// A request without a well-formed `Signature` header is rejected as
/// malformed in the first step, whatever is reported, and no key is asked for.
pub proof fn lemma_malformed_asks_for_no_key(
    request: InboundRequestView,
    now: int,
    window: int,
    event: VerifierEventView,
)
    requires
        header_of(request) is None,
    ensures
        next_step(request, now, window, VerifierStateView::Received, event) == stopped(
            Verdict::Rejected(Error::MalformedSignatureHeader),
        ),
{
}

/// A header value that holds no pair named `keyId` is malformed.
pub proof fn lemma_key_id_is_required(text: Seq<char>)
    requires
        match crate::header::params_from(text, 0) {
            Some(params) => crate::header::param_value(params, "keyId"@) is None,
            None => true,
        },
    ensures
        parsed_header(text) is None,
{
}

/// Whether a date text names a moment within the window around `now`.
pub open spec fn fresh_date(date: Seq<char>, now: int, window: int) -> bool {
    match rfc2822_seconds(date) {
        Some(then) => within_window(now, then, window),
        None => false,
    }
}

/// A request as its receiver sees it where nothing was changed on the way:
/// the digest header is the digest of the body.
pub open spec fn received_unchanged(
    method: Seq<char>,
    path: Seq<char>,
    host: Seq<char>,
    date: Seq<char>,
    body: Seq<u8>,
    signature_header: Seq<char>,
) -> InboundRequestView {
    InboundRequestView {
        context: SigningContextView { method, path, host, date, digest: digest_text(body), body },
        signature_header: Some(signature_header),
    }
}

/// A key as its owner publishes it.
pub open spec fn published_key(key_id: Seq<char>, owner: Seq<char>, public_pem: Seq<char>) -> Option<
    ActorPublicKeyView,
> {
    Some(ActorPublicKeyView { id: key_id, owner, public_key_pem: public_pem })
}

/// A request that arrives as it was signed is accepted: its header reads as
/// the key identifier, the component list `(request-target) host date digest`
/// and a signature that the published key accepts over the canonical string,
/// the key is published under that identifier, and the date is fresh.
pub proof fn lemma_unchanged_request_is_accepted(
    key_id: Seq<char>,
    owner: Seq<char>,
    public_pem: Seq<char>,
    method: Seq<char>,
    path: Seq<char>,
    host: Seq<char>,
    date: Seq<char>,
    body: Seq<u8>,
    signature: Seq<u8>,
    signature_header: Seq<char>,
    now: int,
    window: int,
)
    requires
        parsed_header(signature_header) == Some(
            SignatureHeaderView { key_id, headers: default_names(), signature },
        ),
        public_key_readable(public_pem),
        rsa_accepts(
            public_pem,
            text_bytes(canonical_text(method, path, host, date, digest_text(body))),
            signature,
        ),
        fresh_date(date, now, window),
    ensures
        verdict_of(
            received_unchanged(method, path, host, date, body, signature_header),
            published_key(key_id, owner, public_pem),
            now,
            window,
        ) == Verdict::Accepted,
{
    let request = received_unchanged(method, path, host, date, body, signature_header);
    lemma_default_canonical(request.context);
}

/// A signature that the resolved key does not accept over the rebuilt
/// canonical string is a signature mismatch, whatever else holds of the
/// request: so it is for a signature made with another key pair, for one over
/// the lines in another order, and for one whose bytes were altered, wherever
/// the key refuses them.
pub proof fn lemma_refused_signature_is_mismatch(
    request: InboundRequestView,
    fetched: Option<ActorPublicKeyView>,
    now: int,
    window: int,
)
    requires
        header_of(request) is Some,
        resolved_key(header_of(request)->0.key_id, fetched) is Some,
        canonical_text_for(request.context, header_of(request)->0.headers) is Some,
        !rsa_accepts(
            resolved_key(header_of(request)->0.key_id, fetched)->0,
            text_bytes(canonical_text_for(request.context, header_of(request)->0.headers)->0),
            header_of(request)->0.signature,
        ),
    ensures
        verdict_of(request, fetched, now, window) == Verdict::Rejected(Error::SignatureMismatch),
{
}

/// A body that was altered after it was digested is a digest mismatch: a
/// request whose signature is accepted, and whose digest header is the digest
/// of a body with another digest than the body that arrived, is rejected as
/// such, whatever its date.
pub proof fn lemma_altered_body_is_digest_mismatch(
    request: InboundRequestView,
    fetched: Option<ActorPublicKeyView>,
    digested: Seq<u8>,
    now: int,
    window: int,
)
    requires
        header_of(request) is Some,
        resolved_key(header_of(request)->0.key_id, fetched) is Some,
        canonical_text_for(request.context, header_of(request)->0.headers) is Some,
        rsa_accepts(
            resolved_key(header_of(request)->0.key_id, fetched)->0,
            text_bytes(canonical_text_for(request.context, header_of(request)->0.headers)->0),
            header_of(request)->0.signature,
        ),
        request.context.digest == digest_text(digested),
        digest_text(request.context.body) != digest_text(digested),
    ensures
        verdict_of(request, fetched, now, window) == Verdict::Rejected(Error::DigestMismatch),
{
}

} // verus!
