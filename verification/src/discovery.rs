//! The two documents through which a remote server finds the actor and its
//! key: the identity-resolution document and the actor profile document.
use crate::keys::{matching_keys, published_form, serialize_public_key, KeyPair};
use crate::AppState;
use vstd::prelude::*;

verus! {

/// The address of the actor's profile on a domain.
pub open spec fn actor_url(domain: Seq<char>) -> Seq<char> {
    "https://"@ + domain + "/actor"@
}

/// The address of the actor's signing key: the profile's address with the
/// fragment `#main-key`.
pub open spec fn key_url(domain: Seq<char>) -> Seq<char> {
    actor_url(domain) + "#main-key"@
}

/// The address of the actor's inbox.
pub open spec fn inbox_url(domain: Seq<char>) -> Seq<char> {
    "https://"@ + domain + "/inbox"@
}

/// The account that an identity-resolution document is about.
pub open spec fn account_uri(user: Seq<char>, domain: Seq<char>) -> Seq<char> {
    "acct:"@ + user + "@"@ + domain
}

/// Who signs: the actor's address, the address of its key and its account name.
#[derive(Clone, Debug, PartialEq, Eq)]
pub struct ActorIdentity {
    pub canonical_id: String,
    pub key_id: String,
    pub preferred_name: String,
}

/// One link of an identity-resolution document.
#[derive(Clone, Debug, PartialEq, Eq)]
pub struct WebfingerLink {
    pub rel: String,
    pub kind: String,
    pub href: String,
}

/// The identity-resolution document of an account.
#[derive(Clone, Debug, PartialEq, Eq)]
pub struct WebfingerDocument {
    pub subject: String,
    pub links: Vec<WebfingerLink>,
}

/// The key that an actor profile document publishes.
#[derive(Clone, Debug, PartialEq, Eq)]
pub struct ActorPublicKey {
    pub id: String,
    pub owner: String,
    pub public_key_pem: String,
}

/// A published key as plain sequences.
pub struct ActorPublicKeyView {
    pub id: Seq<char>,
    pub owner: Seq<char>,
    pub public_key_pem: Seq<char>,
}

impl View for ActorPublicKey {
    type V = ActorPublicKeyView;

    open spec fn view(&self) -> ActorPublicKeyView {
        ActorPublicKeyView {
            id: self.id@,
            owner: self.owner@,
            public_key_pem: self.public_key_pem@,
        }
    }
}

/// The actor profile document.
#[derive(Clone, Debug, PartialEq, Eq)]
pub struct ActorDocument {
    pub context: Vec<String>,
    pub id: String,
    pub kind: String,
    pub preferred_username: String,
    pub inbox: String,
    pub public_key: ActorPublicKey,
}

/// The address of the actor's profile on `domain`.
pub fn actor_id(domain: &str) -> (r: String)
    ensures
        r@ == actor_url(domain@),
{
    let mut out = String::from_str("https://");
    out.append(domain);
    out.append("/actor");
    out
}

/// The address of the actor's signing key on `domain`.
pub fn key_id(domain: &str) -> (r: String)
    ensures
        r@ == key_url(domain@),
{
    let mut out = actor_id(domain);
    out.append("#main-key");
    out
}

/// The identity of the actor that `state` describes. Its key identifier is
/// its address with the fragment `#main-key`.
pub fn actor_identity(state: &AppState) -> (r: ActorIdentity)
    ensures
        r.canonical_id@ == actor_url(state.domain@),
        r.key_id@ == key_url(state.domain@),
        r.key_id@ == r.canonical_id@ + "#main-key"@,
        r.preferred_name@ == state.user@,
{
    ActorIdentity {
        canonical_id: actor_id(state.domain.as_str()),
        key_id: key_id(state.domain.as_str()),
        preferred_name: state.user.clone(),
    }
}

/// The identity-resolution document of the actor: its subject is the
/// account, its one link leads to the actor's profile.
pub fn webfinger_document(state: &AppState) -> (r: WebfingerDocument)
    ensures
        r.subject@ == account_uri(state.user@, state.domain@),
        r.links@.len() == 1,
        r.links@[0].rel@ == "self"@,
        r.links@[0].kind@ == "application/activity+json"@,
        r.links@[0].href@ == actor_url(state.domain@),
{
    let self_link = WebfingerLink {
        rel: String::from_str("self"),
        kind: String::from_str("application/activity+json"),
        href: actor_id(state.domain.as_str()),
    };
    let mut subject = String::from_str("acct:");
    subject.append(state.user.as_str());
    subject.append("@");
    subject.append(state.domain.as_str());
    let mut links: Vec<WebfingerLink> = Vec::new();
    links.push(self_link);
    WebfingerDocument { subject, links }
}

/// The actor profile document of the actor, which publishes the public key
/// of `pair` under the actor's key identifier. The published text is the
/// public key that belongs to the pair's private key, between the
/// `BEGIN PUBLIC KEY` and `END PUBLIC KEY` lines, with LF line endings only.
pub fn actor_document(state: &AppState, pair: &KeyPair) -> (r: ActorDocument)
    ensures
        r.context@.len() == 2,
        r.context@[0]@ == "https://www.w3.org/ns/activitystreams"@,
        r.context@[1]@ == "https://w3id.org/security/v1"@,
        r.id@ == actor_url(state.domain@),
        r.kind@ == "Person"@,
        r.preferred_username@ == state.user@,
        r.inbox@ == inbox_url(state.domain@),
        r.public_key.id@ == key_url(state.domain@),
        r.public_key.owner@ == actor_url(state.domain@),
        r.public_key.public_key_pem@ == pair.public_pem(),
        matching_keys(pair.private_pem(), r.public_key.public_key_pem@),
        published_form(r.public_key.public_key_pem@),
{
    let public_key = ActorPublicKey {
        id: key_id(state.domain.as_str()),
        owner: actor_id(state.domain.as_str()),
        public_key_pem: serialize_public_key(pair),
    };
    let mut context: Vec<String> = Vec::new();
    context.push(String::from_str("https://www.w3.org/ns/activitystreams"));
    context.push(String::from_str("https://w3id.org/security/v1"));
    let mut inbox = String::from_str("https://");
    inbox.append(state.domain.as_str());
    inbox.append("/inbox");
    ActorDocument {
        context,
        id: actor_id(state.domain.as_str()),
        kind: String::from_str("Person"),
        preferred_username: state.user.clone(),
        inbox,
        public_key,
    }
}

} // verus!
