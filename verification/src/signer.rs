//! Signing: the RSA signature over a canonical string, and the headers of a
//! signed request.
use crate::canonical::{
    canonical_string, canonical_text, default_headers, default_names, digest, digest_text,
};
use crate::error::Error;
use crate::header::{build_header, header_text, parsed_header, plain_names, SignatureHeaderView};
use crate::keys::{
    load_private_key, loaded_public_key, matching_keys, public_key_readable, public_key_text,
    signable, PrivateKey,
};
use crate::text::free_of;
use crate::verification::{
    fresh_date, lemma_unchanged_request_is_accepted, published_key, received_unchanged,
    verdict_of, Verdict,
};
use crate::codec::base64_text;
use rsa::pkcs1v15::{Signature, SigningKey, VerifyingKey};
use rsa::pkcs8::{DecodePrivateKey, DecodePublicKey};
use rsa::signature::{SignatureEncoding, Signer, Verifier};
use vstd::prelude::*;

verus! {

/// The PKCS#1 v1.5 signature, with SHA-256, of a message under the private
/// key that a PEM text encodes, where the key can produce one.
pub uninterp spec fn rsa_signature(private_pem: Seq<char>, message: Seq<u8>) -> Option<Seq<u8>>;

/// Whether a signature over a message is accepted under the public key that
/// a PEM text encodes.
pub uninterp spec fn rsa_accepts(public_pem: Seq<char>, message: Seq<u8>, signature: Seq<u8>) -> bool;

/// The bytes of a text, which are what is signed.
pub open spec fn text_bytes(text: Seq<char>) -> Seq<u8> {
    vstd::utf8::encode_utf8(text)
}

/// Reads the key with `rsa::RsaPrivateKey::from_pkcs8_pem` and signs with
/// `try_sign` of `rsa::pkcs1v15::SigningKey<Sha256>`. The key must be
/// signable: the crate's signing adds the first prime to a number below the
/// second until it is positive, which with balanced primes takes a few rounds
/// and with others may not end. Trusted: the scheme is deterministic, so the
/// result depends on key and message alone; `None` stands for a refusal to
/// sign. The crate checks each signature against the key's public half before
/// returning it, so it is accepted under that key's public key wherever that
/// one can be read.
#[verifier::external_body]
pub(crate) fn rsa_sign(private_pem: &str, message: &[u8]) -> (r: Option<Vec<u8>>)
    requires
        signable(private_pem@),
    ensures
        match r {
            Some(signature) => rsa_signature(private_pem@, message@) == Some(signature@),
            None => rsa_signature(private_pem@, message@) is None,
        },
        match (r, public_key_text(private_pem@)) {
            (Some(signature), Some(public_pem)) => public_key_readable(public_pem) ==> rsa_accepts(
                public_pem,
                message@,
                signature@,
            ),
            _ => true,
        },
{
    let key = rsa::RsaPrivateKey::from_pkcs8_pem(private_pem).ok()?;
    let signature = SigningKey::<sha2::Sha256>::new(key).try_sign(message).ok()?;
    Some(signature.to_vec())
}

/// Reads the key with `rsa::RsaPublicKey::from_public_key_pem` and checks the
/// signature with `verify` of `rsa::pkcs1v15::VerifyingKey<Sha256>`. Trusted:
/// the answer depends on key, message and signature alone, and is `false`
/// where the key cannot be read.
#[verifier::external_body]
pub(crate) fn rsa_verify(public_pem: &str, message: &[u8], signature: &[u8]) -> (r: bool)
    ensures
        r == rsa_accepts(public_pem@, message@, signature@),
{
    match (rsa::RsaPublicKey::from_public_key_pem(public_pem), Signature::try_from(signature)) {
        (Ok(key), Ok(sig)) => VerifyingKey::<sha2::Sha256>::new(key).verify(message, &sig).is_ok(),
        _ => false,
    }
}

/// Signs a canonical string. The signature is the one that the key gives to
/// the bytes of the string; it is accepted under the public key of the same
/// pair. Where the key refuses, the result is a `SigningError`.
pub fn sign(canonical: &str, key: &PrivateKey) -> (r: Result<Vec<u8>, Error>)
    ensures
        match rsa_signature(key@, text_bytes(canonical@)) {
            Some(signature) => r matches Ok(found) && found@ == signature,
            None => r matches Err(e) && e == Error::SigningError,
        },
        r matches Ok(found) ==> (forall|public_pem: Seq<char>|
            matching_keys(key@, public_pem) ==> rsa_accepts(
                public_pem,
                text_bytes(canonical@),
                found@,
            )),
{
    match rsa_sign(key.pem(), canonical.as_bytes()) {
        Some(signature) => Ok(signature),
        None => Err(Error::SigningError),
    }
}

/// The outcome of signing with the private key that a text encodes.
pub open spec fn signed_with_pem(private_pem: Seq<char>, canonical: Seq<char>) -> Option<Seq<u8>> {
    if loaded_public_key(private_pem) is Some {
        rsa_signature(private_pem, text_bytes(canonical))
    } else {
        None
    }
}

/// Signs a canonical string with the private key that a PKCS#8 PEM text
/// encodes. Where the key is absent or corrupt, so that the text cannot be
/// loaded, and where the key refuses, the result is a `SigningError`.
pub fn sign_with_pem(canonical: &str, private_pem: &str) -> (r: Result<Vec<u8>, Error>)
    ensures
        match signed_with_pem(private_pem@, canonical@) {
            Some(signature) => r matches Ok(found) && found@ == signature,
            None => r matches Err(e) && e == Error::SigningError,
        },
{
    match load_private_key(private_pem) {
        Ok(pair) => sign(canonical, pair.private_key()),
        Err(_) => Err(Error::SigningError),
    }
}

/// Whether `signature` is a signature over a canonical string under a public key.
pub fn verify(canonical: &str, signature: &[u8], key: &crate::keys::PublicKey) -> (r: bool)
    ensures
        r == rsa_accepts(key@, text_bytes(canonical@), signature@),
{
    rsa_verify(key.pem.as_str(), canonical.as_bytes(), signature)
}

/// The headers that a signed request carries.
#[derive(Clone, Debug, PartialEq, Eq)]
pub struct SignedHeaders {
    pub host: String,
    pub date: String,
    pub digest: String,
    pub signature: String,
}

/// The text of the `Signature` header of a request, given the signature
/// over its canonical string.
pub open spec fn signed_header_text(key_id: Seq<char>, signature: Seq<u8>) -> Seq<char> {
    header_text(key_id, default_names(), base64_text(signature))
}

/// The canonical string of an outbound request, whose digest is that of its body.
pub open spec fn outbound_text(
    method: Seq<char>,
    path: Seq<char>,
    host: Seq<char>,
    date: Seq<char>,
    body: Seq<u8>,
) -> Seq<char> {
    canonical_text(method, path, host, date, digest_text(body))
}

/// The component list that this library signs with is plain.
pub proof fn lemma_default_names_plain()
    ensures
        plain_names(default_names()),
{
    reveal_strlit("(request-target)");
    reveal_strlit("host");
    reveal_strlit("date");
    reveal_strlit("digest");
    let names = default_names();
    assert forall|i: int| 0 <= i < names.len() implies free_of(#[trigger] names[i], ' ')
        && free_of(names[i], '"') by {
        if i == 0 {
            assert(names[i] == "(request-target)"@);
        } else if i == 1 {
            assert(names[i] == "host"@);
        } else if i == 2 {
            assert(names[i] == "date"@);
        } else {
            assert(names[i] == "digest"@);
        }
    }
}

/// The headers of a signed request, given the outcome of signing its
/// canonical string: a failure to sign is passed on, a signature is written
/// into the `Signature` header beside the key identifier and the component
/// list `(request-target) host date digest`. A key identifier without a
/// double quote is read back from that header, with the list and the signature.
pub fn signed_headers(
    key_id: &str,
    host: &str,
    date: &str,
    digest: String,
    signature: Result<Vec<u8>, Error>,
) -> (r: Result<SignedHeaders, Error>)
    ensures
        match signature {
            Ok(bytes) => r matches Ok(headers) && headers.host@ == host@ && headers.date@ == date@
                && headers.digest@ == digest@ && headers.signature@ == signed_header_text(
                key_id@,
                bytes@,
            ) && (free_of(key_id@, '"') ==> parsed_header(headers.signature@) == Some(
                SignatureHeaderView {
                    key_id: key_id@,
                    headers: default_names(),
                    signature: bytes@,
                },
            )),
            Err(e) => r matches Err(f) && f == e,
        },
{
    match signature {
        Ok(bytes) => {
            let names = default_headers();
            proof {
                lemma_default_names_plain();
            }
            let header = build_header(key_id, &names, bytes.as_slice());
            Ok(
                SignedHeaders {
                    host: String::from_str(host),
                    date: String::from_str(date),
                    digest,
                    signature: header,
                },
            )
        },
        Err(e) => Err(e),
    }
}

/// Signs an outbound request: digests the body, builds the canonical string
/// over `(request-target) host date digest`, signs it with `key` and returns
/// the four headers to attach. Fails with `SigningError` exactly where the key
/// gives no signature.
///
/// A request that arrives as it was signed is accepted: where the key
/// identifier holds no double quote, the verdict on the request with these
/// headers, the same method, path and body, under the public key of the
/// signing key published under the key identifier, is `Accepted` at every
/// moment within the window around its date.
pub fn sign_request(
    key_id: &str,
    key: &PrivateKey,
    method: &str,
    path: &str,
    host: &str,
    date: &str,
    body: &[u8],
) -> (r: Result<SignedHeaders, Error>)
    ensures
        match rsa_signature(key@, text_bytes(outbound_text(method@, path@, host@, date@, body@))) {
            Some(signature) => r matches Ok(headers) && headers.host@ == host@ && headers.date@
                == date@ && headers.digest@ == digest_text(body@) && headers.signature@
                == signed_header_text(key_id@, signature),
            None => r matches Err(e) && e == Error::SigningError,
        },
        r matches Ok(headers) ==> (forall|
            public_pem: Seq<char>,
            owner: Seq<char>,
            now: int,
            window: int,
        |
            free_of(key_id@, '"') && matching_keys(key@, public_pem) && fresh_date(
                date@,
                now,
                window,
            ) ==> #[trigger] verdict_of(
                received_unchanged(method@, path@, host@, date@, body@, headers.signature@),
                published_key(key_id@, owner, public_pem),
                now,
                window,
            ) == Verdict::Accepted),
{
    let digest_value = digest(body);
    let canonical = canonical_string(method, path, host, date, digest_value.as_str());
    let signature = sign(canonical.as_str(), key);
    let ghost signed = signature;
    let result = signed_headers(key_id, host, date, digest_value, signature);
    let ghost outcome = result;
    proof {
        match (outcome, signed) {
            (Ok(headers), Ok(bytes)) => {
                assert forall|public_pem: Seq<char>, owner: Seq<char>, now: int, window: int|
                    free_of(key_id@, '"') && matching_keys(key@, public_pem) && fresh_date(
                        date@,
                        now,
                        window,
                    ) implies #[trigger] verdict_of(
                    received_unchanged(method@, path@, host@, date@, body@, headers.signature@),
                    published_key(key_id@, owner, public_pem),
                    now,
                    window,
                ) == Verdict::Accepted by {
                    lemma_unchanged_request_is_accepted(
                        key_id@,
                        owner,
                        public_pem,
                        method@,
                        path@,
                        host@,
                        date@,
                        body@,
                        bytes@,
                        headers.signature@,
                        now,
                        window,
                    );
                }
            },
            _ => {},
        }
    }
    result
}

} // verus!
