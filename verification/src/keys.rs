//! RSA key pairs, held as PEM text: generation, loading and serialization.
use crate::error::Error;
use crate::text::free_of;
use rsa::pkcs8::{DecodePrivateKey, DecodePublicKey, EncodePrivateKey, EncodePublicKey, LineEnding};
use rsa::rand_core::{OsRng, RngCore};
use rsa::traits::{PrivateKeyParts, PublicKeyParts};
use vstd::prelude::*;

verus! {

/// The smallest modulus size, in bits, that is accepted for a new key.
pub const MIN_KEY_BITS: usize = 2048;

/// The largest modulus size, in bits, that is accepted for a new key. A key
/// above it could not be loaded: its public key is refused when it is read
/// back. Such a size is therefore refused before any key is made.
pub const MAX_KEY_BITS: usize = 4096;

/// The sizes of a private key, in bits: of its modulus and of its two primes.
#[derive(Clone, Copy, Debug, PartialEq, Eq, Structural)]
pub struct KeyShape {
    pub modulus_bits: usize,
    pub first_prime_bits: usize,
    pub second_prime_bits: usize,
}

/// The sizes of the private key that a PKCS#8 PEM text encodes, where it
/// encodes an RSA private key.
pub uninterp spec fn key_shape(private_pem: Seq<char>) -> Option<KeyShape>;

/// The public key of a private key, as PEM text with LF line endings, where
/// `private_pem` is a PKCS#8 PEM text of an RSA private key.
pub uninterp spec fn public_key_text(private_pem: Seq<char>) -> Option<Seq<char>>;

/// Whether a text is the PEM text of an RSA public key.
pub uninterp spec fn public_key_readable(pem: Seq<char>) -> bool;

/// Whether the two primes of a key are of one size, or one bit apart.
pub open spec fn balanced(shape: KeyShape) -> bool {
    shape.first_prime_bits <= shape.second_prime_bits + 1 && shape.second_prime_bits
        <= shape.first_prime_bits + 1
}

/// Whether a text encodes a private key that can be signed with: an RSA
/// private key with balanced primes. Signing with a key whose primes are far
/// apart takes time in proportion to their ratio.
pub open spec fn signable(private_pem: Seq<char>) -> bool {
    match key_shape(private_pem) {
        Some(shape) => balanced(shape),
        None => false,
    }
}

/// The form in which a public key is published: PEM text between the
/// `BEGIN PUBLIC KEY` and `END PUBLIC KEY` lines, with LF line endings only.
pub open spec fn published_form(pem: Seq<char>) -> bool {
    free_of(pem, '\r') && "-----BEGIN PUBLIC KEY-----\n"@.is_prefix_of(pem)
        && "\n-----END PUBLIC KEY-----\n"@.is_suffix_of(pem)
}

/// Whether `public_pem` is the public key of the private key `private_pem`:
/// readable, and in the form in which it is published.
pub open spec fn matching_keys(private_pem: Seq<char>, public_pem: Seq<char>) -> bool {
    public_key_text(private_pem) == Some(public_pem) && public_key_readable(public_pem)
        && published_form(public_pem)
}

/// The public key that belongs to a private key text, where that text is a
/// private key whose public key can be written and read back.
pub open spec fn usable_public_key(private_pem: Seq<char>) -> Option<Seq<char>> {
    match public_key_text(private_pem) {
        Some(public_pem) => if public_key_readable(public_pem) {
            Some(public_pem)
        } else {
            None
        },
        None => None,
    }
}

/// The public key of the pair that a private key text is loaded as, where it
/// is loaded: the key must be signable and its public key usable.
pub open spec fn loaded_public_key(private_pem: Seq<char>) -> Option<Seq<char>> {
    if signable(private_pem) {
        usable_public_key(private_pem)
    } else {
        None
    }
}

/// A private key: the PKCS#8 PEM text that encodes it. Only loading and
/// generating make one, so that every private key is signable.
#[derive(Debug, PartialEq, Eq)]
pub struct PrivateKey {
    pem: String,
}

/// A public key: the PEM text that encodes it.
#[derive(Clone, Debug, PartialEq, Eq)]
pub struct PublicKey {
    pub pem: String,
}

/// A private key with its public key. A pair is made by `generate` and by
/// `load_private_key` only, and its public key is always the one that belongs
/// to its private key.
#[derive(Debug, PartialEq, Eq)]
pub struct KeyPair {
    private_key: PrivateKey,
    public_key: PublicKey,
}

impl View for PrivateKey {
    type V = Seq<char>;

    closed spec fn view(&self) -> Seq<char> {
        self.pem@
    }
}

impl View for PublicKey {
    type V = Seq<char>;

    open spec fn view(&self) -> Seq<char> {
        self.pem@
    }
}

impl PrivateKey {
    /// The text encodes a signable key.
    #[verifier::type_invariant]
    pub open spec fn wf(&self) -> bool {
        signable(self@)
    }

    /// The PKCS#8 PEM text of the key.
    pub fn pem(&self) -> (r: &str)
        ensures
            r@ == self@,
            signable(r@),
    {
        proof {
            use_type_invariant(self);
        }
        self.pem.as_str()
    }
}

impl Clone for PrivateKey {
    fn clone(&self) -> (r: Self)
        ensures
            r@ == self@,
    {
        proof {
            use_type_invariant(self);
        }
        PrivateKey { pem: self.pem.clone() }
    }
}

impl PublicKey {
    /// The text is that of a public key.
    pub open spec fn wf(&self) -> bool {
        public_key_readable(self@)
    }
}

impl KeyPair {
    /// The PEM text of the private key.
    pub closed spec fn private_pem(&self) -> Seq<char> {
        self.private_key@
    }

    /// The PEM text of the public key.
    pub closed spec fn public_pem(&self) -> Seq<char> {
        self.public_key@
    }

    /// The private key is signable, and the public key is the one that
    /// belongs to it: readable, and in the form in which it is published.
    #[verifier::type_invariant]
    pub open spec fn wf(&self) -> bool {
        signable(self.private_pem()) && matching_keys(self.private_pem(), self.public_pem())
    }

    /// The private key, for signing.
    pub fn private_key(&self) -> (r: &PrivateKey)
        ensures
            r@ == self.private_pem(),
            self.wf(),
    {
        proof {
            use_type_invariant(self);
        }
        &self.private_key
    }

    /// The public key, for publication and verification.
    pub fn public_key(&self) -> (r: &PublicKey)
        ensures
            r@ == self.public_pem(),
            r.wf(),
            self.wf(),
    {
        proof {
            use_type_invariant(self);
        }
        &self.public_key
    }

    /// The size of the key's modulus, in bits.
    pub fn modulus_bits(&self) -> (r: usize)
        ensures
            key_shape(self.private_pem()) matches Some(shape) && r == shape.modulus_bits,
    {
        proof {
            use_type_invariant(self);
        }
        match key_shape_of(self.private_key.pem.as_str()) {
            Some(shape) => shape.modulus_bits,
            None => 0,
        }
    }
}

impl Clone for KeyPair {
    fn clone(&self) -> (r: Self)
        ensures
            r.private_pem() == self.private_pem(),
            r.public_pem() == self.public_pem(),
    {
        proof {
            use_type_invariant(self);
        }
        KeyPair {
            private_key: self.private_key.clone(),
            public_key: PublicKey { pem: self.public_key.pem.clone() },
        }
    }
}

/// Asks the operating system's random source, `rsa::rand_core::OsRng`, for
/// one byte through `try_fill_bytes` and says whether it answered. Nothing is
/// promised of the answer: it depends on the machine.
#[verifier::external_body]
fn random_source_ready() -> bool {
    let mut probe = [0u8; 1];
    OsRng.try_fill_bytes(&mut probe).is_ok()
}

/// Calls `rsa::RsaPrivateKey::new` with `OsRng` for a key of `bits` bits and
/// writes it with `to_pkcs8_pem` and LF line endings. Nothing is promised of
/// the result, which is random; `None` stands for an error of either call.
#[verifier::external_body]
fn new_private_pem(bits: usize) -> (r: Option<String>)
    requires
        MIN_KEY_BITS <= bits <= MAX_KEY_BITS,
{
    let key = rsa::RsaPrivateKey::new(&mut OsRng, bits).ok()?;
    let pem = key.to_pkcs8_pem(LineEnding::LF).ok()?;
    Some(pem.to_string())
}

/// Reads `private_pem` with `rsa::RsaPrivateKey::from_pkcs8_pem` and gives
/// the `bits` of its modulus `n` and of its two `primes`. Trusted: the result
/// depends on the text alone and is `None` where the text is no private key.
#[verifier::external_body]
fn key_shape_of(private_pem: &str) -> (r: Option<KeyShape>)
    ensures
        r == key_shape(private_pem@),
{
    let key = rsa::RsaPrivateKey::from_pkcs8_pem(private_pem).ok()?;
    let primes = key.primes();
    Some(
        KeyShape {
            modulus_bits: key.n().bits(),
            first_prime_bits: primes.first()?.bits(),
            second_prime_bits: primes.get(1)?.bits(),
        },
    )
}

/// Reads `private_pem` with `rsa::RsaPrivateKey::from_pkcs8_pem`, takes the
/// public half with `rsa::RsaPublicKey::from` and writes it with
/// `to_public_key_pem` and LF line endings. Trusted: the result depends on the
/// text alone and is `None` where the text is no private key or the public key
/// cannot be written; it begins with the `BEGIN PUBLIC KEY` line, ends with
/// the `END PUBLIC KEY` line and holds no carriage return, as the PEM encoder
/// writes it.
#[verifier::external_body]
fn public_pem_of(private_pem: &str) -> (r: Option<String>)
    ensures
        match r {
            Some(pem) => public_key_text(private_pem@) == Some(pem@) && published_form(pem@),
            None => public_key_text(private_pem@) is None,
        },
{
    let key = rsa::RsaPrivateKey::from_pkcs8_pem(private_pem).ok()?;
    rsa::RsaPublicKey::from(&key).to_public_key_pem(LineEnding::LF).ok()
}

/// Says whether `rsa::RsaPublicKey::from_public_key_pem` reads `pem` as a
/// public key. Trusted: the answer depends on the text alone.
#[verifier::external_body]
fn public_pem_readable(pem: &str) -> (r: bool)
    ensures
        r == public_key_readable(pem@),
{
    rsa::RsaPublicKey::from_public_key_pem(pem).is_ok()
}

/// Whether the two primes of a key are of one size, or one bit apart.
pub fn is_balanced(shape: KeyShape) -> (r: bool)
    ensures
        r == balanced(shape),
{
    if shape.first_prime_bits <= shape.second_prime_bits {
        shape.second_prime_bits - shape.first_prime_bits <= 1
    } else {
        shape.first_prime_bits - shape.second_prime_bits <= 1
    }
}

/// Loads a pair and gives the sizes of its key with it.
fn load_with_shape(pem: &str) -> (r: Option<(KeyPair, KeyShape)>)
    ensures
        match loaded_public_key(pem@) {
            Some(public_pem) => r matches Some(found) && found.0.private_pem() == pem@
                && found.0.public_pem() == public_pem && found.0.wf() && key_shape(pem@) == Some(
                found.1,
            ),
            None => r is None,
        },
{
    let shape = match key_shape_of(pem) {
        Some(shape) => shape,
        None => {
            return None;
        },
    };
    if !is_balanced(shape) {
        return None;
    }
    let public_pem = match public_pem_of(pem) {
        Some(public_pem) => public_pem,
        None => {
            return None;
        },
    };
    if !public_pem_readable(public_pem.as_str()) {
        return None;
    }
    let pair = KeyPair {
        private_key: PrivateKey { pem: String::from_str(pem) },
        public_key: PublicKey { pem: public_pem },
    };
    Some((pair, shape))
}

/// Loads a key pair from the PKCS#8 PEM text of its private key. The text is
/// refused with `KeyFormatError` where it is no RSA private key, where the
/// sizes of its two primes are more than one bit apart, or where its public
/// key cannot be written and read back.
pub fn load_private_key(pem: &str) -> (r: Result<KeyPair, Error>)
    ensures
        match loaded_public_key(pem@) {
            Some(public_pem) => r matches Ok(pair) && pair.private_pem() == pem@
                && pair.public_pem() == public_pem && pair.wf(),
            None => r matches Err(e) && e == Error::KeyFormatError,
        },
{
    match load_with_shape(pem) {
        Some(found) => Ok(found.0),
        None => Err(Error::KeyFormatError),
    }
}

/// Loads a public key from its PEM text, which is refused with
/// `KeyFormatError` where it is no RSA public key.
pub fn load_public_key(pem: &str) -> (r: Result<PublicKey, Error>)
    ensures
        public_key_readable(pem@) ==> (r matches Ok(key) && key@ == pem@ && key.wf()),
        !public_key_readable(pem@) ==> (r matches Err(e) && e == Error::KeyFormatError),
{
    if public_pem_readable(pem) {
        Ok(PublicKey { pem: String::from_str(pem) })
    } else {
        Err(Error::KeyFormatError)
    }
}

/// Whether a private key text is loaded as a pair whose modulus has `bits` bits.
pub open spec fn loaded_with_size(private_pem: Seq<char>, bits: usize) -> bool {
    loaded_public_key(private_pem) is Some && match key_shape(private_pem) {
        Some(shape) => shape.modulus_bits == bits,
        None => false,
    }
}

/// The key pair of a freshly generated private key, given as PEM text, that
/// was to have `bits` bits. It is `KeyGenerationError` where there is no text,
/// where the text cannot be loaded, and where the key is not of that size.
pub fn generated_pair(private_pem: Option<String>, bits: usize) -> (r: Result<KeyPair, Error>)
    ensures
        match private_pem {
            Some(pem) => if loaded_with_size(pem@, bits) {
                r matches Ok(pair) && pair.private_pem() == pem@ && Some(pair.public_pem())
                    == loaded_public_key(pem@) && pair.wf()
            } else {
                r matches Err(e) && e == Error::KeyGenerationError
            },
            None => r matches Err(e) && e == Error::KeyGenerationError,
        },
{
    match private_pem {
        Some(pem) => match load_with_shape(pem.as_str()) {
            Some(found) => {
                if found.1.modulus_bits == bits {
                    Ok(found.0)
                } else {
                    Err(Error::KeyGenerationError)
                }
            },
            None => Err(Error::KeyGenerationError),
        },
        None => Err(Error::KeyGenerationError),
    }
}

/// Generates a key pair with a modulus of exactly `bits` bits. A size below
/// `MIN_KEY_BITS` or above `MAX_KEY_BITS` is refused; so is the request where
/// the random source does not answer or the generated key cannot be used.
/// Every failure is a `KeyGenerationError`; a pair that is returned is well
/// formed and of the size that was asked for.
pub fn generate(bits: usize) -> (r: Result<KeyPair, Error>)
    ensures
        !(MIN_KEY_BITS <= bits <= MAX_KEY_BITS) ==> r is Err,
        r matches Ok(pair) ==> pair.wf() && loaded_with_size(pair.private_pem(), bits),
        r matches Err(e) ==> e == Error::KeyGenerationError,
{
    if bits < MIN_KEY_BITS || bits > MAX_KEY_BITS {
        return Err(Error::KeyGenerationError);
    }
    if !random_source_ready() {
        return Err(Error::KeyGenerationError);
    }
    generated_pair(new_private_pem(bits), bits)
}

/// The public key of a pair as PEM text: between the `BEGIN PUBLIC KEY` and
/// `END PUBLIC KEY` lines, with LF line endings only.
pub fn serialize_public_key(pair: &KeyPair) -> (r: String)
    ensures
        r@ == pair.public_pem(),
        matching_keys(pair.private_pem(), r@),
        published_form(r@),
{
    pair.public_key().pem.clone()
}

/// The private key of a pair as PKCS#8 PEM text, from which
/// `load_private_key` gives the pair back.
pub fn serialize_private_key(pair: &KeyPair) -> (r: String)
    ensures
        r@ == pair.private_pem(),
        loaded_public_key(r@) == Some(pair.public_pem()),
{
    let key = pair.private_key();
    String::from_str(key.pem())
}

} // verus!
