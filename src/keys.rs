use vstd::prelude::*;
use crate::bytes::copy_bytes;
use crate::error::Error;
use crate::hexadecimal::{from_hex, hex_text, lemma_unhex_hex, to_hex, unhex};

verus! {

/// The Ed25519 public key of a 32-byte secret key.
pub uninterp spec fn ed25519_public_of(secret: Seq<u8>) -> Seq<u8>;

/// The Ed25519 signature of `msg` under a 32-byte secret key; Ed25519
/// signing is deterministic.
pub uninterp spec fn ed25519_signature_of(secret: Seq<u8>, msg: Seq<u8>) -> Seq<u8>;

/// Whether `sig` is a valid Ed25519 signature of `msg` under `public`.
pub uninterp spec fn ed25519_accepts(public: Seq<u8>, msg: Seq<u8>, sig: Seq<u8>) -> bool;

/// The X25519 function: the scalar `k`, clamped, times the curve point `u`.
pub uninterp spec fn x25519_of(k: Seq<u8>, u: Seq<u8>) -> Seq<u8>;

/// Relies on `rand::random`: 32 bytes drawn from the thread-local generator.
#[verifier::external_body]
fn random_secret() -> (r: Vec<u8>)
    ensures
        r@.len() == 32,
{
    rand::random::<[u8; 32]>().to_vec()
}

/// Relies on `ed25519_dalek::SigningKey::verifying_key`: the 32-byte public
/// key of a secret key, which depends on the secret alone.
#[verifier::external_body]
fn ed25519_public(secret: &[u8]) -> (r: Vec<u8>)
    requires
        secret@.len() == 32,
    ensures
        r@ == ed25519_public_of(secret@),
        r@.len() == 32,
{
    let k: [u8; 32] = secret.try_into().unwrap();
    ed25519_dalek::SigningKey::from_bytes(&k).verifying_key().to_bytes().to_vec()
}

/// Relies on `ed25519_dalek::SigningKey::sign`: a 64-byte signature that
/// depends on the secret key and the message alone.
#[verifier::external_body]
fn ed25519_sign(secret: &[u8], msg: &[u8]) -> (r: Vec<u8>)
    requires
        secret@.len() == 32,
    ensures
        r@ == ed25519_signature_of(secret@, msg@),
        r@.len() == 64,
{
    let k: [u8; 32] = secret.try_into().unwrap();
    let sk = ed25519_dalek::SigningKey::from_bytes(&k);
    ed25519_dalek::Signer::sign(&sk, msg).to_bytes().to_vec()
}

/// Relies on `ed25519_dalek::VerifyingKey::verify_strict`, after
/// `VerifyingKey::from_bytes`: whether the signature is valid; a public key
/// that is not a curve point verifies nothing.
#[verifier::external_body]
fn ed25519_verify(public: &[u8], msg: &[u8], sig: &[u8]) -> (r: bool)
    requires
        public@.len() == 32,
        sig@.len() == 64,
    ensures
        r == ed25519_accepts(public@, msg@, sig@),
{
    let p: [u8; 32] = public.try_into().unwrap();
    let s: [u8; 64] = sig.try_into().unwrap();
    match ed25519_dalek::VerifyingKey::from_bytes(&p) {
        Ok(vk) => vk.verify_strict(msg, &ed25519_dalek::Signature::from_bytes(&s)).is_ok(),
        Err(_) => false,
    }
}

/// Relies on `x25519_dalek::x25519`: 32 bytes that depend on the two
/// arguments alone. As its documentation shows, two parties agree: when `u`
/// is the public key `x25519(j, basepoint)` of a 32-byte secret `j`, the
/// result is `x25519(j, x25519(k, basepoint))`.
#[verifier::external_body]
fn x25519(k: &[u8], u: &[u8]) -> (r: Vec<u8>)
    requires
        k@.len() == 32,
        u@.len() == 32,
    ensures
        r@ == x25519_of(k@, u@),
        r@.len() == 32,
        forall|j: Seq<u8>|
            j.len() == 32 && u@ == #[trigger] x25519_of(j, x25519_basepoint()) ==> r@ == x25519_of(
                j,
                x25519_of(k@, x25519_basepoint()),
            ),
{
    let a: [u8; 32] = k.try_into().unwrap();
    let b: [u8; 32] = u.try_into().unwrap();
    x25519_dalek::x25519(a, b).to_vec()
}

/// The X25519 base point: the u-coordinate 9.
pub open spec fn x25519_basepoint() -> Seq<u8> {
    Seq::new(32, |i: int| if i == 0 { 9u8 } else { 0u8 })
}

fn basepoint() -> (r: Vec<u8>)
    ensures
        r@ == x25519_basepoint(),
{
    let mut out: Vec<u8> = Vec::new();
    out.push(9);
    let mut i: usize = 1;
    while i < 32
        invariant
            1 <= i <= 32,
            out@ =~= x25519_basepoint().subrange(0, i as int),
        decreases 32 - i,
    {
        out.push(0);
        i = i + 1;
    }
    assert(out@ =~= x25519_basepoint());
    out
}

/// Whether `signature` is a valid Ed25519 signature of `message` under
/// `public`; keys that are not 32 bytes long and signatures that are not 64
/// bytes long are refused.
pub fn verify_signature(public: &[u8], message: &[u8], signature: &[u8]) -> (r: bool)
    ensures
        r == (public@.len() == 32 && signature@.len() == 64 && ed25519_accepts(
            public@,
            message@,
            signature@,
        )),
{
    if public.len() != 32 || signature.len() != 64 {
        return false;
    }
    ed25519_verify(public, message, signature)
}

/// An Ed25519 key pair: the identity of a participant.
pub struct KeyPair {
    public_key: Vec<u8>,
    secret_key: Vec<u8>,
}

impl KeyPair {
    /// The secret key of the pair.
    pub closed spec fn secret(&self) -> Seq<u8> {
        self.secret_key@
    }

    /// The public key of the pair.
    pub closed spec fn public(&self) -> Seq<u8> {
        self.public_key@
    }

    /// A 32-byte secret key and the public key derived from it.
    pub open spec fn wf(&self) -> bool {
        &&& self.secret().len() == 32
        &&& self.public() == ed25519_public_of(self.secret())
        &&& self.public().len() == 32
    }

    /// A fresh key pair from a random secret key.
    pub fn generate() -> (r: KeyPair)
        ensures
            r.wf(),
    {
        let secret_key = random_secret();
        let public_key = ed25519_public(secret_key.as_slice());
        KeyPair { public_key, secret_key }
    }

    /// A key pair from its two halves. The secret key must have 32 bytes and
    /// the public key must be the one it derives; otherwise `CryptoError`.
    pub fn from_bytes(public_bytes: &[u8], secret_bytes: &[u8]) -> (r: Result<KeyPair, Error>)
        ensures
            match r {
                Ok(k) => k.wf() && k.public() == public_bytes@ && k.secret() == secret_bytes@,
                Err(e) => e == Error::CryptoError && !(secret_bytes@.len() == 32 && public_bytes@
                    == ed25519_public_of(secret_bytes@)),
            },
    {
        if secret_bytes.len() != 32 {
            return Err(Error::CryptoError);
        }
        let derived = ed25519_public(secret_bytes);
        if !crate::bytes::bytes_eq(derived.as_slice(), public_bytes) {
            return Err(Error::CryptoError);
        }
        Ok(KeyPair { public_key: derived, secret_key: copy_bytes(secret_bytes) })
    }

    /// The public key, which identifies the participant.
    pub fn public_key(&self) -> (r: &[u8])
        ensures
            r@ == self.public(),
    {
        self.public_key.as_slice()
    }

    /// A copy of the secret key, for the driver to persist.
    pub fn secret_key_bytes(&self) -> (r: Vec<u8>)
        ensures
            r@ == self.secret(),
    {
        copy_bytes(self.secret_key.as_slice())
    }

    /// Signs `message` with the secret key.
    pub fn sign(&self, message: &[u8]) -> (r: Vec<u8>)
        requires
            self.wf(),
        ensures
            r@ == ed25519_signature_of(self.secret(), message@),
            r@.len() == 64,
    {
        ed25519_sign(self.secret_key.as_slice(), message)
    }

    /// Whether `signature` is a valid signature of `message` under the public
    /// key; one that is not 64 bytes long is not.
    pub fn verify(&self, message: &[u8], signature: &[u8]) -> (r: bool)
        requires
            self.wf(),
        ensures
            r == (signature@.len() == 64 && ed25519_accepts(self.public(), message@, signature@)),
    {
        verify_signature(self.public_key.as_slice(), message, signature)
    }

    /// The hex texts of the public and the secret key, as ASCII bytes.
    pub fn to_hex_strings(&self) -> (r: (Vec<u8>, Vec<u8>))
        ensures
            r.0@ == hex_text(self.public()),
            r.1@ == hex_text(self.secret()),
    {
        (to_hex(self.public_key.as_slice()), to_hex(self.secret_key.as_slice()))
    }

    /// The hex texts that `to_hex_strings` writes read back, through
    /// `from_hex_strings`, as the same key pair.
    pub proof fn lemma_hex_strings_round_trip(&self)
        requires
            self.wf(),
        ensures
            unhex(hex_text(self.public())) == Some(self.public()),
            unhex(hex_text(self.secret())) == Some(self.secret()),
    {
        lemma_unhex_hex(self.public());
        lemma_unhex_hex(self.secret());
    }

    /// A key pair from the hex texts (ASCII bytes) of its halves: text that is not hex
    /// gives `SerializationError`, halves that do not form a pair give
    /// `CryptoError`.
    pub fn from_hex_strings(public_hex: &[u8], secret_hex: &[u8]) -> (r: Result<KeyPair, Error>)
        ensures
            match r {
                Ok(k) => k.wf() && unhex(public_hex@) == Some(k.public()) && unhex(
                    secret_hex@,
                ) == Some(k.secret()),
                Err(Error::SerializationError) => unhex(public_hex@) is None || unhex(
                    secret_hex@,
                ) is None,
                Err(Error::CryptoError) => unhex(public_hex@) is Some && unhex(
                    secret_hex@,
                ) is Some && !(unhex(secret_hex@)->0.len() == 32 && unhex(
                    public_hex@,
                )->0 == ed25519_public_of(unhex(secret_hex@)->0)),
                Err(_) => false,
            },
    {
        let public_bytes = from_hex(public_hex)?;
        let secret_bytes = from_hex(secret_hex)?;
        KeyPair::from_bytes(public_bytes.as_slice(), secret_bytes.as_slice())
    }
}

/// Whether every byte is zero.
pub open spec fn all_zero(b: Seq<u8>) -> bool {
    forall|i: int| 0 <= i < b.len() ==> b[i] == 0
}

fn is_all_zero(b: &[u8]) -> (r: bool)
    ensures
        r == all_zero(b@),
{
    let mut i: usize = 0;
    while i < b.len()
        invariant
            i <= b@.len(),
            forall|j: int| 0 <= j < i ==> b@[j] == 0,
        decreases b@.len() - i,
    {
        if b[i] != 0 {
            return false;
        }
        i = i + 1;
    }
    true
}

/// An X25519 key pair, used once to derive the secret under which a reveal
/// is encrypted.
pub struct DHKeyExchange {
    secret: Vec<u8>,
    public: Vec<u8>,
}

impl DHKeyExchange {
    pub closed spec fn secret(&self) -> Seq<u8> {
        self.secret@
    }

    pub closed spec fn public(&self) -> Seq<u8> {
        self.public@
    }

    /// A 32-byte secret and the public key derived from it.
    pub open spec fn wf(&self) -> bool {
        &&& self.secret().len() == 32
        &&& self.public() == x25519_of(self.secret(), x25519_basepoint())
        &&& self.public().len() == 32
    }

    /// A fresh key pair from a random secret.
    pub fn generate() -> (r: DHKeyExchange)
        ensures
            r.wf(),
    {
        let secret = random_secret();
        let public = x25519(secret.as_slice(), basepoint().as_slice());
        DHKeyExchange { secret, public }
    }

    /// The key pair of a stored secret, which must have 32 bytes; otherwise
    /// `CryptoError`.
    pub fn from_secret_bytes(secret_bytes: &[u8]) -> (r: Result<DHKeyExchange, Error>)
        ensures
            match r {
                Ok(k) => k.wf() && k.secret() == secret_bytes@,
                Err(e) => e == Error::CryptoError && secret_bytes@.len() != 32,
            },
    {
        if secret_bytes.len() != 32 {
            return Err(Error::CryptoError);
        }
        let public = x25519(secret_bytes, basepoint().as_slice());
        Ok(DHKeyExchange { secret: copy_bytes(secret_bytes), public })
    }

    /// The public key, handed to the peer.
    pub fn public_key(&self) -> (r: &[u8])
        ensures
            r@ == self.public(),
    {
        self.public.as_slice()
    }

    /// A copy of the secret, for the driver to persist.
    pub fn secret_key(&self) -> (r: Vec<u8>)
        ensures
            r@ == self.secret(),
    {
        copy_bytes(self.secret.as_slice())
    }

    /// The secret shared with the holder of `peer_public`. A peer key that is
    /// not 32 bytes long, or one that makes the exchange non-contributory
    /// (an all-zero result), gives `CryptoError`.
    pub fn compute_shared_secret(&self, peer_public: &[u8]) -> (r: Result<Vec<u8>, Error>)
        requires
            self.wf(),
        ensures
            match r {
                Ok(s) => peer_public@.len() == 32 && s@ == x25519_of(self.secret(), peer_public@)
                    && !all_zero(s@) && s@.len() == 32 && forall|peer: DHKeyExchange|
                    peer.wf() && peer_public@ == #[trigger] peer.public() ==> s@ == x25519_of(
                        peer.secret(),
                        self.public(),
                    ),
                Err(e) => e == Error::CryptoError && (peer_public@.len() != 32 || all_zero(
                    x25519_of(self.secret(), peer_public@),
                )),
            },
    {
        if peer_public.len() != 32 {
            return Err(Error::CryptoError);
        }
        let s = x25519(self.secret.as_slice(), peer_public);
        if is_all_zero(s.as_slice()) {
            return Err(Error::CryptoError);
        }
        Ok(s)
    }
}

} // verus!
