//! ECDSA key pairs over secp256k1, held as bytes.

use ecdsa::signature::{Signer, Verifier};
use ecdsa::{SigningKey, VerifyingKey};
use k256::ecdsa::Signature;
use k256::Secp256k1;
use vstd::prelude::*;

verus! {

/// The SEC1 encoding, compressed, of the verifying key that belongs to a
/// secret scalar given as big-endian bytes: thirty-two of them, or at least
/// twenty-four that are read as if zeros stood before them. `None` where the
/// bytes are not a scalar that can sign.
pub uninterp spec fn public_key_of(secret: Seq<u8>) -> Option<Seq<u8>>;

/// The DER encoding of the ECDSA signature that a secret scalar makes of a
/// message; the signing is deterministic. `None` where the bytes are not a
/// scalar that can sign, or where the signing procedure gives up.
pub uninterp spec fn signature_of(secret: Seq<u8>, message: Seq<char>) -> Option<Seq<u8>>;

/// Whether the bytes `signature` are the DER encoding of a signature of
/// `message` that verifies under the SEC1-encoded key `public_key`. False
/// where either encoding is malformed.
pub uninterp spec fn signature_verifies(
    public_key: Seq<u8>,
    message: Seq<char>,
    signature: Seq<u8>,
) -> bool;

/// Draws a signing key with `SigningKey::random` from `rand::thread_rng` and
/// returns its bytes together with the SEC1 encoding of its `verifying_key`.
/// The bytes of a signing key read back as the same signing key.
#[verifier::external_body]
fn random_pair() -> (pair: (Vec<u8>, Vec<u8>))
    ensures
        public_key_of(pair.0@) == Some(pair.1@),
{
    let key: SigningKey<Secp256k1> = SigningKey::random(&mut rand::thread_rng());
    (key.to_bytes().to_vec(), key.verifying_key().to_sec1_bytes().to_vec())
}

/// Reads the bytes with `SigningKey::from_slice` and encodes the key's
/// `verifying_key` with `to_sec1_bytes`.
#[verifier::external_body]
fn derive_public(secret: &Vec<u8>) -> (public: Option<Vec<u8>>)
    ensures
        match public {
            Some(p) => public_key_of(secret@) == Some(p@),
            None => public_key_of(secret@) is None,
        },
{
    match SigningKey::<Secp256k1>::from_slice(secret) {
        Ok(key) => Some(key.verifying_key().to_sec1_bytes().to_vec()),
        Err(_) => None,
    }
}

/// Reads the bytes with `SigningKey::from_slice`, signs the message's bytes
/// with `Signer::try_sign` and encodes the signature with `to_der`. A
/// signature made this way verifies under the verifying key of the same
/// secret.
#[verifier::external_body]
fn sign_message(secret: &Vec<u8>, message: &str) -> (signature: Option<Vec<u8>>)
    ensures
        match signature {
            Some(s) => {
                &&& signature_of(secret@, message@) == Some(s@)
                &&& public_key_of(secret@) is Some
                &&& signature_verifies(public_key_of(secret@).unwrap(), message@, s@)
            },
            None => signature_of(secret@, message@) is None,
        },
{
    let key = match SigningKey::<Secp256k1>::from_slice(secret) {
        Ok(key) => key,
        Err(_) => return None,
    };
    let made: Result<Signature, _> = key.try_sign(message.as_bytes());
    match made {
        Ok(signature) => Some(signature.to_der().as_bytes().to_vec()),
        Err(_) => None,
    }
}

/// Reads the key with `VerifyingKey::from_sec1_bytes` and the signature with
/// `Signature::from_der`, then calls `Verifier::verify` on the message's
/// bytes. A key or signature that cannot be read verifies nothing.
#[verifier::external_body]
pub(crate) fn verify_message(public_key: &Vec<u8>, message: &str, signature: &Vec<u8>) -> (ok:
    bool)
    ensures
        ok == signature_verifies(public_key@, message@, signature@),
{
    let key = match VerifyingKey::<Secp256k1>::from_sec1_bytes(public_key) {
        Ok(key) => key,
        Err(_) => return false,
    };
    match Signature::from_der(signature) {
        Ok(signature) => key.verify(message.as_bytes(), &signature).is_ok(),
        Err(_) => false,
    }
}

/// A secret scalar together with the encoding of its verifying key.
pub struct KeyPair {
    secret: Vec<u8>,
    public: Vec<u8>,
}

impl KeyPair {
    #[verifier::type_invariant]
    spec fn matched(self) -> bool {
        public_key_of(self.secret@) == Some(self.public@)
    }

    /// The secret scalar, big-endian.
    pub closed spec fn secret_bytes(self) -> Seq<u8> {
        self.secret@
    }

    /// The SEC1 encoding of the verifying key.
    pub closed spec fn public_bytes(self) -> Seq<u8> {
        self.public@
    }

    /// A fresh random key pair. Whichever secret is drawn, the public key is
    /// the one that belongs to it.
    pub fn generate() -> (pair: KeyPair)
        ensures
            public_key_of(pair.secret_bytes()) == Some(pair.public_bytes()),
    {
        let (secret, public) = random_pair();
        KeyPair { secret, public }
    }

    /// The key pair of a given secret scalar, if the bytes are one.
    pub fn from_secret(secret: Vec<u8>) -> (pair: Option<KeyPair>)
        ensures
            pair is Some <==> public_key_of(secret@) is Some,
            pair is Some ==> pair.unwrap().secret_bytes() == secret@,
            pair is Some ==> public_key_of(secret@) == Some(pair.unwrap().public_bytes()),
    {
        match derive_public(&secret) {
            Some(public) => Some(KeyPair { secret, public }),
            None => None,
        }
    }

    /// The SEC1 encoding of the verifying key.
    pub fn verifying_key(&self) -> (public: &Vec<u8>)
        ensures
            public@ == self.public_bytes(),
            public_key_of(self.secret_bytes()) == Some(self.public_bytes()),
    {
        proof {
            use_type_invariant(self);
        }
        &self.public
    }

    /// Signs a message; the signature is DER-encoded. A signature that is
    /// returned verifies under this pair's verifying key.
    pub fn sign(&self, message: &str) -> (signature: Option<Vec<u8>>)
        ensures
            match signature {
                Some(s) => {
                    &&& signature_of(self.secret_bytes(), message@) == Some(s@)
                    &&& signature_verifies(self.public_bytes(), message@, s@)
                },
                None => signature_of(self.secret_bytes(), message@) is None,
            },
    {
        proof {
            use_type_invariant(self);
        }
        sign_message(&self.secret, message)
    }
}

impl Clone for KeyPair {
    fn clone(&self) -> (copy: Self)
        ensures
            copy.secret_bytes() == self.secret_bytes(),
            copy.public_bytes() == self.public_bytes(),
    {
        proof {
            use_type_invariant(self);
        }
        KeyPair { secret: self.secret.clone(), public: self.public.clone() }
    }
}

} // verus!
