//! RSA private keys and RS256 (RSASSA-PKCS1-v1_5 with SHA-256), computed by
//! `ring`. The spec functions below name what `ring` returns; each is a
//! function of its arguments alone (PKCS#1 v1.5 signing is deterministic).

use ring::signature::KeyPair as _;
use ring::rand::SystemRandom;
use ring::signature::RsaKeyPair;
use vstd::prelude::*;

verus! {

#[verifier::external_type_specification]
#[verifier::external_body]
pub struct ExRsaKeyPair(RsaKeyPair);

#[verifier::external_type_specification]
#[verifier::external_body]
pub struct ExSystemRandom(SystemRandom);

/// Whether `ring` accepts `der` as a DER `RSAPrivateKey` (RFC 8017 A.1.2).
pub uninterp spec fn rsa_der_accepted(der: Seq<u8>) -> bool;

/// The byte length of the public modulus of the key encoded by `der`.
pub uninterp spec fn rsa_modulus_len(der: Seq<u8>) -> nat;

/// The DER `RSAPublicKey` of the key encoded by `der`.
pub uninterp spec fn rsa_public_key_of(der: Seq<u8>) -> Seq<u8>;

/// The RS256 signature of `msg` under the private key encoded by `der`.
pub uninterp spec fn rs256_signature(der: Seq<u8>, msg: Seq<u8>) -> Seq<u8>;

/// Whether `ring` signs `msg` with the private key encoded by `der`
/// (`RsaKeyPair::sign` returns `Ok`); its result depends on the key and the
/// message alone.
pub uninterp spec fn rs256_signs(der: Seq<u8>, msg: Seq<u8>) -> bool;

/// Whether `sig` is a valid RS256 signature of `msg` under the DER
/// `RSAPublicKey` `public_key`.
pub uninterp spec fn rs256_valid(public_key: Seq<u8>, msg: Seq<u8>, sig: Seq<u8>) -> bool;

/// Relies on `ring::signature::RsaKeyPair::from_der`, which parses and
/// validates a DER `RSAPrivateKey`.
#[verifier::external_body]
fn parse_rsa_der(der: &[u8]) -> (r: Option<RsaKeyPair>)
    ensures
        r is Some <==> rsa_der_accepted(der@),
{
    RsaKeyPair::from_der(der).ok()
}

/// Relies on `ring::rand::SystemRandom::new`, the operating system's random
/// source. RS256 signing does not draw from it.
#[verifier::external_body]
fn system_random() -> SystemRandom {
    SystemRandom::new()
}

/// Relies on `ring::signature::UnparsedPublicKey::verify` with
/// `RSA_PKCS1_2048_8192_SHA256`.
#[verifier::external_body]
pub(crate) fn rs256_verify(public_key: &[u8], msg: &[u8], sig: &[u8]) -> (r: bool)
    ensures
        r == rs256_valid(public_key@, msg@, sig@),
{
    ring::signature::UnparsedPublicKey::new(&ring::signature::RSA_PKCS1_2048_8192_SHA256, public_key)
        .verify(msg, sig).is_ok()
}

/// An RSA private key together with the DER bytes that it was parsed from.
/// `from_der` is the only constructor, so `pair` is always the key that
/// `ring` parsed from `der`.
pub struct RsaKey {
    pair: RsaKeyPair,
    der: Vec<u8>,
}

impl View for RsaKey {
    type V = Seq<u8>;

    closed spec fn view(&self) -> Seq<u8> {
        self.der@
    }
}

impl RsaKey {
    /// Parses a DER `RSAPrivateKey`; `None` where `ring` rejects it.
    pub fn from_der(der: &[u8]) -> (r: Option<RsaKey>)
        ensures
            r is Some <==> rsa_der_accepted(der@),
            r matches Some(k) ==> k@ == der@,
    {
        match parse_rsa_der(der) {
            Some(pair) => Some(RsaKey { pair, der: vstd::slice::slice_to_vec(der) }),
            None => None,
        }
    }

    /// Relies on `ring`'s `PublicKey::modulus_len` (of `RsaKeyPair::public`).
    /// `ring` accepts private keys whose modulus has 2048 to 4096 bits.
    #[verifier::external_body]
    pub(crate) fn modulus_len(&self) -> (r: usize)
        ensures
            r == rsa_modulus_len(self@),
            256 <= r <= 512,
    {
        self.pair.public().modulus_len()
    }

    /// Relies on `ring`'s `PublicKey` as `AsRef<[u8]>`: the DER
    /// `RSAPublicKey` of this key.
    #[verifier::external_body]
    pub(crate) fn public_key_der(&self) -> (r: Vec<u8>)
        ensures
            r@ == rsa_public_key_of(self@),
    {
        self.pair.public_key().as_ref().to_vec()
    }

    /// Relies on `ring::signature::RsaKeyPair::sign` with `RSA_PKCS1_SHA256`:
    /// with `out` as long as the modulus, it succeeds or fails according to
    /// the key and `msg` alone (PKCS#1 v1.5 padding does not draw from the
    /// rng), and on success writes the signature of `msg` over all of `out`.
    /// Before returning, `ring` checks that the signature raised to the public
    /// exponent gives back the padded digest, so a signature that it returns
    /// verifies under the key's public key.
    #[verifier::external_body]
    fn sign_into(&self, rng: &SystemRandom, msg: &[u8], out: &mut Vec<u8>) -> (r: bool)
        requires
            old(out)@.len() == rsa_modulus_len(self@),
        ensures
            final(out)@.len() == old(out)@.len(),
            r == rs256_signs(self@, msg@),
            r ==> final(out)@ == rs256_signature(self@, msg@),
            r ==> rs256_valid(rsa_public_key_of(self@), msg@, final(out)@),
    {
        self.pair.sign(&ring::signature::RSA_PKCS1_SHA256, rng, msg, out.as_mut_slice()).is_ok()
    }

    /// The RS256 signature of `msg`, as long as the modulus; `None` where
    /// `ring` reports a failure.
    pub fn sign(&self, msg: &[u8]) -> (r: Option<Vec<u8>>)
        ensures
            r is Some <==> rs256_signs(self@, msg@),
            r matches Some(sig) ==> {
                &&& rs256_valid(rsa_public_key_of(self@), msg@, sig@)
                &&& sig@ == rs256_signature(self@, msg@)
                &&& sig@.len() == rsa_modulus_len(self@)
                &&& rsa_modulus_len(self@) >= 256
            },
    {
        let n = self.modulus_len();
        let mut out: Vec<u8> = vec![0u8; n];
        let rng = system_random();
        if self.sign_into(&rng, msg, &mut out) {
            Some(out)
        } else {
            None
        }
    }
}

} // verus!
