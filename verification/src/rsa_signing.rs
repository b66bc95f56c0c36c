//! RSA signatures (PKCS#1 v1.5 with SHA-256) with a key read from PEM text,
//! by the `rustls-pki-types` and `aws-lc-rs` crates.
//!
//! The PEM text is decoded and the key parsed and used by those crates; the
//! library states which input gives which outcome, and that a signature is
//! the one the key gives for the message.
use aws_lc_rs::error::Unspecified;
use aws_lc_rs::signature::RsaKeyPair as LcRsaKeyPair;
use rustls_pki_types::pem::PemObject;
use rustls_pki_types::PrivatePkcs8KeyDer;
use std::sync::Arc;
use vstd::prelude::*;
use vstd::utf8::encode_utf8;

verus! {

/// An RSA key pair of the `aws-lc-rs` crate.
#[verifier::external_type_specification]
#[verifier::external_body]
pub struct ExternalRsaKeyPair(LcRsaKeyPair);

/// The error of `aws-lc-rs` when an operation fails.
#[verifier::external_type_specification]
#[verifier::external_body]
pub struct ExternalUnspecified(Unspecified);

/// The DER bytes of the first PKCS#8 private key section (`BEGIN PRIVATE
/// KEY`) of the PEM text `pem`, or `None` when the text holds no such
/// section or cannot be read.
pub uninterp spec fn pem_private_key(pem: Seq<u8>) -> Option<Seq<u8>>;

/// The text (`Display`) of the error that reading the first PKCS#8 private
/// key section of the PEM text `pem` reports, when there is no such
/// readable section.
pub uninterp spec fn pem_error_text(pem: Seq<u8>) -> Seq<char>;

/// The text (`Display` of `KeyRejected`) of the reason why `aws-lc-rs`
/// refuses `der` as an RSA private key.
pub uninterp spec fn rsa_key_rejection_text(der: Seq<u8>) -> Seq<char>;

/// Whether `der` is a PKCS#8 document of an RSA private key that
/// `aws-lc-rs` accepts.
pub uninterp spec fn rsa_pkcs8_accepted(der: Seq<u8>) -> bool;

/// The length in bytes of the public modulus of the RSA key in `der`.
pub uninterp spec fn rsa_modulus_len(der: Seq<u8>) -> nat;

/// The RSASSA-PKCS1-v1_5 signature with SHA-256 of `message` by the RSA key
/// in `der`.
pub uninterp spec fn rsa_pkcs1_sha256_signature(der: Seq<u8>, message: Seq<u8>) -> Seq<u8>;

/// Calls `PemObject::from_pem_slice` for `PrivatePkcs8KeyDer` (the first
/// PKCS#8 private key section of the text) and copies out its DER bytes; a
/// failure is handed back as the text of the `rustls_pki_types::pem::Error`.
#[verifier::external_body]
fn decode_pkcs8_pem(pem: &[u8]) -> (r: Result<Vec<u8>, String>)
    ensures
        match r {
            Ok(der) => pem_private_key(pem@) == Some(der@),
            Err(text) => pem_private_key(pem@) is None && text@ == pem_error_text(pem@),
        },
{
    match PrivatePkcs8KeyDer::from_pem_slice(pem) {
        Ok(key) => Ok(key.secret_pkcs8_der().to_vec()),
        Err(e) => Err(e.to_string()),
    }
}

/// Calls `aws_lc_rs::signature::RsaKeyPair::from_pkcs8` on `der` and keeps
/// the key together with the bytes it was parsed from (as ghost state); a
/// refusal is handed back as the text of the `KeyRejected`. This is the
/// only place where an `RsaKeyPair` is made, so its key is always the one
/// that its `pkcs8` bytes encode.
#[verifier::external_body]
fn parse_rsa_pkcs8(der: &[u8]) -> (r: Result<RsaKeyPair, String>)
    ensures
        r is Ok <==> rsa_pkcs8_accepted(der@),
        r matches Ok(key) ==> key.pkcs8@ == der@,
        r matches Err(text) ==> text@ == rsa_key_rejection_text(der@),
{
    match LcRsaKeyPair::from_pkcs8(der) {
        Ok(inner) => Ok(RsaKeyPair { inner, pkcs8: Ghost(der@) }),
        Err(e) => Err(e.to_string()),
    }
}

/// Calls `aws_lc_rs::signature::RsaKeyPair::public_modulus_len`.
#[verifier::external_body]
fn public_modulus_len(key: &RsaKeyPair) -> (n: usize)
    ensures
        n == rsa_modulus_len(key.pkcs8@),
{
    key.inner.public_modulus_len()
}

/// Calls `aws_lc_rs::signature::RsaKeyPair::sign` with
/// `RSA_PKCS1_SHA256`, which writes the signature of `message` into
/// `signature`; the crate requires the buffer to be exactly as long as the
/// public modulus (it panics otherwise) and ignores the random source.
#[verifier::external_body]
fn sign_pkcs1_sha256(key: &RsaKeyPair, message: &[u8], signature: &mut Vec<u8>) -> (r: Result<(), Unspecified>)
    requires
        old(signature)@.len() == rsa_modulus_len(key.pkcs8@),
    ensures
        final(signature)@.len() == old(signature)@.len(),
        r is Ok ==> final(signature)@ == rsa_pkcs1_sha256_signature(key.pkcs8@, message@),
{
    key.inner.sign(
        &aws_lc_rs::signature::RSA_PKCS1_SHA256,
        &aws_lc_rs::rand::SystemRandom::new(),
        message,
        signature.as_mut_slice(),
    )
}

/// Calls `Display` of `aws_lc_rs::error::Unspecified`, which writes
/// `Unspecified`.
#[verifier::external_body]
fn unspecified_message(e: &Unspecified) -> (text: String)
    ensures
        text@ == "Unspecified"@,
{
    e.to_string()
}

/// Why a key could not be loaded or a message not signed; each carries the
/// message of the error that the outside crate reported.
#[derive(Debug, PartialEq, Eq)]
pub enum SigningError {
    /// The PEM text holds no readable PKCS#8 private key.
    InvalidPem(String),
    /// The private key is not an RSA key that `aws-lc-rs` accepts.
    KeyRejected(String),
    /// Signing failed.
    SigningFailed(String),
}

/// An RSA key pair; its view is the PKCS#8 document it was read from.
pub struct RsaKeyPair {
    inner: LcRsaKeyPair,
    pkcs8: Ghost<Seq<u8>>,
}

impl View for RsaKeyPair {
    type V = Seq<u8>;

    /// The PKCS#8 document of the key.
    closed spec fn view(&self) -> Seq<u8> {
        self.pkcs8@
    }
}

/// The key pair offered to JavaScript as `RsaKeyPair`, shared with the
/// background tasks that sign with it.
pub struct JsRsaKeyPair {
    rsa_key_pair: Arc<RsaKeyPair>,
}

impl View for JsRsaKeyPair {
    type V = Seq<u8>;

    /// The PKCS#8 document of the key.
    closed spec fn view(&self) -> Seq<u8> {
        (*self.rsa_key_pair)@
    }
}

/// The PKCS#8 private key of the PEM text `pem`, read from its UTF-8
/// bytes.
pub open spec fn pem_key(pem: Seq<char>) -> Option<Seq<u8>> {
    pem_private_key(encode_utf8(pem))
}

impl JsRsaKeyPair {
    /// Loads the RSA private key of the first PKCS#8 section of `pem`.
    pub fn from_pem(pem: String) -> (r: Result<JsRsaKeyPair, SigningError>)
        ensures
            pem_key(pem@) is None ==> (r matches Err(SigningError::InvalidPem(text)) && text@
                == pem_error_text(encode_utf8(pem@))),
            pem_key(pem@) is Some && !rsa_pkcs8_accepted(pem_key(pem@)->0) ==> (r matches Err(
                SigningError::KeyRejected(text),
            ) && text@ == rsa_key_rejection_text(pem_key(pem@)->0)),
            pem_key(pem@) is Some && rsa_pkcs8_accepted(pem_key(pem@)->0) ==> r is Ok
                && r->Ok_0@ == pem_key(pem@)->0,
    {
        let bytes = pem.as_str().as_bytes();
        match decode_pkcs8_pem(bytes) {
            Err(text) => Err(SigningError::InvalidPem(text)),
            Ok(der) => match parse_rsa_pkcs8(der.as_slice()) {
                Err(text) => Err(SigningError::KeyRejected(text)),
                Ok(key) => Ok(JsRsaKeyPair { rsa_key_pair: Arc::new(key) }),
            },
        }
    }

    /// The RSASSA-PKCS1-v1_5 signature with SHA-256 of `data`.
    pub fn sign(&self, data: &[u8]) -> (r: Result<Vec<u8>, SigningError>)
        ensures
            r is Ok ==> r->Ok_0@ == rsa_pkcs1_sha256_signature(self@, data@),
            r is Ok ==> r->Ok_0@.len() == rsa_modulus_len(self@),
            r is Err ==> (r->Err_0 matches SigningError::SigningFailed(m) && m@ == "Unspecified"@),
    {
        let key: &RsaKeyPair = &self.rsa_key_pair;
        let n = public_modulus_len(key);
        let mut signature: Vec<u8> = vec![0u8; n];
        match sign_pkcs1_sha256(key, data, &mut signature) {
            Ok(()) => Ok(signature),
            Err(e) => Err(SigningError::SigningFailed(unspecified_message(&e))),
        }
    }
}

} // verus!
