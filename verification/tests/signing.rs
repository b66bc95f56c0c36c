use aws_lc_rs::encoding::AsDer;
use aws_lc_rs::rsa::{KeyPair, KeySize};
use aws_lc_rs::signature::{KeyPair as _, UnparsedPublicKey, RSA_PKCS1_2048_8192_SHA256};
use slacc::{JsRsaKeyPair, SigningError};

const ALPHABET: &[u8] = b"ABCDEFGHIJKLMNOPQRSTUVWXYZabcdefghijklmnopqrstuvwxyz0123456789+/";

fn base64(data: &[u8]) -> String {
    let mut out = String::new();
    for chunk in data.chunks(3) {
        let b = [chunk[0], *chunk.get(1).unwrap_or(&0), *chunk.get(2).unwrap_or(&0)];
        let n = ((b[0] as u32) << 16) | ((b[1] as u32) << 8) | (b[2] as u32);
        for i in 0..4 {
            if i <= chunk.len() {
                out.push(ALPHABET[((n >> (18 - 6 * i)) & 63) as usize] as char);
            } else {
                out.push('=');
            }
        }
    }
    out
}

fn pem(label: &str, der: &[u8]) -> String {
    let body = base64(der);
    let mut text = format!("-----BEGIN {}-----\n", label);
    for line in body.as_bytes().chunks(64) {
        text.push_str(std::str::from_utf8(line).unwrap());
        text.push('\n');
    }
    text.push_str(&format!("-----END {}-----\n", label));
    text
}

fn generated() -> (KeyPair, String) {
    let key = KeyPair::generate(KeySize::Rsa2048).unwrap();
    let der = AsDer::<aws_lc_rs::encoding::Pkcs8V1Der>::as_der(&key).unwrap();
    let text = pem("PRIVATE KEY", der.as_ref());
    (key, text)
}

#[test]
fn base64_of_known_values() {
    assert_eq!(base64(b"Man"), "TWFu");
    assert_eq!(base64(b"Ma"), "TWE=");
    assert_eq!(base64(b"M"), "TQ==");
}

#[test]
fn signs_with_the_key_of_the_pem_text() {
    let (key, text) = generated();
    let pair = JsRsaKeyPair::from_pem(text).unwrap();
    let message = b"hello misskey";
    let signature = pair.sign(message).unwrap();
    assert_eq!(signature.len(), 256);
    let public = UnparsedPublicKey::new(&RSA_PKCS1_2048_8192_SHA256, key.public_key().as_ref());
    assert!(public.verify(message, &signature).is_ok());
    assert!(public.verify(b"another message", &signature).is_err());
}

#[test]
fn pkcs1_signatures_are_deterministic() {
    let (_, text) = generated();
    let pair = JsRsaKeyPair::from_pem(text).unwrap();
    assert_eq!(pair.sign(b"abc").unwrap(), pair.sign(b"abc").unwrap());
    assert_ne!(pair.sign(b"abc").unwrap(), pair.sign(b"abd").unwrap());
    assert_eq!(pair.sign(b"").unwrap().len(), 256);
}

#[test]
fn text_without_a_private_key_is_refused() {
    match JsRsaKeyPair::from_pem("not a pem file".to_string()) {
        Err(SigningError::InvalidPem(message)) => assert_eq!(message, "no items found"),
        other => panic!("unexpected {:?}", other.err()),
    }
    let (_, text) = generated();
    let relabelled = text.replace("PRIVATE KEY", "CERTIFICATE");
    assert!(matches!(JsRsaKeyPair::from_pem(relabelled), Err(SigningError::InvalidPem(_))));
}

#[test]
fn a_section_that_is_not_an_rsa_key_is_rejected() {
    let text = pem("PRIVATE KEY", &[0x30, 0x03, 0x02, 0x01, 0x00]);
    match JsRsaKeyPair::from_pem(text) {
        Err(SigningError::KeyRejected(message)) => assert!(!message.is_empty()),
        other => panic!("unexpected {:?}", other.err()),
    }
}
