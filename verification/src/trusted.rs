//! The calls into other crates. Nothing in this file is proved: each contract below is
//! taken from the called crate's source and believed by the verifier.

use vstd::prelude::*;
use sha2::Digest;

verus! {

/// What `pem::parse` makes of a text: the tag and the decoded contents of the first
/// envelope in it, or `None` where it reports an error.
pub uninterp spec fn pem_parsed(text: Seq<char>) -> Option<(Seq<char>, Seq<u8>)>;

/// The text that `pem::encode` writes for an envelope without headers.
pub uninterp spec fn pem_encoded(tag: Seq<char>, contents: Seq<u8>) -> Seq<char>;

/// Whether `secp256k1::SecretKey::from_slice` takes these bytes for a secret key.
pub uninterp spec fn secret_key_accepted(bytes: Seq<u8>) -> bool;

/// The uncompressed serialization of the public key that
/// `secp256k1::PublicKey::from_secret_key` derives from a secret key.
pub uninterp spec fn public_key_of(secret: Seq<u8>) -> Seq<u8>;

/// The SHA-256 digest, as `sha2::Sha256::digest` computes it.
pub uninterp spec fn sha256(data: Seq<u8>) -> Seq<u8>;

/// The base-58 text that `bs58::encode` writes with its default alphabet.
pub uninterp spec fn base58(data: Seq<u8>) -> Seq<char>;

/// What `libp2p_core::Multiaddr` makes of a text: the address that it parses to, printed
/// again, or `None` where the text is no address.
pub uninterp spec fn multiaddr_canonical(text: Seq<char>) -> Option<Seq<char>>;

/// `rand::rngs::ThreadRng`, the generator that `rand::thread_rng` hands out.
#[verifier::external_type_specification]
#[verifier::external_body]
pub struct ExThreadRng(rand::rngs::ThreadRng);

/// `rand::thread_rng`: the calling thread's generator. Nothing is claimed of it.
pub assume_specification[ rand::thread_rng ]() -> (rng: rand::rngs::ThreadRng);

/// `pem::parse`. The result is the parsed envelope's tag and contents; its headers are
/// left behind.
#[verifier::external_body]
pub(crate) fn pem_parse(text: &str) -> (r: Option<(String, Vec<u8>)>)
    ensures
        r.is_some() == pem_parsed(text@).is_some(),
        r matches Some((tag, contents)) ==> pem_parsed(text@) == Some((tag@, contents@)),
{
    match pem::parse(text) {
        Ok(envelope) => Some((envelope.tag().to_string(), envelope.contents().to_vec())),
        Err(_) => None,
    }
}

/// `pem::encode`, on an envelope made of `tag` and `contents` by `pem::Pem::new`.
#[verifier::external_body]
pub(crate) fn pem_encode(tag: &str, contents: &[u8]) -> (text: String)
    ensures
        text@ == pem_encoded(tag@, contents@),
{
    pem::encode(&pem::Pem::new(tag, contents))
}

/// `secp256k1::SecretKey::from_slice`: whether it returns a key.
#[verifier::external_body]
pub(crate) fn secret_key_check(bytes: &[u8]) -> (ok: bool)
    ensures
        ok == secret_key_accepted(bytes@),
{
    secp256k1::SecretKey::from_slice(bytes).is_ok()
}

/// `secp256k1::SecretKey::new`: a fresh secret key from `rng`, as its 32 bytes. The call
/// draws until the curve accepts the bytes, so whatever comes back is a key that
/// `from_slice` takes.
#[verifier::external_body]
pub(crate) fn secret_key_generate(rng: &mut rand::rngs::ThreadRng) -> (bytes: Vec<u8>)
    ensures
        secret_key_accepted(bytes@),
{
    secp256k1::SecretKey::new(rng).secret_bytes().to_vec()
}

/// `secp256k1::PublicKey::from_secret_key`, on the key that `from_slice` makes of
/// `secret`, serialized by `serialize_uncompressed`.
#[verifier::external_body]
pub(crate) fn public_key_derive(secret: &[u8]) -> (public: Vec<u8>)
    requires
        secret_key_accepted(secret@),
    ensures
        public@ == public_key_of(secret@),
{
    let key = secp256k1::SecretKey::from_slice(secret).expect("an accepted secret key");
    let curve = secp256k1::Secp256k1::new();
    secp256k1::PublicKey::from_secret_key(&curve, &key).serialize_uncompressed().to_vec()
}

/// `sha2::Sha256::digest`: 32 bytes.
#[verifier::external_body]
pub(crate) fn sha256_digest(data: &[u8]) -> (digest: Vec<u8>)
    ensures
        digest@ == sha256(data@),
        digest@.len() == 32,
{
    sha2::Sha256::digest(data).to_vec()
}

/// `bs58::encode`, collected into a string.
#[verifier::external_body]
pub(crate) fn base58_encode(data: &[u8]) -> (text: String)
    ensures
        text@ == base58(data@),
{
    bs58::encode(data).into_string()
}

/// `libp2p_core::Multiaddr`'s `from_str`, and `to_string` on what it returns.
#[verifier::external_body]
pub(crate) fn multiaddr_parse(text: &str) -> (r: Option<String>)
    ensures
        r.is_some() == multiaddr_canonical(text@).is_some(),
        r matches Some(printed) ==> multiaddr_canonical(text@) == Some(printed@),
{
    match text.parse::<libp2p_core::Multiaddr>() {
        Ok(address) => Some(address.to_string()),
        Err(_) => None,
    }
}

} // verus!
