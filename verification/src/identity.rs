//! The node's key material and the peer identifier derived from it.

use vstd::prelude::*;
use crate::trusted::{
    base58, base58_encode, public_key_derive, public_key_of, secret_key_accepted,
    secret_key_check, secret_key_generate, sha256, sha256_digest,
};

verus! {

/// Whether two byte strings hold the same bytes.
pub fn bytes_eq(a: &[u8], b: &[u8]) -> (same: bool)
    ensures
        same == (a@ == b@),
{
    if a.len() != b.len() {
        return false;
    }
    let mut i: usize = 0;
    while i < a.len()
        invariant
            i <= a.len(),
            a.len() == b.len(),
            forall|j: int| 0 <= j < i ==> a@[j] == b@[j],
        decreases a.len() - i,
    {
        if a[i] != b[i] {
            return false;
        }
        i += 1;
    }
    assert(a@ =~= b@);
    true
}

/// A copy of a byte string.
pub fn bytes_copy(a: &[u8]) -> (copy: Vec<u8>)
    ensures
        copy@ == a@,
{
    let mut copy: Vec<u8> = Vec::new();
    let mut i: usize = 0;
    while i < a.len()
        invariant
            i <= a.len(),
            copy@ == a@.take(i as int),
        decreases a.len() - i,
    {
        copy.push(a[i]);
        assert(a@.take(i + 1) =~= a@.take(i as int).push(a@[i as int]));
        i += 1;
    }
    assert(a@.take(a.len() as int) =~= a@);
    copy
}

/// A secret key of the node's curve: 32 bytes that the curve accepts.
pub struct SecretKey {
    bytes: Vec<u8>,
}

impl View for SecretKey {
    type V = Seq<u8>;

    closed spec fn view(&self) -> Seq<u8> {
        self.bytes@
    }
}

impl SecretKey {
    #[verifier::type_invariant]
    spec fn accepted(self) -> bool {
        secret_key_accepted(self.bytes@)
    }

    /// The key that `bytes` hold, if the curve accepts them.
    pub fn from_slice(bytes: &[u8]) -> (key: Option<SecretKey>)
        ensures
            key.is_some() == secret_key_accepted(bytes@),
            key matches Some(k) ==> k@ == bytes@,
    {
        if secret_key_check(bytes) {
            Some(SecretKey { bytes: bytes_copy(bytes) })
        } else {
            None
        }
    }

    /// A fresh key, drawn from the calling thread's random number generator.
    pub fn generate() -> (key: SecretKey)
        ensures
            secret_key_accepted(key@),
    {
        let mut rng = rand::thread_rng();
        SecretKey { bytes: secret_key_generate(&mut rng) }
    }

    /// The key's raw bytes.
    pub fn secret_bytes(&self) -> (bytes: &[u8])
        ensures
            bytes@ == self@,
            secret_key_accepted(bytes@),
    {
        proof {
            use_type_invariant(self);
        }
        self.bytes.as_slice()
    }
}

/// A public key, held in its uncompressed serialization.
pub struct PublicKey {
    bytes: Vec<u8>,
}

impl View for PublicKey {
    type V = Seq<u8>;

    closed spec fn view(&self) -> Seq<u8> {
        self.bytes@
    }
}

impl PublicKey {
    /// The public key that belongs to `secret`.
    pub fn from_secret_key(secret: &SecretKey) -> (public: PublicKey)
        ensures
            public@ == public_key_of(secret@),
    {
        PublicKey { bytes: public_key_derive(secret.secret_bytes()) }
    }

    /// The uncompressed serialization.
    pub fn serialize_uncompressed(&self) -> (bytes: &[u8])
        ensures
            bytes@ == self@,
    {
        self.bytes.as_slice()
    }
}

/// The code of SHA-256 in a multihash.
pub const MULTIHASH_SHA2_256: u8 = 0x12;

/// The multihash that marks `digest` as a SHA-256 digest: the code of the hash function,
/// the digest's length, the digest.
pub open spec fn multihash_sha2_256(digest: Seq<u8>) -> Seq<u8> {
    seq![MULTIHASH_SHA2_256, digest.len() as u8] + digest
}

/// The identifier that content addressing gives to a public key: the SHA-256 multihash
/// of its serialization.
pub open spec fn peer_id_of(public_key: Seq<u8>) -> Seq<u8> {
    multihash_sha2_256(sha256(public_key))
}

/// A peer identifier, held as the bytes of its multihash.
pub struct PeerId {
    bytes: Vec<u8>,
}

impl View for PeerId {
    type V = Seq<u8>;

    closed spec fn view(&self) -> Seq<u8> {
        self.bytes@
    }
}

impl Clone for PeerId {
    fn clone(&self) -> (copy: PeerId)
        ensures
            copy@ == self@,
    {
        PeerId { bytes: bytes_copy(self.bytes.as_slice()) }
    }
}

impl PeerId {
    /// The identifier of the peer that holds `public_key`.
    pub fn from_public_key(public_key: &[u8]) -> (id: PeerId)
        ensures
            id@ == peer_id_of(public_key@),
    {
        let digest = sha256_digest(public_key);
        let mut bytes: Vec<u8> = Vec::new();
        bytes.push(MULTIHASH_SHA2_256);
        bytes.push(32);
        let mut i: usize = 0;
        while i < 32
            invariant
                i <= 32,
                digest@.len() == 32,
                bytes@ == seq![MULTIHASH_SHA2_256, 32u8] + digest@.take(i as int),
            decreases 32 - i,
        {
            bytes.push(digest[i]);
            assert(digest@.take(i + 1) =~= digest@.take(i as int).push(digest@[i as int]));
            i += 1;
        }
        assert(digest@.take(32) =~= digest@);
        PeerId { bytes }
    }

    /// The identifier that `bytes` spell out, taken as they are.
    pub fn from_bytes(bytes: &[u8]) -> (id: PeerId)
        ensures
            id@ == bytes@,
    {
        PeerId { bytes: bytes_copy(bytes) }
    }

    /// The bytes of the identifier.
    pub fn as_bytes(&self) -> (bytes: &[u8])
        ensures
            bytes@ == self@,
    {
        self.bytes.as_slice()
    }

    /// The identifier in base 58, as it is shown to people.
    pub fn to_base58(&self) -> (text: String)
        ensures
            text@ == base58(self@),
    {
        base58_encode(self.bytes.as_slice())
    }

    /// Whether this is the same identifier as `other`.
    pub fn same_as(&self, other: &PeerId) -> (same: bool)
        ensures
            same == (self@ == other@),
    {
        bytes_eq(self.bytes.as_slice(), other.bytes.as_slice())
    }
}

} // verus!
