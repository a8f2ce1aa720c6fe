//! The state that the node hands to its networking layer, and the steps that lead to it.

use vstd::prelude::*;
use crate::identity::{peer_id_of, PeerId, PublicKey, SecretKey};
use crate::multiaddr::{decimal, listen_address, listen_address_text, port_text, Multiaddr};
use crate::peer_directory::{with_address, Directory, PeerDirectory};
use crate::trusted::{
    multiaddr_canonical, pem_encode, pem_encoded, pem_parse, pem_parsed, public_key_of,
    secret_key_accepted,
};

verus! {

/// Name of the peer store's file inside the base directory.
pub const PEERS_FILE: &'static str = "peerstore.json";

/// Name of the secret key's file inside the base directory.
pub const LOCAL_PEM_FILE: &'static str = "local_peer_id.pem";

/// Tag of the envelope that holds the secret key.
pub const KEY_FILE_TAG: &'static str = "EC PRIVATE KEY";

/// Why no key came out of the key file. Neither is fatal: both lead to a fresh key.
#[derive(Clone, Copy, Debug, PartialEq, Eq, Structural)]
pub enum KeyFileError {
    /// The file is missing or could not be read.
    KeyFileUnreadable,
    /// The file holds no envelope, or the envelope holds no key of the curve.
    KeyFileMalformed,
}

/// Why the network state could not be set up.
#[derive(Clone, Copy, Debug, PartialEq, Eq, Structural)]
pub enum NetworkStateInitFailed {
    /// A fresh secret key could not be written to the key file.
    NodeIdentityUnavailable,
    /// The peer store exists but could not be read.
    PeerStoreUnavailable,
    /// The listen address was refused as an address.
    AddressParseFailure,
}

/// The secret key that the text of a key file holds: the contents of its envelope, where
/// it has one and the curve accepts them. The envelope's tag is not looked at.
pub open spec fn key_in_pem(text: Seq<char>) -> Option<Seq<u8>> {
    match pem_parsed(text) {
        Some((_, contents)) => if secret_key_accepted(contents) {
            Some(contents)
        } else {
            None
        },
        None => None,
    }
}

/// The text of the key file that holds `key`.
pub open spec fn key_file_text(key: Seq<u8>) -> Seq<char> {
    pem_encoded(KEY_FILE_TAG@, key)
}

/// The text of the address that the node listens on: the wildcard interface, TCP, `port`.
pub open spec fn listen_text(port: u16) -> Seq<char> {
    listen_address_text(decimal(port as nat))
}

/// The peer identifier is a function of the secret key: two states that hold the same
/// secret key hold the same public key and the same peer identifier, wherever and
/// whenever they were set up.
pub proof fn lemma_identity_follows_secret_key(a: NetworkState, b: NetworkState)
    requires
        a.wf(),
        b.wf(),
        a.seckey@ == b.seckey@,
    ensures
        a.pubkey@ == b.pubkey@,
        a.peer_id@ == b.peer_id@,
{
}

/// Represents the present state of the node's network.
pub struct NetworkState {
    pub base_dir: String,
    pub pubkey: PublicKey,
    pub seckey: SecretKey,
    pub peer_id: PeerId,
    pub listen_multiaddr: Multiaddr,
    pub peer_store: PeerDirectory,
}

impl NetworkState {
    /// The public key is the secret key's, and the peer identifier is the public key's.
    pub open spec fn wf(&self) -> bool {
        &&& self.pubkey@ == public_key_of(self.seckey@)
        &&& self.peer_id@ == peer_id_of(self.pubkey@)
    }

    /// Whether this is the state of the node with the secret key `seckey` and the peers
    /// `peers`, set up in `base_dir` to listen on `listen_port`.
    pub open spec fn composed_of(
        &self,
        base_dir: Seq<char>,
        listen_port: u16,
        seckey: Seq<u8>,
        peers: Directory,
    ) -> bool {
        &&& self.base_dir@ == base_dir
        &&& self.seckey@ == seckey
        &&& self.wf()
        &&& multiaddr_canonical(listen_text(listen_port)) == Some(self.listen_multiaddr@)
        &&& self.peer_store@ == peers
    }

    /// Composes the network state from the node's secret key and its peer directory. The
    /// public key and the peer identifier are derived from the secret key, and the listen
    /// address is the wildcard TCP address on `listen_port`. The one way to fail is that
    /// this address is refused.
    pub fn new(base_dir: &str, listen_port: u16, seckey: SecretKey, peer_store: PeerDirectory) -> (r:
        Result<NetworkState, NetworkStateInitFailed>)
        ensures
            match r {
                Ok(state) => state.composed_of(base_dir@, listen_port, seckey@, peer_store@),
                Err(e) => e == NetworkStateInitFailed::AddressParseFailure && multiaddr_canonical(
                    listen_text(listen_port),
                ).is_none(),
            },
    {
        let pubkey = PublicKey::from_secret_key(&seckey);
        let peer_id = PeerId::from_public_key(pubkey.serialize_uncompressed());
        let port = port_text(listen_port);
        match NetworkState::try_multiaddr_on_port(port.as_str()) {
            Some(listen_multiaddr) => Ok(
                NetworkState {
                    base_dir: String::from_str(base_dir),
                    pubkey,
                    seckey,
                    peer_id,
                    listen_multiaddr,
                    peer_store,
                },
            ),
            None => Err(NetworkStateInitFailed::AddressParseFailure),
        }
    }

    /// Return a TCP multiaddress on 0.0.0.0 for a given port.
    pub fn multiaddr_on_port(port: &str) -> (address: Multiaddr)
        requires
            multiaddr_canonical(listen_address_text(port@)).is_some(),
        ensures
            multiaddr_canonical(listen_address_text(port@)) == Some(address@),
    {
        let text = listen_address(port);
        Multiaddr::parse(text.as_str()).unwrap()
    }

    /// Return a TCP multiaddress on 0.0.0.0 for a given port, or `None` where the port's
    /// text makes no address.
    pub fn try_multiaddr_on_port(port: &str) -> (address: Option<Multiaddr>)
        ensures
            address.is_some() == multiaddr_canonical(listen_address_text(port@)).is_some(),
            address matches Some(a) ==> multiaddr_canonical(listen_address_text(port@)) == Some(a@),
    {
        let text = listen_address(port);
        if Multiaddr::parse(text.as_str()).is_some() {
            Some(NetworkState::multiaddr_on_port(port))
        } else {
            None
        }
    }

    /// Records that `multiaddr` is an address of `peer_id` for `duration_secs` seconds
    /// from `now`. Nothing but the peer store changes.
    pub fn add_peer(&mut self, peer_id: PeerId, multiaddr: Multiaddr, duration_secs: u64, now: u64)
        requires
            now + duration_secs <= u64::MAX,
        ensures
            final(self).peer_store@ == with_address(
                old(self).peer_store@,
                peer_id@,
                multiaddr@,
                (now + duration_secs) as u64,
            ),
            final(self).base_dir == old(self).base_dir,
            final(self).pubkey == old(self).pubkey,
            final(self).seckey == old(self).seckey,
            final(self).peer_id == old(self).peer_id,
            final(self).listen_multiaddr == old(self).listen_multiaddr,
    {
        self.peer_store.add_peer(peer_id, multiaddr, duration_secs, now);
    }

    /// The secret key that the key file holds. `contents` is the file's text, or `None`
    /// where the file could not be read.
    pub fn load_secret_key_from_pem_file(contents: Option<&str>) -> (r: Result<
        SecretKey,
        KeyFileError,
    >)
        ensures
            match r {
                Ok(key) => contents matches Some(text) && key_in_pem(text@) == Some(key@),
                Err(KeyFileError::KeyFileUnreadable) => contents.is_none(),
                Err(KeyFileError::KeyFileMalformed) => contents matches Some(text) && key_in_pem(
                    text@,
                ).is_none(),
            },
    {
        match contents {
            None => Err(KeyFileError::KeyFileUnreadable),
            Some(text) => match pem_parse(text) {
                None => Err(KeyFileError::KeyFileMalformed),
                Some((_, bytes)) => match SecretKey::from_slice(bytes.as_slice()) {
                    Some(key) => Ok(key),
                    None => Err(KeyFileError::KeyFileMalformed),
                },
            },
        }
    }

    /// The text of the key file that holds `key`: the key's raw bytes in an envelope
    /// tagged `EC PRIVATE KEY`.
    pub fn encode_secret_key(key: &SecretKey) -> (text: String)
        ensures
            text@ == key_file_text(key@),
    {
        pem_encode(KEY_FILE_TAG, key.secret_bytes())
    }

    /// Generates a new secret key, together with the text of the key file that holds it.
    /// Which key comes out is left to chance; the text is the text of that key's file.
    pub fn generate_new_secret_key() -> (r: (SecretKey, String))
        ensures
            secret_key_accepted(r.0@),
            r.1@ == key_file_text(r.0@),
    {
        let key = SecretKey::generate();
        let text = NetworkState::encode_secret_key(&key);
        (key, text)
    }
}

} // verus!
