//! The steps that set up the network state. The files are read and written elsewhere:
//! each step here takes what the last action brought and says what to do next.

use vstd::prelude::*;
use crate::identity::{peer_id_of, SecretKey};
use crate::peer_directory::PeerDirectory;
use crate::state::{
    key_file_text, key_in_pem, listen_text, NetworkState, NetworkStateInitFailed,
};
use crate::trusted::{multiaddr_canonical, public_key_of, secret_key_accepted};

verus! {

/// Where the setup stands.
pub enum Bootstrap {
    /// Waiting for the text of the key file.
    ReadingKeyFile,
    /// The key file gave no key, so a fresh one was made; waiting for `text`, the key
    /// file that holds it, to be written.
    PersistingKey { seckey: SecretKey, text: String },
    /// The secret key is settled; waiting for the peer store.
    LoadingPeerStore { seckey: SecretKey },
    /// The setup is over: the state was handed out, or the setup was given up.
    Finished,
}

/// What an action brought.
pub enum BootstrapEvent {
    /// The text of the key file, or `None` where the file could not be read.
    KeyFileRead(Option<String>),
    /// Whether the key file was written.
    KeyPersisted(bool),
    /// The peer store, or `None` where it exists but could not be read.
    PeerStoreLoaded(Option<PeerDirectory>),
}

/// What to do next.
pub enum BootstrapAction {
    /// Read the key file and report `KeyFileRead`.
    ReadKeyFile,
    /// Write this text to the key file, in place of what is there, and report
    /// `KeyPersisted`.
    PersistKey(String),
    /// Load the peer store, or make an empty one where there is none, and report
    /// `PeerStoreLoaded`.
    LoadPeerStore,
    /// The setup succeeded: this is the network state.
    Done(NetworkState),
    /// The setup failed.
    Abort(NetworkStateInitFailed),
    /// Nothing: the setup was over before the event came.
    Halt,
}

/// The secret key that the key file holds, where it was read and holds one.
pub open spec fn key_in_file(contents: Option<String>) -> Option<Seq<u8>> {
    match contents {
        Some(text) => key_in_pem(text@),
        None => None,
    }
}

impl Bootstrap {
    /// Whether `action` is the action that the setup waits on in this state.
    pub open spec fn pending(self, action: BootstrapAction) -> bool {
        match self {
            Bootstrap::ReadingKeyFile => action is ReadKeyFile,
            Bootstrap::PersistingKey { seckey, text } => action matches BootstrapAction::PersistKey(t)
                && t@ == text@,
            Bootstrap::LoadingPeerStore { .. } => action is LoadPeerStore,
            Bootstrap::Finished => action is Halt,
        }
    }

    /// Whether `next` and `action` are the right answer to `event` in the state `self`,
    /// for a node set up in `base_dir` to listen on `listen_port`.
    ///
    /// - The key file was read. Where it holds a key, that key is kept and the peer
    ///   store is asked for. In every other case, whatever the reason, a fresh key is
    ///   kept and its key file is to be written.
    /// - The key file was written: the peer store is asked for. It was not: the setup
    ///   fails, the node has no identity.
    /// - The peer store was loaded: the setup ends with the network state composed of
    ///   the key and the store, or fails where the listen address is refused. It was
    ///   not loaded: the setup fails, the node has no peer store.
    /// - An event that the setup does not wait for changes nothing, and the pending
    ///   action is asked for again.
    pub open spec fn steps_to(
        self,
        event: BootstrapEvent,
        base_dir: Seq<char>,
        listen_port: u16,
        next: Bootstrap,
        action: BootstrapAction,
    ) -> bool {
        match (self, event) {
            (Bootstrap::ReadingKeyFile, BootstrapEvent::KeyFileRead(contents)) => {
                if key_in_file(contents).is_some() {
                    &&& next matches Bootstrap::LoadingPeerStore { seckey }
                    &&& Some(seckey@) == key_in_file(contents)
                    &&& action is LoadPeerStore
                } else {
                    &&& next matches Bootstrap::PersistingKey { seckey, text }
                    &&& secret_key_accepted(seckey@)
                    &&& text@ == key_file_text(seckey@)
                    &&& action matches BootstrapAction::PersistKey(written)
                    &&& written@ == text@
                }
            },
            (Bootstrap::PersistingKey { seckey, text }, BootstrapEvent::KeyPersisted(written)) => {
                if written {
                    &&& next matches Bootstrap::LoadingPeerStore { seckey: kept }
                    &&& kept@ == seckey@
                    &&& action is LoadPeerStore
                } else {
                    &&& next is Finished
                    &&& action matches BootstrapAction::Abort(e)
                    &&& e == NetworkStateInitFailed::NodeIdentityUnavailable
                }
            },
            (Bootstrap::LoadingPeerStore { seckey }, BootstrapEvent::PeerStoreLoaded(store)) => {
                &&& next is Finished
                &&& match store {
                    Some(peers) => if multiaddr_canonical(listen_text(listen_port)).is_some() {
                        &&& action matches BootstrapAction::Done(state)
                        &&& state.composed_of(base_dir, listen_port, seckey@, peers@)
                    } else {
                        &&& action matches BootstrapAction::Abort(e)
                        &&& e == NetworkStateInitFailed::AddressParseFailure
                    },
                    None => {
                        &&& action matches BootstrapAction::Abort(e)
                        &&& e == NetworkStateInitFailed::PeerStoreUnavailable
                    },
                }
            },
            _ => next == self && self.pending(action),
        }
    }

    /// The state in which the setup starts, and its first action: read the key file.
    pub fn start() -> (r: (Bootstrap, BootstrapAction))
        ensures
            r.0 is ReadingKeyFile,
            r.1 is ReadKeyFile,
    {
        (Bootstrap::ReadingKeyFile, BootstrapAction::ReadKeyFile)
    }

    /// Takes one step: what `event` makes of the state, and what is to be done next.
    pub fn step(self, event: BootstrapEvent, base_dir: &str, listen_port: u16) -> (r: (
        Bootstrap,
        BootstrapAction,
    ))
        ensures
            self.steps_to(event, base_dir@, listen_port, r.0, r.1),
    {
        match self {
            Bootstrap::ReadingKeyFile => match event {
                BootstrapEvent::KeyFileRead(contents) => {
                    let loaded = match &contents {
                        Some(text) => NetworkState::load_secret_key_from_pem_file(Some(text.as_str())),
                        None => NetworkState::load_secret_key_from_pem_file(None),
                    };
                    match loaded {
                        Ok(seckey) => (
                            Bootstrap::LoadingPeerStore { seckey },
                            BootstrapAction::LoadPeerStore,
                        ),
                        Err(_) => {
                            let (seckey, text) = NetworkState::generate_new_secret_key();
                            let written = text.clone();
                            (Bootstrap::PersistingKey { seckey, text }, BootstrapAction::PersistKey(written))
                        },
                    }
                },
                _ => (Bootstrap::ReadingKeyFile, BootstrapAction::ReadKeyFile),
            },
            Bootstrap::PersistingKey { seckey, text } => match event {
                BootstrapEvent::KeyPersisted(written) => {
                    if written {
                        (Bootstrap::LoadingPeerStore { seckey }, BootstrapAction::LoadPeerStore)
                    } else {
                        (
                            Bootstrap::Finished,
                            BootstrapAction::Abort(NetworkStateInitFailed::NodeIdentityUnavailable),
                        )
                    }
                },
                _ => {
                    let again = text.clone();
                    (Bootstrap::PersistingKey { seckey, text }, BootstrapAction::PersistKey(again))
                },
            },
            Bootstrap::LoadingPeerStore { seckey } => match event {
                BootstrapEvent::PeerStoreLoaded(Some(peers)) => {
                    match NetworkState::new(base_dir, listen_port, seckey, peers) {
                        Ok(state) => (Bootstrap::Finished, BootstrapAction::Done(state)),
                        Err(e) => (Bootstrap::Finished, BootstrapAction::Abort(e)),
                    }
                },
                BootstrapEvent::PeerStoreLoaded(None) => (
                    Bootstrap::Finished,
                    BootstrapAction::Abort(NetworkStateInitFailed::PeerStoreUnavailable),
                ),
                _ => (Bootstrap::LoadingPeerStore { seckey }, BootstrapAction::LoadPeerStore),
            },
            Bootstrap::Finished => (Bootstrap::Finished, BootstrapAction::Halt),
        }
    }
}

/// Whatever the key file holds, and whether or not it could be read, reading it never
/// ends the setup: the setup goes on with the key from the file, or with a fresh key
/// whose file is to be written in place of what was there.
pub proof fn lemma_key_file_is_never_fatal(
    contents: Option<String>,
    base_dir: Seq<char>,
    listen_port: u16,
    next: Bootstrap,
    action: BootstrapAction,
)
    requires
        Bootstrap::ReadingKeyFile.steps_to(
            BootstrapEvent::KeyFileRead(contents),
            base_dir,
            listen_port,
            next,
            action,
        ),
    ensures
        !(next is Finished),
        !(action is Abort),
        key_in_file(contents).is_some() ==> next is LoadingPeerStore && action is LoadPeerStore,
        key_in_file(contents).is_none() ==> next is PersistingKey && action is PersistKey,
{
}

/// A setup that finds a key in the key file and succeeds hands out the peer identifier
/// of that key. So two setups that read the same key file agree on who the node is.
pub proof fn lemma_key_file_decides_identity(
    contents: Option<String>,
    store: Option<PeerDirectory>,
    base_dir: Seq<char>,
    listen_port: u16,
    loading: Bootstrap,
    asked: BootstrapAction,
    end: Bootstrap,
    state: NetworkState,
)
    requires
        key_in_file(contents).is_some(),
        Bootstrap::ReadingKeyFile.steps_to(
            BootstrapEvent::KeyFileRead(contents),
            base_dir,
            listen_port,
            loading,
            asked,
        ),
        loading.steps_to(
            BootstrapEvent::PeerStoreLoaded(store),
            base_dir,
            listen_port,
            end,
            BootstrapAction::Done(state),
        ),
    ensures
        Some(state.seckey@) == key_in_file(contents),
        state.peer_id@ == peer_id_of(public_key_of(key_in_file(contents).unwrap())),
{
}

} // verus!
