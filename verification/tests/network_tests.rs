use lighthouse_core::bootstrap::{Bootstrap, BootstrapAction, BootstrapEvent};
use lighthouse_core::identity::{bytes_copy, bytes_eq, PeerId, PublicKey, SecretKey};
use lighthouse_core::multiaddr::{listen_address, port_text, Multiaddr};
use lighthouse_core::peer_directory::PeerDirectory;
use lighthouse_core::state::{
    KeyFileError, NetworkState, NetworkStateInitFailed, KEY_FILE_TAG, LOCAL_PEM_FILE, PEERS_FILE,
};

/// An envelope, put together line by line: the opening line with the tag, the body,
/// the closing line with the tag, each ended by `eol`.
fn envelope(tag: &str, body: &str, eol: &str) -> String {
    let dashes = "-".repeat(5);
    let mut text = String::new();
    for line in [
        format!("{}BEGIN {}{}", dashes, tag, dashes),
        body.to_string(),
        format!("{}END {}{}", dashes, tag, dashes),
    ] {
        text.push_str(&line);
        text.push_str(eol);
    }
    text
}

/// Thirty-two bytes of value one, in base 64.
fn ones_in_base64() -> String {
    format!("{}AQE=", "AQEB".repeat(10))
}

/// The key file that holds thirty-two bytes of value one, as the library writes it.
fn key_file_of_ones() -> String {
    envelope(KEY_FILE_TAG, &ones_in_base64(), "\r\n")
}

fn key_of_ones() -> SecretKey {
    SecretKey::from_slice(&[1u8; 32]).unwrap()
}

fn address(text: &str) -> Multiaddr {
    Multiaddr::parse(text).unwrap()
}

fn peer(name: &[u8]) -> PeerId {
    PeerId::from_bytes(name)
}

#[test]
fn test_file_names_and_tag() {
    assert_eq!(PEERS_FILE, "peerstore.json");
    assert_eq!(LOCAL_PEM_FILE, "local_peer_id.pem");
    assert_eq!(KEY_FILE_TAG, "EC PRIVATE KEY");
}

#[test]
fn test_bytes_helpers() {
    assert!(bytes_eq(&[1, 2, 3], &[1, 2, 3]));
    assert!(!bytes_eq(&[1, 2, 3], &[1, 2, 4]));
    assert!(!bytes_eq(&[1, 2, 3], &[1, 2]));
    assert!(bytes_eq(&[], &[]));
    assert_eq!(bytes_copy(&[9, 8, 7]), vec![9, 8, 7]);
}

#[test]
fn test_secret_key_from_slice() {
    assert_eq!(key_of_ones().secret_bytes(), &[1u8; 32]);
    assert!(SecretKey::from_slice(&[0u8; 32]).is_none());
    assert!(SecretKey::from_slice(&[0xffu8; 32]).is_none());
    assert!(SecretKey::from_slice(&[1u8; 31]).is_none());
    assert!(SecretKey::from_slice(&[1u8; 33]).is_none());
    assert!(SecretKey::from_slice(&[]).is_none());
}

#[test]
fn test_public_key_of_the_key_one() {
    let mut one = [0u8; 32];
    one[31] = 1;
    let public = PublicKey::from_secret_key(&SecretKey::from_slice(&one).unwrap());
    let bytes = public.serialize_uncompressed();
    assert_eq!(bytes.len(), 65);
    assert_eq!(bytes[0], 0x04);
    assert_eq!(
        &bytes[1..33],
        &[
            0x79, 0xbe, 0x66, 0x7e, 0xf9, 0xdc, 0xbb, 0xac, 0x55, 0xa0, 0x62, 0x95, 0xce, 0x87,
            0x0b, 0x07, 0x02, 0x9b, 0xfc, 0xdb, 0x2d, 0xce, 0x28, 0xd9, 0x59, 0xf2, 0x81, 0x5b,
            0x16, 0xf8, 0x17, 0x98
        ]
    );
    assert_eq!(
        &bytes[33..65],
        &[
            0x48, 0x3a, 0xda, 0x77, 0x26, 0xa3, 0xc4, 0x65, 0x5d, 0xa4, 0xfb, 0xfc, 0x0e, 0x11,
            0x08, 0xa8, 0xfd, 0x17, 0xb4, 0x48, 0xa6, 0x85, 0x54, 0x19, 0x9c, 0x47, 0xd0, 0x8f,
            0xfb, 0x10, 0xd4, 0xb8
        ]
    );
}

#[test]
fn test_peer_id_is_sha256_multihash() {
    let id = PeerId::from_public_key(&[]);
    let mut expected = vec![0x12, 0x20];
    expected.extend_from_slice(&[
        0xe3, 0xb0, 0xc4, 0x42, 0x98, 0xfc, 0x1c, 0x14, 0x9a, 0xfb, 0xf4, 0xc8, 0x99, 0x6f, 0xb9,
        0x24, 0x27, 0xae, 0x41, 0xe4, 0x64, 0x9b, 0x93, 0x4c, 0xa4, 0x95, 0x99, 0x1b, 0x78, 0x52,
        0xb8, 0x55,
    ]);
    assert_eq!(id.as_bytes(), &expected[..]);
    assert!(id.same_as(&id.clone()));
    assert!(!id.same_as(&PeerId::from_public_key(&[0])));
}

#[test]
fn test_peer_id_to_base58() {
    assert_eq!(peer(b"hello world").to_base58(), "StV1DL6CwTryKyV");
    assert_eq!(peer(&[]).to_base58(), "");
    assert_eq!(peer(&[0, 0]).to_base58(), "11");
}

#[test]
fn test_peer_id_is_a_function_of_the_secret_key() {
    let first = NetworkState::new("/tmp/a", 9000, key_of_ones(), PeerDirectory::new()).unwrap();
    let second = NetworkState::new("/tmp/b", 9001, key_of_ones(), PeerDirectory::new()).unwrap();
    assert!(first.peer_id.same_as(&second.peer_id));
    assert_eq!(first.peer_id.to_base58(), second.peer_id.to_base58());
    assert_eq!(
        first.pubkey.serialize_uncompressed(),
        second.pubkey.serialize_uncompressed()
    );
    let expected = PeerId::from_public_key(first.pubkey.serialize_uncompressed());
    assert!(first.peer_id.same_as(&expected));
    assert_eq!(first.peer_id.as_bytes().len(), 34);
}

#[test]
fn test_encode_secret_key() {
    let text = NetworkState::encode_secret_key(&key_of_ones());
    assert_eq!(text, key_file_of_ones());
    assert_eq!(text.len(), 30 + 2 + 44 + 2 + 28 + 2);
    let lines: Vec<&str> = text.split("\r\n").collect();
    assert_eq!(lines.len(), 4);
    assert_eq!(lines[0].len(), 30);
    assert!(lines[0].starts_with("-----"));
    assert!(lines[0].ends_with("EC PRIVATE KEY-----"));
    assert_eq!(lines[1], ones_in_base64());
    assert_eq!(lines[1].len(), 44);
    assert!(lines[1].starts_with("AQEBAQEB"));
    assert!(lines[1].ends_with("AQEBAQE="));
    assert_eq!(lines[2].len(), 28);
    assert!(lines[2].ends_with("EC PRIVATE KEY-----"));
    assert_eq!(lines[3], "");
}

#[test]
fn test_load_secret_key_from_pem_file() {
    let key = NetworkState::load_secret_key_from_pem_file(Some(&key_file_of_ones())).unwrap();
    assert_eq!(key.secret_bytes(), &[1u8; 32]);
    let unix = envelope(KEY_FILE_TAG, &ones_in_base64(), "\n");
    let key = NetworkState::load_secret_key_from_pem_file(Some(&unix)).unwrap();
    assert_eq!(key.secret_bytes(), &[1u8; 32]);
    let other_tag = envelope("ANY TAG", &ones_in_base64(), "\r\n");
    let key = NetworkState::load_secret_key_from_pem_file(Some(&other_tag)).unwrap();
    assert_eq!(key.secret_bytes(), &[1u8; 32]);
    // Another key: thirty-two bytes of value two.
    let twos = envelope(KEY_FILE_TAG, &format!("{}AgI=", "AgIC".repeat(10)), "\n");
    let key = NetworkState::load_secret_key_from_pem_file(Some(&twos)).unwrap();
    assert_eq!(key.secret_bytes(), &[2u8; 32]);
}

#[test]
fn test_load_secret_key_errors() {
    assert_eq!(
        NetworkState::load_secret_key_from_pem_file(None).err(),
        Some(KeyFileError::KeyFileUnreadable)
    );
    assert_eq!(
        NetworkState::load_secret_key_from_pem_file(Some("")).err(),
        Some(KeyFileError::KeyFileMalformed)
    );
    assert_eq!(
        NetworkState::load_secret_key_from_pem_file(Some("not a key file")).err(),
        Some(KeyFileError::KeyFileMalformed)
    );
    // A well-formed envelope whose contents are no key of the curve: 32 zero bytes.
    let zero = envelope(KEY_FILE_TAG, &format!("{}=", "A".repeat(43)), "\n");
    assert_eq!(
        NetworkState::load_secret_key_from_pem_file(Some(&zero)).err(),
        Some(KeyFileError::KeyFileMalformed)
    );
    // A well-formed envelope with too few bytes.
    let short = envelope(KEY_FILE_TAG, "AQEB", "\n");
    assert_eq!(
        NetworkState::load_secret_key_from_pem_file(Some(&short)).err(),
        Some(KeyFileError::KeyFileMalformed)
    );
    // Thirty-two bytes that are no number below the curve's order.
    let high = envelope(KEY_FILE_TAG, &format!("{}8=", "/".repeat(42)), "\n");
    assert_eq!(
        NetworkState::load_secret_key_from_pem_file(Some(&high)).err(),
        Some(KeyFileError::KeyFileMalformed)
    );
    // The opening and the closing line do not agree.
    let mismatched = envelope(KEY_FILE_TAG, &ones_in_base64(), "\n").replacen("BEGIN EC", "BEGIN DC", 1);
    assert_eq!(
        NetworkState::load_secret_key_from_pem_file(Some(&mismatched)).err(),
        Some(KeyFileError::KeyFileMalformed)
    );
}

#[test]
fn test_generate_new_secret_key_reads_back() {
    let (key, text) = NetworkState::generate_new_secret_key();
    assert_eq!(key.secret_bytes().len(), 32);
    assert_eq!(text.len(), key_file_of_ones().len());
    assert_eq!(text.split("\r\n").next(), key_file_of_ones().split("\r\n").next());
    assert_eq!(text, NetworkState::encode_secret_key(&key));
    let read_back = NetworkState::load_secret_key_from_pem_file(Some(&text)).unwrap();
    assert_eq!(read_back.secret_bytes(), key.secret_bytes());
    let (other, _) = NetworkState::generate_new_secret_key();
    assert_ne!(other.secret_bytes(), key.secret_bytes());
}

#[test]
fn test_port_text() {
    assert_eq!(port_text(0), "0");
    assert_eq!(port_text(7), "7");
    assert_eq!(port_text(10), "10");
    assert_eq!(port_text(9000), "9000");
    assert_eq!(port_text(65535), "65535");
    assert_eq!(port_text(1234), "1234");
    assert_eq!(port_text(56789), "56789");
}

#[test]
fn test_listen_address_text() {
    assert_eq!(listen_address("9000"), "/ip4/0.0.0.0/tcp/9000");
    assert_eq!(listen_address(""), "/ip4/0.0.0.0/tcp/");
}

#[test]
fn test_multiaddr_on_port() {
    assert_eq!(
        NetworkState::multiaddr_on_port("9000").to_string(),
        "/ip4/0.0.0.0/tcp/9000"
    );
    assert_eq!(
        NetworkState::multiaddr_on_port("0").to_string(),
        "/ip4/0.0.0.0/tcp/0"
    );
    assert_eq!(
        NetworkState::multiaddr_on_port("65535").to_string(),
        "/ip4/0.0.0.0/tcp/65535"
    );
}

#[test]
fn test_try_multiaddr_on_port() {
    assert_eq!(
        NetworkState::try_multiaddr_on_port("9000").unwrap().to_string(),
        "/ip4/0.0.0.0/tcp/9000"
    );
    assert!(NetworkState::try_multiaddr_on_port("65536").is_none());
    assert!(NetworkState::try_multiaddr_on_port("").is_none());
    assert!(NetworkState::try_multiaddr_on_port("http").is_none());
    assert!(NetworkState::try_multiaddr_on_port("-1").is_none());
}

#[test]
fn test_multiaddr_parse() {
    assert_eq!(
        address("/ip4/127.0.0.1/tcp/4001").to_string(),
        "/ip4/127.0.0.1/tcp/4001"
    );
    assert!(Multiaddr::parse("ip4/127.0.0.1").is_none());
    assert!(Multiaddr::parse("/ip4/999.0.0.1/tcp/1").is_none());
    assert!(Multiaddr::parse("/nonsense/1").is_none());
    let a = address("/ip4/10.0.0.1/tcp/1");
    assert!(a.same_as(&a.clone()));
    assert!(!a.same_as(&address("/ip4/10.0.0.1/tcp/2")));
    // Two spellings of one address are one address.
    assert!(address("/ip4/10.0.0.1/tcp/0080").same_as(&address("/ip4/10.0.0.1/tcp/80")));
    assert_eq!(address("/ip4/10.0.0.1/tcp/0080").to_string(), "/ip4/10.0.0.1/tcp/80");
}

#[test]
fn test_network_state_new() {
    let state = NetworkState::new("/var/lib/node", 9000, key_of_ones(), PeerDirectory::new()).unwrap();
    assert_eq!(state.base_dir, "/var/lib/node");
    assert_eq!(state.listen_multiaddr.to_string(), "/ip4/0.0.0.0/tcp/9000");
    assert_eq!(state.seckey.secret_bytes(), &[1u8; 32]);
    assert_eq!(state.pubkey.serialize_uncompressed().len(), 65);
    assert_eq!(state.peer_id.as_bytes()[..2], [0x12, 0x20]);
    assert!(state.peer_store.peers().is_empty());
    let zero_port = NetworkState::new("", 0, key_of_ones(), PeerDirectory::new()).unwrap();
    assert_eq!(zero_port.listen_multiaddr.to_string(), "/ip4/0.0.0.0/tcp/0");
}

#[test]
fn test_add_peer_twice_keeps_one_record() {
    let mut dir = PeerDirectory::new();
    let a = "/ip4/10.0.0.1/tcp/4001";
    dir.add_peer(peer(b"p"), address(a), 60, 1_000);
    assert_eq!(dir.expiry_of(&peer(b"p"), &address(a)), Some(1_060));
    dir.add_peer(peer(b"p"), address(a), 30, 2_000);
    assert_eq!(dir.peers().len(), 1);
    let addrs = dir.addrs_of(&peer(b"p"));
    assert_eq!(addrs.len(), 1);
    assert_eq!(addrs[0].addr.to_string(), a);
    assert_eq!(addrs[0].expires_at, 2_030);
    assert_eq!(dir.expiry_of(&peer(b"p"), &address(a)), Some(2_030));
    // A refresh may also shorten the expiry: the last call decides.
    dir.add_peer(peer(b"p"), address(a), 1, 5);
    assert_eq!(dir.expiry_of(&peer(b"p"), &address(a)), Some(6));
    assert_eq!(dir.addrs_of(&peer(b"p")).len(), 1);
}

#[test]
fn test_peer_directory_many_peers_and_addresses() {
    let mut dir = PeerDirectory::new();
    assert!(dir.peers().is_empty());
    assert!(dir.addrs_of(&peer(b"p")).is_empty());
    assert_eq!(dir.expiry_of(&peer(b"p"), &address("/ip4/1.1.1.1/tcp/1")), None);
    dir.add_peer(peer(b"p"), address("/ip4/1.1.1.1/tcp/1"), 10, 100);
    dir.add_peer(peer(b"q"), address("/ip4/1.1.1.1/tcp/1"), 20, 100);
    dir.add_peer(peer(b"p"), address("/ip4/2.2.2.2/tcp/2"), 30, 100);
    dir.insert_record(peer(b"r"), address("/ip4/3.3.3.3/tcp/3"), 7);
    let ids: Vec<Vec<u8>> = dir.peers().iter().map(|id| id.as_bytes().to_vec()).collect();
    assert_eq!(ids, vec![b"p".to_vec(), b"q".to_vec(), b"r".to_vec()]);
    assert_eq!(dir.addrs_of(&peer(b"p")).len(), 2);
    assert_eq!(dir.addrs_of(&peer(b"q")).len(), 1);
    assert_eq!(dir.expiry_of(&peer(b"p"), &address("/ip4/1.1.1.1/tcp/1")), Some(110));
    assert_eq!(dir.expiry_of(&peer(b"q"), &address("/ip4/1.1.1.1/tcp/1")), Some(120));
    assert_eq!(dir.expiry_of(&peer(b"p"), &address("/ip4/2.2.2.2/tcp/2")), Some(130));
    assert_eq!(dir.expiry_of(&peer(b"q"), &address("/ip4/2.2.2.2/tcp/2")), None);
    assert_eq!(dir.expiry_of(&peer(b"r"), &address("/ip4/3.3.3.3/tcp/3")), Some(7));
    assert_eq!(dir.expiry_of(&peer(b"s"), &address("/ip4/3.3.3.3/tcp/3")), None);
    dir.add_peer(peer(b"q"), address("/ip4/1.1.1.1/tcp/1"), u64::MAX - 5, 5);
    assert_eq!(dir.expiry_of(&peer(b"q"), &address("/ip4/1.1.1.1/tcp/1")), Some(u64::MAX));
    assert_eq!(dir.expiry_of(&peer(b"p"), &address("/ip4/1.1.1.1/tcp/1")), Some(110));
    assert_eq!(dir.peers().len(), 3);
}

#[test]
fn test_network_state_add_peer() {
    let mut state = NetworkState::new("/d", 9000, key_of_ones(), PeerDirectory::new()).unwrap();
    let id_before = state.peer_id.to_base58();
    state.add_peer(peer(b"p"), address("/ip4/1.1.1.1/tcp/1"), 3_600, 1_700_000_000);
    state.add_peer(peer(b"p"), address("/ip4/1.1.1.1/tcp/1"), 7_200, 1_700_000_001);
    assert_eq!(state.peer_store.peers().len(), 1);
    assert_eq!(state.peer_store.addrs_of(&peer(b"p")).len(), 1);
    assert_eq!(
        state.peer_store.expiry_of(&peer(b"p"), &address("/ip4/1.1.1.1/tcp/1")),
        Some(1_700_007_201)
    );
    assert_eq!(state.peer_id.to_base58(), id_before);
    assert_eq!(state.base_dir, "/d");
    assert_eq!(state.listen_multiaddr.to_string(), "/ip4/0.0.0.0/tcp/9000");
}

#[test]
fn test_bootstrap_with_a_good_key_file() {
    let (state, action) = Bootstrap::start();
    assert!(matches!(state, Bootstrap::ReadingKeyFile));
    assert!(matches!(action, BootstrapAction::ReadKeyFile));
    let read = BootstrapEvent::KeyFileRead(Some(key_file_of_ones()));
    let (state, action) = state.step(read, "/d", 9000);
    assert!(matches!(action, BootstrapAction::LoadPeerStore));
    match &state {
        Bootstrap::LoadingPeerStore { seckey } => assert_eq!(seckey.secret_bytes(), &[1u8; 32]),
        _ => panic!("the key file held a key"),
    }
    let mut peers = PeerDirectory::new();
    peers.insert_record(peer(b"p"), address("/ip4/1.1.1.1/tcp/1"), 9);
    let (state, action) = state.step(BootstrapEvent::PeerStoreLoaded(Some(peers)), "/d", 9000);
    assert!(matches!(state, Bootstrap::Finished));
    match action {
        BootstrapAction::Done(network) => {
            assert_eq!(network.base_dir, "/d");
            assert_eq!(network.seckey.secret_bytes(), &[1u8; 32]);
            assert_eq!(network.listen_multiaddr.to_string(), "/ip4/0.0.0.0/tcp/9000");
            assert_eq!(network.peer_store.peers().len(), 1);
            let expected = NetworkState::new("/d", 9000, key_of_ones(), PeerDirectory::new()).unwrap();
            assert_eq!(network.peer_id.to_base58(), expected.peer_id.to_base58());
        }
        _ => panic!("the setup had all it needed"),
    }
    let (state, action) = state.step(BootstrapEvent::KeyPersisted(true), "/d", 9000);
    assert!(matches!(state, Bootstrap::Finished));
    assert!(matches!(action, BootstrapAction::Halt));
}

fn written_key(state: &Bootstrap, action: &BootstrapAction) -> Vec<u8> {
    match (state, action) {
        (Bootstrap::PersistingKey { seckey, text }, BootstrapAction::PersistKey(written)) => {
            assert_eq!(text, written);
            assert_eq!(written, &NetworkState::encode_secret_key(seckey));
            seckey.secret_bytes().to_vec()
        }
        _ => panic!("a fresh key was due"),
    }
}

#[test]
fn test_bootstrap_without_a_key_file_makes_one_and_reads_it_back() {
    let (state, _) = Bootstrap::start();
    let (state, action) = state.step(BootstrapEvent::KeyFileRead(None), "/d", 9000);
    let fresh = written_key(&state, &action);
    let text = match action {
        BootstrapAction::PersistKey(text) => text,
        _ => panic!("a fresh key was due"),
    };
    let (state, action) = state.step(BootstrapEvent::KeyPersisted(true), "/d", 9000);
    assert!(matches!(action, BootstrapAction::LoadPeerStore));
    let (_, action) = state.step(BootstrapEvent::PeerStoreLoaded(Some(PeerDirectory::new())), "/d", 9000);
    let first_id = match action {
        BootstrapAction::Done(network) => {
            assert_eq!(network.seckey.secret_bytes(), &fresh[..]);
            network.peer_id.to_base58()
        }
        _ => panic!("the setup had all it needed"),
    };

    // A second setup finds the file that the first one wrote.
    let (state, _) = Bootstrap::start();
    let (state, action) = state.step(BootstrapEvent::KeyFileRead(Some(text)), "/d", 9000);
    assert!(matches!(action, BootstrapAction::LoadPeerStore));
    let (_, action) = state.step(BootstrapEvent::PeerStoreLoaded(Some(PeerDirectory::new())), "/d", 9000);
    match action {
        BootstrapAction::Done(network) => assert_eq!(network.peer_id.to_base58(), first_id),
        _ => panic!("the setup had all it needed"),
    }
}

#[test]
fn test_bootstrap_with_a_malformed_key_file_overwrites_it() {
    for broken in [String::new(), "garbage".to_string(), envelope(KEY_FILE_TAG, "AQEB", "\n")] {
        let (state, _) = Bootstrap::start();
        let read = BootstrapEvent::KeyFileRead(Some(broken));
        let (state, action) = state.step(read, "/d", 9000);
        let fresh = written_key(&state, &action);
        assert_eq!(fresh.len(), 32);
        let (state, action) = state.step(BootstrapEvent::KeyPersisted(true), "/d", 9000);
        assert!(matches!(state, Bootstrap::LoadingPeerStore { .. }));
        assert!(matches!(action, BootstrapAction::LoadPeerStore));
    }
}

#[test]
fn test_bootstrap_fails_when_the_key_cannot_be_written() {
    let (state, _) = Bootstrap::start();
    let (state, _) = state.step(BootstrapEvent::KeyFileRead(None), "/d", 9000);
    let (state, action) = state.step(BootstrapEvent::KeyPersisted(false), "/d", 9000);
    assert!(matches!(state, Bootstrap::Finished));
    assert!(matches!(
        action,
        BootstrapAction::Abort(NetworkStateInitFailed::NodeIdentityUnavailable)
    ));
}

#[test]
fn test_bootstrap_fails_without_a_peer_store() {
    let (state, _) = Bootstrap::start();
    let read = BootstrapEvent::KeyFileRead(Some(key_file_of_ones()));
    let (state, _) = state.step(read, "/d", 9000);
    let (state, action) = state.step(BootstrapEvent::PeerStoreLoaded(None), "/d", 9000);
    assert!(matches!(state, Bootstrap::Finished));
    assert!(matches!(
        action,
        BootstrapAction::Abort(NetworkStateInitFailed::PeerStoreUnavailable)
    ));
}

#[test]
fn test_bootstrap_repeats_the_pending_action_on_a_stray_event() {
    let (state, _) = Bootstrap::start();
    let (state, action) = state.step(BootstrapEvent::KeyPersisted(true), "/d", 9000);
    assert!(matches!(state, Bootstrap::ReadingKeyFile));
    assert!(matches!(action, BootstrapAction::ReadKeyFile));
    let (state, action) = state.step(BootstrapEvent::PeerStoreLoaded(None), "/d", 9000);
    assert!(matches!(state, Bootstrap::ReadingKeyFile));
    assert!(matches!(action, BootstrapAction::ReadKeyFile));

    let (state, action) = state.step(BootstrapEvent::KeyFileRead(None), "/d", 9000);
    let fresh = written_key(&state, &action);
    let (state, action) = state.step(BootstrapEvent::KeyFileRead(None), "/d", 9000);
    assert_eq!(written_key(&state, &action), fresh);
    let (state, action) = state.step(BootstrapEvent::PeerStoreLoaded(None), "/d", 9000);
    assert_eq!(written_key(&state, &action), fresh);

    let (state, _) = state.step(BootstrapEvent::KeyPersisted(true), "/d", 9000);
    let (state, action) = state.step(BootstrapEvent::KeyPersisted(false), "/d", 9000);
    assert!(matches!(action, BootstrapAction::LoadPeerStore));
    match state {
        Bootstrap::LoadingPeerStore { seckey } => assert_eq!(seckey.secret_bytes(), &fresh[..]),
        _ => panic!("the key was settled"),
    }
}
