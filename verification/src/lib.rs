//! Canonical encoding of consensus records and node identity bootstrap.

pub mod assoc;
pub mod attestation_record;
pub mod block;
pub mod bootstrap;
pub mod identity;
pub mod multiaddr;
pub mod peer_directory;
pub mod ssz;
pub mod state;
pub mod trusted;
pub mod types;
