//! The directory of known peers: for each peer identifier, the addresses it was seen at,
//! each with the time at which it expires.

use vstd::prelude::*;
use crate::assoc::{
    assoc_map, has_key, keys_distinct, lemma_assoc_at, lemma_assoc_push, lemma_assoc_update,
};
use crate::identity::PeerId;
use crate::multiaddr::Multiaddr;

verus! {

/// What a directory holds: for each known peer, the expiry of each known address, in
/// seconds since the epoch.
pub type Directory = Map<Seq<u8>, Map<Seq<char>, u64>>;

/// The addresses that `dir` knows of `peer`: none where it does not know the peer.
pub open spec fn addresses_of(dir: Directory, peer: Seq<u8>) -> Map<Seq<char>, u64> {
    if dir.dom().contains(peer) {
        dir[peer]
    } else {
        Map::empty()
    }
}

/// `dir` after `addr` was recorded for `peer` with the expiry `expires_at`: the address
/// is known of the peer with that expiry, and nothing else has changed.
pub open spec fn with_address(
    dir: Directory,
    peer: Seq<u8>,
    addr: Seq<char>,
    expires_at: u64,
) -> Directory {
    dir.insert(peer, addresses_of(dir, peer).insert(addr, expires_at))
}

/// An address and the time at which it expires.
pub struct AddressRecord {
    pub addr: Multiaddr,
    pub expires_at: u64,
}

/// A peer and what is known of it.
pub struct PeerRecord {
    peer_id: PeerId,
    addrs: Vec<AddressRecord>,
}

/// The directory of known peers.
pub struct PeerDirectory {
    records: Vec<PeerRecord>,
}

/// The address records as pairs of address and expiry.
pub open spec fn addr_entries(addrs: Seq<AddressRecord>) -> Seq<(Seq<char>, u64)> {
    addrs.map_values(|r: AddressRecord| (r.addr@, r.expires_at))
}

/// The peer records as pairs of identifier and known addresses.
pub closed spec fn peer_entries(records: Seq<PeerRecord>) -> Seq<(Seq<u8>, Map<Seq<char>, u64>)> {
    records.map_values(|r: PeerRecord| (r.peer_id@, assoc_map(addr_entries(r.addrs@))))
}

/// No peer stands twice among the records, and no address twice in a record.
pub closed spec fn records_wf(records: Seq<PeerRecord>) -> bool {
    &&& keys_distinct(peer_entries(records))
    &&& forall|i: int|
        0 <= i < records.len() ==> keys_distinct(addr_entries((#[trigger] records[i]).addrs@))
}

/// The identifiers that a list of peers names.
pub open spec fn peer_ids(ids: Seq<PeerId>) -> Seq<Seq<u8>> {
    ids.map_values(|id: PeerId| id@)
}

impl View for PeerDirectory {
    type V = Directory;

    closed spec fn view(&self) -> Directory {
        assoc_map(peer_entries(self.records@))
    }
}

/// The place of `addr` among `addrs`, if it is there.
fn find_addr(addrs: &Vec<AddressRecord>, addr: &Multiaddr) -> (place: Option<usize>)
    ensures
        match place {
            Some(i) => i < addrs@.len() && addrs@[i as int].addr@ == addr@,
            None => !has_key(addr_entries(addrs@), addr@),
        },
{
    let mut i: usize = 0;
    while i < addrs.len()
        invariant
            i <= addrs@.len(),
            forall|j: int| 0 <= j < i ==> (#[trigger] addr_entries(addrs@)[j]).0 != addr@,
        decreases addrs.len() - i,
    {
        if addrs[i].addr.same_as(addr) {
            return Some(i);
        }
        assert(addr_entries(addrs@)[i as int].0 == addrs@[i as int].addr@);
        i += 1;
    }
    None
}

/// The place of the record of `peer_id` among `records`, if there is one.
fn find_peer(records: &Vec<PeerRecord>, peer_id: &PeerId) -> (place: Option<usize>)
    ensures
        match place {
            Some(i) => i < records@.len() && records@[i as int].peer_id@ == peer_id@,
            None => !has_key(peer_entries(records@), peer_id@),
        },
{
    let mut i: usize = 0;
    while i < records.len()
        invariant
            i <= records@.len(),
            forall|j: int| 0 <= j < i ==> (#[trigger] peer_entries(records@)[j]).0 != peer_id@,
        decreases records.len() - i,
    {
        if records[i].peer_id.same_as(peer_id) {
            return Some(i);
        }
        assert(peer_entries(records@)[i as int].0 == records@[i as int].peer_id@);
        i += 1;
    }
    None
}

/// Records `addr` with `expires_at` among `addrs`: in place of the record that holds the
/// address, or at the end where none does.
fn upsert_addr(addrs: &mut Vec<AddressRecord>, addr: Multiaddr, expires_at: u64)
    requires
        keys_distinct(addr_entries(old(addrs)@)),
    ensures
        keys_distinct(addr_entries(final(addrs)@)),
        assoc_map(addr_entries(final(addrs)@)) == assoc_map(addr_entries(old(addrs)@)).insert(
            addr@,
            expires_at,
        ),
{
    let ghost before = addr_entries(addrs@);
    match find_addr(addrs, &addr) {
        Some(i) => {
            addrs.remove(i);
            addrs.insert(i, AddressRecord { addr, expires_at });
            proof {
                lemma_assoc_update(before, i as int, expires_at);
                assert(addr_entries(addrs@) =~= before.update(i as int, (before[i as int].0, expires_at)));
            }
        },
        None => {
            addrs.push(AddressRecord { addr, expires_at });
            proof {
                lemma_assoc_push(before, addr@, expires_at);
                assert(addr_entries(addrs@) =~= before.push((addr@, expires_at)));
            }
        },
    }
}

/// Records `addr` with `expires_at` for `peer_id` among `records`.
fn upsert_peer(records: &mut Vec<PeerRecord>, peer_id: PeerId, addr: Multiaddr, expires_at: u64)
    requires
        records_wf(old(records)@),
    ensures
        records_wf(final(records)@),
        assoc_map(peer_entries(final(records)@)) == with_address(
            assoc_map(peer_entries(old(records)@)),
            peer_id@,
            addr@,
            expires_at,
        ),
{
    let ghost old_records = records@;
    let ghost before = peer_entries(records@);
    let ghost dir = assoc_map(before);
    match find_peer(records, &peer_id) {
        Some(i) => {
            let mut record = records.remove(i);
            let ghost known = assoc_map(addr_entries(record.addrs@));
            assert(record == old_records[i as int]);
            proof {
                lemma_assoc_at(before, i as int);
                assert(before[i as int] == (peer_id@, known));
            }
            upsert_addr(&mut record.addrs, addr, expires_at);
            records.insert(i, record);
            proof {
                let updated = known.insert(addr@, expires_at);
                lemma_assoc_update(before, i as int, updated);
                assert(peer_entries(records@) =~= before.update(i as int, (peer_id@, updated)));
                assert forall|j: int| 0 <= j < records@.len() implies keys_distinct(
                    addr_entries((#[trigger] records@[j]).addrs@),
                ) by {
                    if j != i {
                        assert(records@[j] == old_records[j]);
                    }
                }
            }
        },
        None => {
            let mut addrs: Vec<AddressRecord> = Vec::new();
            assert(addr_entries(addrs@) =~= Seq::empty());
            assert(assoc_map(addr_entries(addrs@)) =~= Map::<Seq<char>, u64>::empty());
            upsert_addr(&mut addrs, addr, expires_at);
            records.push(PeerRecord { peer_id, addrs });
            proof {
                let fresh = Map::<Seq<char>, u64>::empty().insert(addr@, expires_at);
                lemma_assoc_push(before, peer_id@, fresh);
                assert(peer_entries(records@) =~= before.push((peer_id@, fresh)));
                assert(!dir.dom().contains(peer_id@));
                assert forall|j: int| 0 <= j < records@.len() implies keys_distinct(
                    addr_entries((#[trigger] records@[j]).addrs@),
                ) by {
                    if j < old_records.len() {
                        assert(records@[j] == old_records[j]);
                    }
                }
            }
        },
    }
}

impl PeerDirectory {
    #[verifier::type_invariant]
    spec fn wf(self) -> bool {
        records_wf(self.records@)
    }

    /// A directory that knows no peer.
    pub fn new() -> (dir: PeerDirectory)
        ensures
            dir@ == Map::<Seq<u8>, Map<Seq<char>, u64>>::empty(),
    {
        let records: Vec<PeerRecord> = Vec::new();
        assert(peer_entries(records@) =~= Seq::empty());
        assert(assoc_map(peer_entries(records@)) =~= Map::<Seq<u8>, Map<Seq<char>, u64>>::empty());
        PeerDirectory { records }
    }

    /// Records that `addr` is an address of `peer_id` until `expires_at`. An address that
    /// is already known of the peer gets the new expiry; it is not recorded twice.
    pub fn insert_record(&mut self, peer_id: PeerId, addr: Multiaddr, expires_at: u64)
        ensures
            final(self)@ == with_address(old(self)@, peer_id@, addr@, expires_at),
    {
        proof {
            use_type_invariant(&*self);
        }
        let mut records: Vec<PeerRecord> = Vec::new();
        assert(peer_entries(records@) =~= Seq::empty());
        core::mem::swap(&mut self.records, &mut records);
        upsert_peer(&mut records, peer_id, addr, expires_at);
        core::mem::swap(&mut self.records, &mut records);
    }

    /// The identifiers of the known peers, each once.
    pub fn peers(&self) -> (ids: Vec<PeerId>)
        ensures
            peer_ids(ids@).no_duplicates(),
            peer_ids(ids@).to_set() == self@.dom(),
    {
        proof {
            use_type_invariant(self);
        }
        let ghost entries = peer_entries(self.records@);
        let mut ids: Vec<PeerId> = Vec::new();
        let mut i: usize = 0;
        while i < self.records.len()
            invariant
                i <= self.records@.len(),
                entries == peer_entries(self.records@),
                ids@.len() == i,
                forall|j: int| 0 <= j < i ==> (#[trigger] ids@[j])@ == entries[j].0,
            decreases self.records.len() - i,
        {
            ids.push(self.records[i].peer_id.clone());
            i += 1;
        }
        proof {
            let listed = peer_ids(ids@);
            assert forall|a: int, b: int| 0 <= a < listed.len() && 0 <= b < listed.len() && a != b
                implies listed[a] != listed[b] by {
                assert(listed[a] == ids@[a]@ && listed[b] == ids@[b]@);
                if a < b {
                    assert(entries[a].0 != entries[b].0);
                } else {
                    assert(entries[b].0 != entries[a].0);
                }
            }
            assert forall|k: Seq<u8>| #[trigger] listed.to_set().contains(k) <==> self@.dom().contains(
                k,
            ) by {
                if listed.contains(k) {
                    let j = choose|j: int| 0 <= j < listed.len() && listed[j] == k;
                    assert(ids@[j]@ == entries[j].0);
                }
                if has_key(entries, k) {
                    let j = choose|j: int| 0 <= j < entries.len() && (#[trigger] entries[j]).0 == k;
                    assert(listed[j] == ids@[j]@);
                }
            }
            assert(listed.to_set() =~= self@.dom());
        }
        ids
    }

    /// The addresses that are known of `peer_id`, each once, with their expiry.
    pub fn addrs_of(&self, peer_id: &PeerId) -> (addrs: Vec<AddressRecord>)
        ensures
            keys_distinct(addr_entries(addrs@)),
            assoc_map(addr_entries(addrs@)) == addresses_of(self@, peer_id@),
    {
        proof {
            use_type_invariant(self);
        }
        let mut addrs: Vec<AddressRecord> = Vec::new();
        match find_peer(&self.records, peer_id) {
            Some(p) => {
                let known = &self.records[p].addrs;
                proof {
                    lemma_assoc_at(peer_entries(self.records@), p as int);
                }
                let mut i: usize = 0;
                while i < known.len()
                    invariant
                        i <= known@.len(),
                        addr_entries(addrs@) == addr_entries(known@).take(i as int),
                    decreases known.len() - i,
                {
                    let ghost copied = addrs@;
                    let addr = known[i].addr.clone();
                    addrs.push(AddressRecord { addr, expires_at: known[i].expires_at });
                    proof {
                        let entry = addr_entries(known@)[i as int];
                        assert(entry == (known@[i as int].addr@, known@[i as int].expires_at));
                        assert(addr_entries(addrs@) =~= addr_entries(copied).push(entry));
                        assert(addr_entries(known@).take(i + 1) =~= addr_entries(known@).take(
                            i as int,
                        ).push(entry));
                    }
                    i += 1;
                }
                assert(addr_entries(known@).take(known@.len() as int) =~= addr_entries(known@));
            },
            None => {
                assert(addr_entries(addrs@) =~= Seq::empty());
                assert(assoc_map(addr_entries(addrs@)) =~= Map::<Seq<char>, u64>::empty());
            },
        }
        addrs
    }

    /// The expiry of `addr` as an address of `peer_id`, if it is known as one.
    pub fn expiry_of(&self, peer_id: &PeerId, addr: &Multiaddr) -> (expires_at: Option<u64>)
        ensures
            expires_at == if addresses_of(self@, peer_id@).dom().contains(addr@) {
                Some(addresses_of(self@, peer_id@)[addr@])
            } else {
                None
            },
    {
        proof {
            use_type_invariant(self);
        }
        match find_peer(&self.records, peer_id) {
            Some(p) => {
                let known = &self.records[p].addrs;
                proof {
                    lemma_assoc_at(peer_entries(self.records@), p as int);
                }
                match find_addr(known, addr) {
                    Some(a) => {
                        proof {
                            lemma_assoc_at(addr_entries(known@), a as int);
                        }
                        Some(known[a].expires_at)
                    },
                    None => None,
                }
            },
            None => None,
        }
    }

    /// Records that `addr` is an address of `peer_id` for `ttl` seconds from `now`.
    pub fn add_peer(&mut self, peer_id: PeerId, addr: Multiaddr, ttl: u64, now: u64)
        requires
            now + ttl <= u64::MAX,
        ensures
            final(self)@ == with_address(old(self)@, peer_id@, addr@, (now + ttl) as u64),
    {
        self.insert_record(peer_id, addr, now + ttl);
    }
}

/// Recording the same address of the same peer twice leaves one record of the pair, with
/// the expiry that was given last: the directory is what a single recording with that
/// expiry would have made of it.
pub proof fn lemma_add_peer_twice(
    dir: Directory,
    peer: Seq<u8>,
    addr: Seq<char>,
    first: u64,
    second: u64,
)
    ensures
        with_address(with_address(dir, peer, addr, first), peer, addr, second) == with_address(
            dir,
            peer,
            addr,
            second,
        ),
        addresses_of(with_address(with_address(dir, peer, addr, first), peer, addr, second), peer)[addr]
            == second,
        addresses_of(
            with_address(with_address(dir, peer, addr, first), peer, addr, second),
            peer,
        ).dom() == addresses_of(with_address(dir, peer, addr, first), peer).dom(),
{
    let once = with_address(dir, peer, addr, first);
    let twice = with_address(once, peer, addr, second);
    assert(addresses_of(once, peer).insert(addr, second) =~= addresses_of(dir, peer).insert(
        addr,
        second,
    ));
    assert(twice =~= with_address(dir, peer, addr, second));
    assert(addresses_of(twice, peer).dom() =~= addresses_of(once, peer).dom());
}

/// Recording an address of a peer changes nothing that the directory holds of another
/// peer, and nothing that it holds of another address of the same peer.
pub proof fn lemma_add_peer_keeps_others(
    dir: Directory,
    peer: Seq<u8>,
    addr: Seq<char>,
    expires_at: u64,
    other_peer: Seq<u8>,
    other_addr: Seq<char>,
)
    requires
        other_peer != peer || other_addr != addr,
    ensures
        addresses_of(with_address(dir, peer, addr, expires_at), other_peer).dom().contains(other_addr)
            == addresses_of(dir, other_peer).dom().contains(other_addr),
        addresses_of(dir, other_peer).dom().contains(other_addr) ==> addresses_of(
            with_address(dir, peer, addr, expires_at),
            other_peer,
        )[other_addr] == addresses_of(dir, other_peer)[other_addr],
{
}

} // verus!
