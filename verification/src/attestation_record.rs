//! The attestation record that a block carries.

use vstd::prelude::*;
use crate::ssz::{
    concat_encodings, lemma_hashes_encoding, lemma_hashes_injective, lemma_uint_word_injective,
    uint_word, vec_encoding, Encodable, SszStream,
};
use crate::types::{lemma_hash_known_by_view, Hash256};

verus! {

/// A vote of a committee for a block of one shard at one slot.
pub struct AttestationRecord {
    pub slot: u64,
    pub shard_id: u16,
    pub oblique_parent_hashes: Vec<Hash256>,
    pub shard_block_hash: Hash256,
}

/// What an attestation record holds.
pub struct AttestationContent {
    pub slot: u64,
    pub shard_id: u16,
    pub oblique_parent_hashes: Seq<Hash256>,
    pub shard_block_hash: Hash256,
}

impl View for AttestationRecord {
    type V = AttestationContent;

    open spec fn view(&self) -> AttestationContent {
        AttestationContent {
            slot: self.slot,
            shard_id: self.shard_id,
            oblique_parent_hashes: self.oblique_parent_hashes@,
            shard_block_hash: self.shard_block_hash,
        }
    }
}

impl AttestationRecord {
    /// The canonical encoding of a record: slot, shard, the vector of oblique parent
    /// hashes, the shard block hash.
    pub open spec fn encoding(&self) -> Seq<u8> {
        uint_word(self.slot as nat) + uint_word(self.shard_id as nat) + vec_encoding(
            self.oblique_parent_hashes@,
        ) + self.shard_block_hash@
    }

    /// The record with every field unset.
    pub fn zero() -> (r: AttestationRecord)
        ensures
            r.slot == 0,
            r.shard_id == 0,
            r.oblique_parent_hashes@ == Seq::<Hash256>::empty(),
            r.shard_block_hash@ == crate::types::zero_hash(),
    {
        AttestationRecord {
            slot: 0,
            shard_id: 0,
            oblique_parent_hashes: Vec::new(),
            shard_block_hash: Hash256::zero(),
        }
    }
}

/// An encoded record says where it ends and what it holds: where the encodings of two
/// records, each followed by more bytes, are the same bytes, the records hold the same
/// and so do the bytes that follow.
pub proof fn lemma_record_encoding_injective(
    a: AttestationRecord,
    b: AttestationRecord,
    after_a: Seq<u8>,
    after_b: Seq<u8>,
)
    requires
        a.encoding() + after_a == b.encoding() + after_b,
    ensures
        a@ == b@,
        after_a == after_b,
{
    let ea = a.encoding() + after_a;
    let eb = b.encoding() + after_b;
    let ha = a.oblique_parent_hashes@;
    let hb = b.oblique_parent_hashes@;
    vstd::std_specs::vec::axiom_spec_len(&a.oblique_parent_hashes);
    vstd::std_specs::vec::axiom_spec_len(&b.oblique_parent_hashes);
    lemma_hashes_encoding(ha);
    lemma_hashes_encoding(hb);
    let na = ha.len() as int;
    let nb = hb.len() as int;
    assert(a.shard_block_hash@.len() == 32);
    assert(b.shard_block_hash@.len() == 32);

    assert(ea.subrange(0, 32) =~= uint_word(a.slot as nat));
    assert(eb.subrange(0, 32) =~= uint_word(b.slot as nat));
    lemma_uint_word_injective(a.slot, b.slot);

    assert(ea.subrange(32, 64) =~= uint_word(a.shard_id as nat));
    assert(eb.subrange(32, 64) =~= uint_word(b.shard_id as nat));
    lemma_uint_word_injective(a.shard_id as u64, b.shard_id as u64);

    assert(ea.subrange(64, 96) =~= uint_word(ha.len()));
    assert(eb.subrange(64, 96) =~= uint_word(hb.len()));
    lemma_uint_word_injective(ha.len() as u64, hb.len() as u64);
    assert(na == nb);

    assert(ea.subrange(96, 96 + 32 * na) =~= concat_encodings(ha));
    assert(eb.subrange(96, 96 + 32 * nb) =~= concat_encodings(hb));
    lemma_hashes_injective(ha, hb);

    assert(ea.subrange(96 + 32 * na, 128 + 32 * na) =~= a.shard_block_hash@);
    assert(eb.subrange(96 + 32 * nb, 128 + 32 * nb) =~= b.shard_block_hash@);
    lemma_hash_known_by_view(a.shard_block_hash, b.shard_block_hash);

    assert(ea.subrange(128 + 32 * na, ea.len() as int) =~= after_a);
    assert(eb.subrange(128 + 32 * nb, eb.len() as int) =~= after_b);
}

impl Encodable for AttestationRecord {
    open spec fn ssz_bytes(&self) -> Seq<u8> {
        self.encoding()
    }

    fn ssz_append(&self, s: &mut SszStream) {
        s.append(&self.slot);
        s.append(&self.shard_id);
        s.append_vec(&self.oblique_parent_hashes);
        s.append(&self.shard_block_hash);
    }
}

} // verus!
