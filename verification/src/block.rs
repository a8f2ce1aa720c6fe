//! The block record and its two encodings.

use vstd::prelude::*;
use crate::attestation_record::{
    lemma_record_encoding_injective, AttestationContent, AttestationRecord,
};
use crate::ssz::{
    concat_encodings, lemma_concat_front, lemma_uint_word_injective, uint_word, vec_encoding,
    Encodable, SszStream,
};
use crate::types::{lemma_hash_known_by_view, zero_hash, Hash256};

verus! {

/// Number of bytes in the signing encoding of a block: six words.
pub const SSZ_BLOCK_LENGTH: usize = 192;

/// One unit of the chain.
pub struct Block {
    pub parent_hash: Hash256,
    pub slot_number: u64,
    pub randao_reveal: Hash256,
    pub attestations: Vec<AttestationRecord>,
    pub pow_chain_ref: Hash256,
    pub active_state_root: Hash256,
    pub crystallized_state_root: Hash256,
}

/// What a block holds.
pub struct BlockContent {
    pub parent_hash: Hash256,
    pub slot_number: u64,
    pub randao_reveal: Hash256,
    pub attestations: Seq<AttestationContent>,
    pub pow_chain_ref: Hash256,
    pub active_state_root: Hash256,
    pub crystallized_state_root: Hash256,
}

/// What each of the records holds.
pub open spec fn contents_of(records: Seq<AttestationRecord>) -> Seq<AttestationContent> {
    records.map_values(|r: AttestationRecord| r@)
}

impl View for Block {
    type V = BlockContent;

    open spec fn view(&self) -> BlockContent {
        BlockContent {
            parent_hash: self.parent_hash,
            slot_number: self.slot_number,
            randao_reveal: self.randao_reveal,
            attestations: contents_of(self.attestations@),
            pow_chain_ref: self.pow_chain_ref,
            active_state_root: self.active_state_root,
            crystallized_state_root: self.crystallized_state_root,
        }
    }
}

/// Where the encodings of two sequences of records of one length, each followed by more
/// bytes, are the same bytes, the records hold the same and so do the bytes that follow.
pub proof fn lemma_records_encoding_injective(
    a: Seq<AttestationRecord>,
    b: Seq<AttestationRecord>,
    after_a: Seq<u8>,
    after_b: Seq<u8>,
)
    requires
        a.len() == b.len(),
        concat_encodings(a) + after_a == concat_encodings(b) + after_b,
    ensures
        contents_of(a) == contents_of(b),
        after_a == after_b,
    decreases a.len(),
{
    if a.len() == 0 {
        assert(concat_encodings(a) + after_a =~= after_a);
        assert(concat_encodings(b) + after_b =~= after_b);
        assert(contents_of(a) =~= contents_of(b));
    } else {
        lemma_concat_front(a);
        lemma_concat_front(b);
        let rest_a = concat_encodings(a.drop_first()) + after_a;
        let rest_b = concat_encodings(b.drop_first()) + after_b;
        assert(a.first().encoding() + rest_a =~= concat_encodings(a) + after_a);
        assert(b.first().encoding() + rest_b =~= concat_encodings(b) + after_b);
        lemma_record_encoding_injective(a.first(), b.first(), rest_a, rest_b);
        lemma_records_encoding_injective(a.drop_first(), b.drop_first(), after_a, after_b);
        assert forall|i: int| 0 <= i < a.len() implies contents_of(a)[i] == contents_of(b)[i] by {
            if i > 0 {
                assert(contents_of(a.drop_first())[i - 1] == a[i]@);
                assert(contents_of(b.drop_first())[i - 1] == b[i]@);
            }
        }
        assert(contents_of(a) =~= contents_of(b));
    }
}

impl Block {
    /// The fields that come before the attestations in both encodings: parent hash,
    /// slot number, randao reveal.
    pub open spec fn head_encoding(&self) -> Seq<u8> {
        self.parent_hash@ + uint_word(self.slot_number as nat) + self.randao_reveal@
    }

    /// The fields that come after the attestations in the full encoding: the reference
    /// into the proof-of-work chain, the active state root, the crystallized state root.
    pub open spec fn tail_encoding(&self) -> Seq<u8> {
        self.pow_chain_ref@ + self.active_state_root@ + self.crystallized_state_root@
    }

    /// What a signature covers: every field but the attestations, in the order of the
    /// full encoding.
    pub open spec fn signing_encoding(&self) -> Seq<u8> {
        self.head_encoding() + self.tail_encoding()
    }

    /// The attestations as they stand in the full encoding: their number, then each
    /// record's own encoding, in order.
    pub open spec fn attestations_encoding(&self) -> Seq<u8> {
        vec_encoding(self.attestations@)
    }

    /// The encoding of the complete block, for storage and for the wire.
    pub open spec fn full_encoding(&self) -> Seq<u8> {
        self.head_encoding() + self.attestations_encoding() + self.tail_encoding()
    }

    /// The block with every hash zero, slot zero and no attestations.
    pub fn zero() -> (b: Block)
        ensures
            b.parent_hash@ == zero_hash(),
            b.slot_number == 0,
            b.randao_reveal@ == zero_hash(),
            b.attestations@ == Seq::<AttestationRecord>::empty(),
            b.pow_chain_ref@ == zero_hash(),
            b.active_state_root@ == zero_hash(),
            b.crystallized_state_root@ == zero_hash(),
    {
        Block {
            parent_hash: Hash256::zero(),
            slot_number: 0,
            randao_reveal: Hash256::zero(),
            attestations: Vec::new(),
            pow_chain_ref: Hash256::zero(),
            active_state_root: Hash256::zero(),
            crystallized_state_root: Hash256::zero(),
        }
    }

    /// Return the bytes that should be signed in order to attest for this block.
    pub fn encode_for_signing(&self) -> (encoded: [u8; 192])
        ensures
            encoded@ == self.signing_encoding(),
    {
        let mut s = SszStream::new();
        s.append(&self.parent_hash);
        s.append(&self.slot_number);
        s.append(&self.randao_reveal);
        s.append(&self.pow_chain_ref);
        s.append(&self.active_state_root);
        s.append(&self.crystallized_state_root);
        let vec = s.drain();
        proof {
            Self::lemma_signing_encoding_length(*self);
            assert(vec@ =~= self.signing_encoding());
        }
        let mut encoded = [0u8; 192];
        let mut i: usize = 0;
        while i < 192
            invariant
                i <= 192,
                vec@.len() == 192,
                forall|j: int| 0 <= j < i ==> encoded@[j] == vec@[j],
            decreases 192 - i,
        {
            encoded[i] = vec[i];
            i += 1;
        }
        assert(encoded@ =~= vec@);
        encoded
    }

    /// The signing encoding of every block is 192 bytes long, whatever its attestations.
    pub proof fn lemma_signing_encoding_length(b: Block)
        ensures
            b.signing_encoding().len() == SSZ_BLOCK_LENGTH,
    {
    }

    /// The signing encoding is the full encoding with the attestations cut out: the full
    /// encoding's first three words, then everything after its attestations.
    pub proof fn lemma_signing_encoding_skips_attestations(b: Block)
        ensures
            b.full_encoding().len() == SSZ_BLOCK_LENGTH + b.attestations_encoding().len(),
            b.signing_encoding() == b.full_encoding().subrange(0, 96) + b.full_encoding().subrange(
                96 + b.attestations_encoding().len() as int,
                b.full_encoding().len() as int,
            ),
            b.attestations_encoding() == b.full_encoding().subrange(
                96,
                96 + b.attestations_encoding().len() as int,
            ),
    {
        let full = b.full_encoding();
        let cut = b.attestations_encoding().len() as int;
        assert(b.head_encoding().len() == 96);
        assert(b.tail_encoding().len() == 96);
        assert(full.subrange(0, 96) =~= b.head_encoding());
        assert(full.subrange(96 + cut, full.len() as int) =~= b.tail_encoding());
        assert(full.subrange(96, 96 + cut) =~= b.attestations_encoding());
    }
}

/// The full encoding says all that a block holds: two blocks with the same full
/// encoding hold the same in every field, the attestations and their order included. So
/// a decoder can give back the block that was encoded, and no other.
pub proof fn lemma_full_encoding_injective(a: Block, b: Block)
    requires
        a.full_encoding() == b.full_encoding(),
    ensures
        a@ == b@,
{
    let ea = a.full_encoding();
    let eb = b.full_encoding();
    let ra = a.attestations@;
    let rb = b.attestations@;
    vstd::std_specs::vec::axiom_spec_len(&a.attestations);
    vstd::std_specs::vec::axiom_spec_len(&b.attestations);

    assert(a.head_encoding().len() == 96 && b.head_encoding().len() == 96);
    assert(ea.subrange(0, 32) =~= a.parent_hash@);
    assert(eb.subrange(0, 32) =~= b.parent_hash@);
    lemma_hash_known_by_view(a.parent_hash, b.parent_hash);
    assert(ea.subrange(32, 64) =~= uint_word(a.slot_number as nat));
    assert(eb.subrange(32, 64) =~= uint_word(b.slot_number as nat));
    lemma_uint_word_injective(a.slot_number, b.slot_number);
    assert(ea.subrange(64, 96) =~= a.randao_reveal@);
    assert(eb.subrange(64, 96) =~= b.randao_reveal@);
    lemma_hash_known_by_view(a.randao_reveal, b.randao_reveal);

    assert(ea.subrange(96, 128) =~= uint_word(ra.len()));
    assert(eb.subrange(96, 128) =~= uint_word(rb.len()));
    lemma_uint_word_injective(ra.len() as u64, rb.len() as u64);

    let ta = a.tail_encoding();
    let tb = b.tail_encoding();
    assert(ea.subrange(128, ea.len() as int) =~= concat_encodings(ra) + ta);
    assert(eb.subrange(128, eb.len() as int) =~= concat_encodings(rb) + tb);
    lemma_records_encoding_injective(ra, rb, ta, tb);

    assert(ta.subrange(0, 32) =~= a.pow_chain_ref@);
    assert(tb.subrange(0, 32) =~= b.pow_chain_ref@);
    lemma_hash_known_by_view(a.pow_chain_ref, b.pow_chain_ref);
    assert(ta.subrange(32, 64) =~= a.active_state_root@);
    assert(tb.subrange(32, 64) =~= b.active_state_root@);
    lemma_hash_known_by_view(a.active_state_root, b.active_state_root);
    assert(ta.subrange(64, 96) =~= a.crystallized_state_root@);
    assert(tb.subrange(64, 96) =~= b.crystallized_state_root@);
    lemma_hash_known_by_view(a.crystallized_state_root, b.crystallized_state_root);
}

impl Encodable for Block {
    open spec fn ssz_bytes(&self) -> Seq<u8> {
        self.full_encoding()
    }

    fn ssz_append(&self, s: &mut SszStream) {
        let ghost start = s@;
        s.append(&self.parent_hash);
        s.append(&self.slot_number);
        s.append(&self.randao_reveal);
        s.append_vec(&self.attestations);
        s.append(&self.pow_chain_ref);
        s.append(&self.active_state_root);
        s.append(&self.crystallized_state_root);
        assert(s@ =~= start + self.full_encoding());
    }
}

} // verus!
