//! The canonical encoder.
//!
//! The scheme is made of 32-byte words. A hash value is one word, written as it is. An
//! unsigned integer is one word, big-endian, padded with zero bytes on the left. A vector is
//! one word that holds the number of its elements, followed by the elements' own encodings,
//! one after the other. Nothing else is written: no tags, no padding, no terminator.

use vstd::prelude::*;
use crate::types::Hash256;

verus! {

/// Number of bytes in a word of the encoding.
pub const WORD_BYTES: usize = 32;

/// Number of bytes of the prefix that holds a vector's element count: one word, in every
/// vector of the scheme.
pub const LENGTH_BYTES: usize = WORD_BYTES;

/// The digit of weight `256^k` in the base-256 expansion of `v`.
pub open spec fn base256_digit(v: nat, k: nat) -> u8
    decreases k,
{
    if k == 0 {
        (v % 256) as u8
    } else {
        base256_digit(v / 256, (k - 1) as nat)
    }
}

/// The word that encodes the unsigned integer `v`: its 32 lowest base-256 digits, the
/// most significant first.
pub open spec fn uint_word(v: nat) -> Seq<u8> {
    Seq::new(WORD_BYTES as nat, |i: int| base256_digit(v, (WORD_BYTES - 1 - i) as nat))
}

/// 256 to the power of `n`.
pub open spec fn pow256(n: nat) -> nat
    decreases n,
{
    if n == 0 {
        1
    } else {
        256 * pow256((n - 1) as nat)
    }
}

/// The encodings of `items`, one after the other, in order.
pub open spec fn concat_encodings<E: Encodable>(items: Seq<E>) -> Seq<u8>
    decreases items.len(),
{
    if items.len() == 0 {
        Seq::empty()
    } else {
        concat_encodings(items.drop_last()) + items.last().ssz_bytes()
    }
}

/// The encoding of a vector: a word with the number of elements, then the elements.
pub open spec fn vec_encoding<E: Encodable>(items: Seq<E>) -> Seq<u8> {
    uint_word(items.len()) + concat_encodings(items)
}

/// The count of a vector takes `LENGTH_BYTES` bytes, and a vector's encoding is longer
/// than its items' encodings by as much.
pub proof fn lemma_vec_encoding_length<E: Encodable>(items: Seq<E>)
    ensures
        uint_word(items.len()).len() == LENGTH_BYTES,
        vec_encoding(items).len() == LENGTH_BYTES + concat_encodings(items).len(),
{
}

/// A value with a canonical encoding. `ssz_bytes` is the encoding; `ssz_append` writes it
/// at the end of a stream and touches nothing that the stream held before.
pub trait Encodable {
    /// The canonical encoding of this value.
    spec fn ssz_bytes(&self) -> Seq<u8>;

    /// Appends the canonical encoding of this value to `s`.
    fn ssz_append(&self, s: &mut SszStream)
        ensures
            final(s)@ == old(s)@ + self.ssz_bytes(),
    ;
}

/// A growable byte buffer that values are appended to and that is drained once.
pub struct SszStream {
    buffer: Vec<u8>,
}

impl View for SszStream {
    type V = Seq<u8>;

    closed spec fn view(&self) -> Seq<u8> {
        self.buffer@
    }
}

/// The base-256 digits of `v / 256` are those of `v`, each one place lower.
pub proof fn lemma_digit_shift(v: nat, k: nat)
    ensures
        base256_digit(v / 256, k) == base256_digit(v, k + 1),
{
}

/// A number below `256^n` is known by its `n` lowest base-256 digits.
pub proof fn lemma_digits_determine(a: nat, b: nat, n: nat)
    requires
        a < pow256(n),
        b < pow256(n),
        forall|k: nat| k < n ==> base256_digit(a, k) == base256_digit(b, k),
    ensures
        a == b,
    decreases n,
{
    if n > 0 {
        assert(base256_digit(a, 0) == base256_digit(b, 0));
        assert(a % 256 == b % 256);
        let a_rest = a / 256;
        let b_rest = b / 256;
        assert forall|k: nat| k < n - 1 implies base256_digit(a_rest, k) == base256_digit(
            b_rest,
            k,
        ) by {
            lemma_digit_shift(a, k);
            lemma_digit_shift(b, k);
            assert(base256_digit(a, k + 1) == base256_digit(b, k + 1));
        }
        lemma_digits_determine(a_rest, b_rest, (n - 1) as nat);
    }
}

/// Two integers of 64 bits with the same word are the same integer.
pub proof fn lemma_uint_word_injective(a: u64, b: u64)
    requires
        uint_word(a as nat) == uint_word(b as nat),
    ensures
        a == b,
{
    reveal_with_fuel(pow256, 9);
    assert(pow256(8) == 0x1_0000_0000_0000_0000);
    let x = a as nat;
    let y = b as nat;
    assert forall|k: nat| k < 8 implies base256_digit(x, k) == base256_digit(y, k) by {
        assert(uint_word(x)[31 - k] == base256_digit(x, k));
        assert(uint_word(y)[31 - k] == base256_digit(y, k));
    }
    lemma_digits_determine(x, y, 8);
}

/// The encodings of a sequence that is not empty are the first item's encoding, then
/// the encodings of the rest.
pub proof fn lemma_concat_front<E: Encodable>(items: Seq<E>)
    requires
        items.len() > 0,
    ensures
        concat_encodings(items) == items.first().ssz_bytes() + concat_encodings(
            items.drop_first(),
        ),
    decreases items.len(),
{
    if items.len() == 1 {
        assert(items.drop_last() =~= Seq::<E>::empty());
        assert(items.drop_first() =~= Seq::<E>::empty());
        assert(concat_encodings(items) =~= items.first().ssz_bytes() + concat_encodings(
            items.drop_first(),
        ));
    } else {
        let front = items.drop_last();
        lemma_concat_front(front);
        assert(front.drop_first() =~= items.drop_first().drop_last());
        assert(front.first() == items.first());
        assert(items.drop_first().last() == items.last());
        assert(concat_encodings(items) =~= items.first().ssz_bytes() + concat_encodings(
            items.drop_first(),
        ));
    }
}

/// The encodings of hash values stand one after the other, 32 bytes each.
pub proof fn lemma_hashes_encoding(hashes: Seq<Hash256>)
    ensures
        concat_encodings(hashes).len() == 32 * hashes.len(),
        forall|i: int|
            0 <= i < hashes.len() ==> concat_encodings(hashes).subrange(32 * i, 32 * i + 32) == (
            #[trigger] hashes[i])@,
    decreases hashes.len(),
{
    if hashes.len() > 0 {
        let front = hashes.drop_last();
        lemma_hashes_encoding(front);
        let all = concat_encodings(hashes);
        assert(hashes.last()@.len() == 32);
        assert forall|i: int| 0 <= i < hashes.len() implies all.subrange(32 * i, 32 * i + 32) == (
        #[trigger] hashes[i])@ by {
            if i < front.len() {
                assert(front[i] == hashes[i]);
                assert(all.subrange(32 * i, 32 * i + 32) =~= concat_encodings(front).subrange(
                    32 * i,
                    32 * i + 32,
                ));
            } else {
                assert(all.subrange(32 * i, 32 * i + 32) =~= hashes.last()@);
            }
        }
    }
}

/// Two sequences of hash values of one length with the same encodings are the same.
pub proof fn lemma_hashes_injective(a: Seq<Hash256>, b: Seq<Hash256>)
    requires
        a.len() == b.len(),
        concat_encodings(a) == concat_encodings(b),
    ensures
        a == b,
{
    lemma_hashes_encoding(a);
    lemma_hashes_encoding(b);
    assert forall|i: int| 0 <= i < a.len() implies a[i] == b[i] by {
        assert(a[i]@ == b[i]@);
        crate::types::lemma_hash_known_by_view(a[i], b[i]);
    }
    assert(a =~= b);
}

/// Writes `v` as one word.
pub fn encode_uint(v: u64) -> (word: [u8; 32])
    ensures
        word@ == uint_word(v as nat),
{
    let mut word = [0u8; 32];
    let mut rest: u64 = v;
    let mut k: usize = 0;
    while k < 32
        invariant
            k <= 32,
            forall|j: int| 32 - k <= j < 32 ==> word@[j] == base256_digit(v as nat, (31 - j) as nat),
            forall|d: nat| #[trigger] base256_digit(rest as nat, d) == base256_digit(v as nat, (d + k) as nat),
        decreases 32 - k,
    {
        let ghost before = rest;
        let low: u8 = (rest % 256) as u8;
        word[31 - k] = low;
        rest = rest / 256;
        proof {
            assert(low == base256_digit(before as nat, 0));
            assert forall|d: nat| #[trigger]
                base256_digit(rest as nat, d) == base256_digit(v as nat, (d + k + 1) as nat) by {
                lemma_digit_shift(before as nat, d);
                assert(base256_digit(before as nat, d + 1) == base256_digit(v as nat, (d + 1 + k) as nat));
            }
        }
        k += 1;
    }
    assert(word@ =~= uint_word(v as nat));
    word
}

impl SszStream {
    /// An empty stream.
    pub fn new() -> (s: SszStream)
        ensures
            s@ == Seq::<u8>::empty(),
    {
        SszStream { buffer: Vec::new() }
    }

    /// Appends the canonical encoding of `value`.
    pub fn append<E: Encodable>(&mut self, value: &E)
        ensures
            final(self)@ == old(self)@ + value.ssz_bytes(),
    {
        value.ssz_append(self);
    }

    /// Appends `bytes` as they are.
    pub fn append_encoded_raw(&mut self, bytes: &[u8])
        ensures
            final(self)@ == old(self)@ + bytes@,
    {
        let ghost start = self.buffer@;
        let mut i: usize = 0;
        while i < bytes.len()
            invariant
                i <= bytes.len(),
                self.buffer@ == start + bytes@.take(i as int),
            decreases bytes.len() - i,
        {
            self.buffer.push(bytes[i]);
            assert(bytes@.take(i + 1) =~= bytes@.take(i as int).push(bytes@[i as int]));
            i += 1;
        }
        assert(bytes@.take(bytes.len() as int) =~= bytes@);
    }

    /// Appends a vector: the number of its elements as one word, then each element's
    /// canonical encoding, in order.
    pub fn append_vec<E: Encodable>(&mut self, vec: &Vec<E>)
        ensures
            final(self)@ == old(self)@ + vec_encoding(vec@),
    {
        let ghost start = self@;
        let count = encode_uint(vec.len() as u64);
        self.append_encoded_raw(count.as_slice());
        let mut i: usize = 0;
        while i < vec.len()
            invariant
                i <= vec.len(),
                self@ == start + uint_word(vec@.len()) + concat_encodings(vec@.take(i as int)),
            decreases vec.len() - i,
        {
            vec[i].ssz_append(self);
            proof {
                let done = vec@.take(i + 1);
                assert(done.drop_last() =~= vec@.take(i as int));
                assert(done.last() == vec@[i as int]);
            }
            i += 1;
        }
        proof {
            assert(vec@.take(vec.len() as int) =~= vec@);
            assert(self@ =~= start + vec_encoding(vec@));
        }
    }

    /// Ends the stream and hands out everything that was appended, in order.
    pub fn drain(self) -> (bytes: Vec<u8>)
        ensures
            bytes@ == self@,
    {
        self.buffer
    }
}

impl Encodable for u64 {
    open spec fn ssz_bytes(&self) -> Seq<u8> {
        uint_word(*self as nat)
    }

    fn ssz_append(&self, s: &mut SszStream) {
        let word = encode_uint(*self);
        s.append_encoded_raw(word.as_slice());
    }
}

impl Encodable for u16 {
    open spec fn ssz_bytes(&self) -> Seq<u8> {
        uint_word(*self as nat)
    }

    fn ssz_append(&self, s: &mut SszStream) {
        let word = encode_uint(*self as u64);
        s.append_encoded_raw(word.as_slice());
    }
}

impl Encodable for Hash256 {
    open spec fn ssz_bytes(&self) -> Seq<u8> {
        self@
    }

    fn ssz_append(&self, s: &mut SszStream) {
        s.append_encoded_raw(self.bytes.as_slice());
    }
}

} // verus!
