//! Blocks: the hash-linked units of a chain's history, how they are sealed
//! with a digest, and how a new one is mined.

use crate::clock::current_timestamp;
use crate::digest::{sha3_256, sha3_256_digest};
use crate::encoding::{
    lemma_length_prefixed_split, lemma_split_left, lemma_split_right, lemma_u64_le_injective,
    length_prefixed, put_bytes, put_u64, u64_le,
};
use crate::payload::Payload;
use vstd::prelude::*;

verus! {

/// The nonce that every genesis block carries.
pub const GENESIS_NONCE: u64 = 42;

/// One block of a chain.
#[derive(Debug, PartialEq, Eq)]
pub struct Block<D: Payload> {
    /// Position in the chain; the genesis block has id 0.
    pub id: u64,
    /// Digest of the other fields; see [`BlockView::digest`].
    pub hash: Vec<u8>,
    /// The `hash` of the block before this one; empty for a genesis block.
    pub previous_hash: Vec<u8>,
    /// Seconds since the Unix epoch at which the block was built.
    pub timestamp: u64,
    /// What the block carries.
    pub data: D,
    /// The number that the miner varies until the digest meets the
    /// difficulty.
    pub nonce: u64,
}

/// The mathematical value of a [`Block`].
pub struct BlockView<D> {
    pub id: u64,
    pub hash: Seq<u8>,
    pub previous_hash: Seq<u8>,
    pub timestamp: u64,
    pub data: D,
    pub nonce: u64,
}

impl<D: Payload> View for Block<D> {
    type V = BlockView<D>;

    open spec fn view(&self) -> BlockView<D> {
        BlockView {
            id: self.id,
            hash: self.hash@,
            previous_hash: self.previous_hash@,
            timestamp: self.timestamp,
            data: self.data,
            nonce: self.nonce,
        }
    }
}

impl<D: Payload> Clone for Block<D> {
    /// A block with the same fields.
    fn clone(&self) -> (copy: Self)
        ensures
            copy@ == self@,
    {
        Block {
            id: self.id,
            hash: self.hash.clone(),
            previous_hash: self.previous_hash.clone(),
            timestamp: self.timestamp,
            data: self.data,
            nonce: self.nonce,
        }
    }
}

impl<D: Payload> BlockView<D> {
    /// The part of the preimage that does not change while mining: id,
    /// length-prefixed previous hash, timestamp and payload, in this order.
    pub open spec fn stem(self) -> Seq<u8> {
        u64_le(self.id) + length_prefixed(self.previous_hash) + u64_le(self.timestamp)
            + self.data.encoding()
    }

    /// The bytes that are hashed: the stem followed by the nonce. The `hash`
    /// field is not part of it.
    pub open spec fn preimage(self) -> Seq<u8> {
        self.stem() + u64_le(self.nonce)
    }

    /// The digest that the block's `hash` field must hold.
    pub open spec fn digest(self) -> Seq<u8> {
        sha3_256(self.preimage())
    }

    /// The block's `hash` field holds its digest.
    pub open spec fn verifies(self) -> bool {
        self.hash == self.digest()
    }

    /// The two blocks agree on every field that the digest covers: all but
    /// `hash`.
    pub open spec fn same_content(self, other: Self) -> bool {
        &&& self.id == other.id
        &&& self.previous_hash == other.previous_hash
        &&& self.timestamp == other.timestamp
        &&& self.data == other.data
        &&& self.nonce == other.nonce
    }

    /// This block with its `hash` field set to its digest.
    pub open spec fn sealed(self) -> Self {
        BlockView { hash: self.digest(), ..self }
    }

    /// The block's digest starts with `difficulty`.
    pub open spec fn meets(self, difficulty: Seq<u8>) -> bool {
        difficulty.is_prefix_of(self.digest())
    }

    /// The genesis block for a payload and a time.
    pub open spec fn genesis(data: D, timestamp: u64) -> Self {
        BlockView {
            id: 0,
            hash: Seq::empty(),
            previous_hash: Seq::empty(),
            timestamp,
            data,
            nonce: GENESIS_NONCE,
        }.sealed()
    }

    /// The unsealed block that a miner tries after `self` with a given
    /// nonce.
    pub open spec fn candidate(self, data: D, timestamp: u64, nonce: u64) -> Self {
        BlockView {
            id: (self.id + 1) as u64,
            hash: Seq::empty(),
            previous_hash: self.hash,
            timestamp,
            data,
            nonce,
        }
    }

    /// `nonce` is the first nonce, counting up from zero, with which the
    /// candidate after `self` meets `difficulty`.
    pub open spec fn first_winning_nonce(
        self,
        data: D,
        timestamp: u64,
        difficulty: Seq<u8>,
        nonce: u64,
    ) -> bool {
        &&& self.candidate(data, timestamp, nonce).meets(difficulty)
        &&& forall|n: u64|
            n < nonce ==> !(#[trigger] self.candidate(data, timestamp, n)).meets(difficulty)
    }

    /// No nonce makes the candidate after `self` meet `difficulty`.
    pub open spec fn no_winning_nonce(self, data: D, timestamp: u64, difficulty: Seq<u8>) -> bool {
        forall|n: u64| !(#[trigger] self.candidate(data, timestamp, n)).meets(difficulty)
    }
}

/// The digest is a function of id, previous hash, timestamp, payload and
/// nonce: two blocks that agree on them have the same digest, whatever
/// their `hash` fields hold.
pub proof fn lemma_digest_ignores_hash<D: Payload>(a: BlockView<D>, b: BlockView<D>)
    requires
        a.same_content(b),
    ensures
        a.preimage() == b.preimage(),
        a.digest() == b.digest(),
{
}

/// A sealed block verifies, and sealing changes nothing but the `hash`
/// field.
pub proof fn lemma_sealed_verifies<D: Payload>(block: BlockView<D>)
    ensures
        block.sealed().verifies(),
        block.sealed().digest() == block.digest(),
        block.sealed().hash == block.digest(),
{
    lemma_digest_ignores_hash(block.sealed(), block);
}

/// Blocks whose preimages agree, and whose previous hashes are short enough
/// for their length to be written down, agree on every field that the
/// digest covers.
pub proof fn lemma_preimage_injective<D: Payload>(a: BlockView<D>, b: BlockView<D>)
    requires
        a.preimage() == b.preimage(),
        a.previous_hash.len() <= u64::MAX,
        b.previous_hash.len() <= u64::MAX,
    ensures
        a.same_content(b),
{
    lemma_split_right(a.stem(), u64_le(a.nonce), b.stem(), u64_le(b.nonce));
    lemma_u64_le_injective(a.nonce, b.nonce);
    let tail_a = u64_le(a.timestamp) + a.data.encoding();
    let tail_b = u64_le(b.timestamp) + b.data.encoding();
    let rest_a = length_prefixed(a.previous_hash) + tail_a;
    let rest_b = length_prefixed(b.previous_hash) + tail_b;
    assert(a.stem() =~= u64_le(a.id) + rest_a);
    assert(b.stem() =~= u64_le(b.id) + rest_b);
    lemma_split_left(u64_le(a.id), rest_a, u64_le(b.id), rest_b);
    lemma_u64_le_injective(a.id, b.id);
    lemma_length_prefixed_split(a.previous_hash, tail_a, b.previous_hash, tail_b);
    lemma_split_left(
        u64_le(a.timestamp),
        a.data.encoding(),
        u64_le(b.timestamp),
        b.data.encoding(),
    );
    lemma_u64_le_injective(a.timestamp, b.timestamp);
    D::lemma_encoding_injective(a.data, b.data);
}

/// Why mining after a block produced nothing.
#[derive(Clone, Copy, Debug, PartialEq, Eq, Structural)]
pub enum MineError {
    /// The predecessor holds the largest id; no block can follow it.
    IdsExhausted,
    /// Every nonce was tried and none met the difficulty.
    NoncesExhausted,
}

/// Whether `bytes` begins with `prefix`.
pub fn starts_with(bytes: &[u8], prefix: &[u8]) -> (yes: bool)
    ensures
        yes == prefix@.is_prefix_of(bytes@),
{
    if prefix.len() > bytes.len() {
        return false;
    }
    let n = prefix.len();
    let mut i: usize = 0;
    while i < n
        invariant
            n == prefix@.len(),
            n <= bytes@.len(),
            i <= n,
            forall|j: int| 0 <= j < i ==> prefix@[j] == bytes@[j],
        decreases n - i,
    {
        if prefix[i] != bytes[i] {
            assert(bytes@.subrange(0, n as int)[i as int] != prefix@[i as int]);
            return false;
        }
        i += 1;
    }
    assert(prefix@ =~= bytes@.subrange(0, n as int));
    true
}

/// Whether two byte strings are equal.
pub fn same_bytes(a: &Vec<u8>, b: &Vec<u8>) -> (yes: bool)
    ensures
        yes == (a@ == b@),
{
    let yes = a == b;
    assert(yes == (a@ =~= b@));
    yes
}

impl<D: Payload> Block<D> {
    fn stem(&self) -> (buf: Vec<u8>)
        ensures
            buf@ == self@.stem(),
    {
        let mut buf: Vec<u8> = Vec::new();
        put_u64(&mut buf, self.id);
        put_bytes(&mut buf, &self.previous_hash);
        put_u64(&mut buf, self.timestamp);
        self.data.write_to(&mut buf);
        assert(buf@ =~= self@.stem());
        buf
    }

    /// The bytes that are hashed to seal this block.
    pub fn preimage(&self) -> (bytes: Vec<u8>)
        ensures
            bytes@ == self@.preimage(),
    {
        let mut buf = self.stem();
        put_u64(&mut buf, self.nonce);
        buf
    }

    /// The digest of this block's id, previous hash, timestamp, payload and
    /// nonce. The `hash` field does not enter it, and nothing is changed.
    pub fn calculate_hash(&self) -> (hash: Vec<u8>)
        ensures
            hash@ == self@.digest(),
    {
        let bytes = self.preimage();
        sha3_256_digest(bytes.as_slice())
    }

    /// Whether the `hash` field holds the block's digest.
    pub fn verify(&self) -> (ok: bool)
        ensures
            ok == self@.verifies(),
    {
        let hash = self.calculate_hash();
        same_bytes(&self.hash, &hash)
    }

    /// The genesis block for a payload, built at a given time: id zero, no
    /// previous hash, the genesis nonce, sealed with its digest.
    pub fn genesis_at(data: D, timestamp: u64) -> (block: Self)
        ensures
            block@ == BlockView::genesis(data, timestamp),
            block@.verifies(),
    {
        let mut block = Block {
            id: 0,
            hash: Vec::new(),
            previous_hash: Vec::new(),
            timestamp,
            data,
            nonce: GENESIS_NONCE,
        };
        proof {
            lemma_sealed_verifies(block@);
        }
        let hash = block.calculate_hash();
        block.hash = hash;
        assert(block@.previous_hash =~= Seq::<u8>::empty());
        block
    }

    /// The genesis block for a payload, stamped with the current time.
    /// Whatever the clock says, the result is the genesis block for that
    /// time.
    pub fn genesis(data: D) -> (block: Self)
        ensures
            block@ == BlockView::genesis(data, block.timestamp),
            block@.verifies(),
    {
        Self::genesis_at(data, current_timestamp())
    }

    /// Mines the block that follows `self`, built at a given time.
    ///
    /// Nonces are tried in increasing order from zero, and the first one
    /// whose digest starts with `difficulty` seals the block.
    pub fn mine_at(&self, data: D, timestamp: u64, difficulty: &[u8]) -> (mined: Result<
        Self,
        MineError,
    >)
        ensures
            match mined {
                Ok(block) => {
                    &&& self.id < u64::MAX
                    &&& self@.first_winning_nonce(data, timestamp, difficulty@, block.nonce)
                    &&& block@ == self@.candidate(data, timestamp, block.nonce).sealed()
                    &&& block@.verifies()
                    &&& difficulty@.is_prefix_of(block@.hash)
                },
                Err(MineError::IdsExhausted) => self.id == u64::MAX,
                Err(MineError::NoncesExhausted) => {
                    &&& self.id < u64::MAX
                    &&& self@.no_winning_nonce(data, timestamp, difficulty@)
                },
            },
    {
        if self.id == u64::MAX {
            return Err(MineError::IdsExhausted);
        }
        let mut block = Block {
            id: self.id + 1,
            hash: Vec::new(),
            previous_hash: self.hash.clone(),
            timestamp,
            data,
            nonce: 0,
        };
        let mut buf = block.stem();
        let stem_len = buf.len();
        let ghost stem = buf@;
        assert(forall|n: u64| (#[trigger] self@.candidate(data, timestamp, n)).stem() == stem);
        loop
            invariant
                self.id < u64::MAX,
                block@ =~= self@.candidate(data, timestamp, block.nonce),
                stem_len == stem.len(),
                stem_len <= buf@.len(),
                buf@.subrange(0, stem_len as int) == stem,
                forall|n: u64| (#[trigger] self@.candidate(data, timestamp, n)).stem() == stem,
                forall|n: u64|
                    n < block.nonce ==> !(#[trigger] self@.candidate(data, timestamp, n)).meets(
                        difficulty@,
                    ),
            decreases u64::MAX - block.nonce,
        {
            buf.truncate(stem_len);
            put_u64(&mut buf, block.nonce);
            assert(buf@ == block@.preimage());
            let hash = sha3_256_digest(buf.as_slice());
            if starts_with(hash.as_slice(), difficulty) {
                block.hash = hash;
                proof {
                    lemma_sealed_verifies(self@.candidate(data, timestamp, block.nonce));
                }
                return Ok(block);
            }
            if block.nonce == u64::MAX {
                return Err(MineError::NoncesExhausted);
            }
            block.nonce = block.nonce + 1;
            assert(buf@.subrange(0, stem_len as int) =~= stem);
        }
    }

    /// Mines the block that follows `self`, stamped with the current time.
    /// Whatever the clock says, the result is what [`Block::mine_at`]
    /// returns for that time.
    pub fn mine(&self, data: D, difficulty: &[u8]) -> (mined: Result<Self, MineError>)
        ensures
            match mined {
                Ok(block) => {
                    &&& self.id < u64::MAX
                    &&& self@.first_winning_nonce(
                        data,
                        block.timestamp,
                        difficulty@,
                        block.nonce,
                    )
                    &&& block@ == self@.candidate(data, block.timestamp, block.nonce).sealed()
                    &&& block@.verifies()
                    &&& difficulty@.is_prefix_of(block@.hash)
                },
                Err(MineError::IdsExhausted) => self.id == u64::MAX,
                Err(MineError::NoncesExhausted) => {
                    &&& self.id < u64::MAX
                    &&& exists|timestamp: u64|
                        self@.no_winning_nonce(data, timestamp, difficulty@)
                },
            },
    {
        self.mine_at(data, current_timestamp(), difficulty)
    }
}

} // verus!
