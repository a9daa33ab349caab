//! Chains: ordered block histories, the rule that links a block to the one
//! before it, and the choice between two competing histories.

use crate::block::{
    lemma_preimage_injective, lemma_sealed_verifies, same_bytes, starts_with, Block, BlockView,
    MineError,
};
use crate::clock::current_timestamp;
use crate::payload::Payload;
use vstd::prelude::*;

verus! {

/// The bytes that the hash of every block but the first must start with.
pub const DIFFICULTY_PREFIX: [u8; 2] = [0u8, 0u8];

/// The difficulty prefix as a byte string.
pub open spec fn difficulty() -> Seq<u8> {
    DIFFICULTY_PREFIX@
}

/// `block` may directly follow `previous`: its id is the next one, it names
/// `previous` by hash, its hash meets the difficulty, and its hash is its
/// digest.
pub open spec fn valid_successor<D: Payload>(block: BlockView<D>, previous: BlockView<D>) -> bool {
    &&& block.id == previous.id + 1
    &&& block.previous_hash == previous.hash
    &&& difficulty().is_prefix_of(block.hash)
    &&& block.verifies()
}

/// The block at position `i` may directly follow the one before it.
pub open spec fn linked_at<D: Payload>(blocks: Seq<BlockView<D>>, i: int) -> bool {
    valid_successor(blocks[i], blocks[i - 1])
}

/// Every block but the first may directly follow the one before it. The
/// first block is not examined, so a single block is always a valid chain.
pub open spec fn valid_chain<D: Payload>(blocks: Seq<BlockView<D>>) -> bool {
    forall|i: int| 1 <= i < blocks.len() ==> #[trigger] linked_at(blocks, i)
}

/// The values of a sequence of blocks.
pub open spec fn block_views<D: Payload>(blocks: Seq<Block<D>>) -> Seq<BlockView<D>> {
    blocks.map_values(|b: Block<D>| b@)
}

/// One of the two chains that a fork choice compares.
#[derive(Clone, Copy, Debug, PartialEq, Eq, Structural)]
pub enum Side {
    /// The chain that the node already holds.
    Local,
    /// The chain that a peer announced.
    Remote,
}

/// A fork choice in which neither chain is valid. The local history is
/// corrupt and nothing can be chosen.
#[derive(Clone, Copy, Debug, PartialEq, Eq, Structural)]
pub enum ForkError {
    BothInvalid,
}

/// The side that a fork choice keeps: of two valid chains the longer, the
/// local one when they are equally long; of one valid chain, that one; of
/// none, nothing.
pub open spec fn preferred<D: Payload>(
    local: Seq<BlockView<D>>,
    remote: Seq<BlockView<D>>,
) -> Option<Side> {
    if valid_chain(local) && valid_chain(remote) {
        if local.len() >= remote.len() {
            Some(Side::Local)
        } else {
            Some(Side::Remote)
        }
    } else if valid_chain(remote) {
        Some(Side::Remote)
    } else if valid_chain(local) {
        Some(Side::Local)
    } else {
        None
    }
}

/// The chain that a fork choice keeps.
pub open spec fn chosen<D: Payload>(
    local: Seq<BlockView<D>>,
    remote: Seq<BlockView<D>>,
) -> Option<Seq<BlockView<D>>> {
    match preferred(local, remote) {
        Some(Side::Local) => Some(local),
        Some(Side::Remote) => Some(remote),
        None => None,
    }
}

/// Checks that `block` may directly follow `previous`. The id is compared
/// first, then the previous hash, then the difficulty, then the digest; the
/// first mismatch decides.
pub fn is_block_valid<D: Payload>(block: &Block<D>, previous: &Block<D>) -> (ok: bool)
    ensures
        ok == valid_successor(block@, previous@),
{
    if previous.id == u64::MAX || block.id != previous.id + 1 {
        return false;
    }
    if !same_bytes(&block.previous_hash, &previous.hash) {
        return false;
    }
    let prefix = DIFFICULTY_PREFIX;
    if !starts_with(block.hash.as_slice(), prefix.as_slice()) {
        return false;
    }
    block.verify()
}

/// A node's view of the block history: the genesis block first, the head
/// last. A chain always holds at least one block.
#[derive(Debug, PartialEq, Eq)]
pub struct Chain<D: Payload> {
    blocks: Vec<Block<D>>,
}

impl<D: Payload> Clone for Chain<D> {
    /// A chain with the same blocks.
    fn clone(&self) -> (copy: Self)
        ensures
            copy@ == self@,
    {
        proof {
            use_type_invariant(self);
        }
        let n = self.blocks.len();
        let mut blocks: Vec<Block<D>> = Vec::new();
        let mut i: usize = 0;
        while i < n
            invariant
                n == self.blocks@.len(),
                i <= n,
                blocks@.len() == i,
                forall|j: int| 0 <= j < i ==> blocks@[j]@ == self.blocks@[j]@,
            decreases n - i,
        {
            blocks.push(self.blocks[i].clone());
            i += 1;
        }
        let copy = Chain { blocks };
        assert(copy@ =~= self@);
        copy
    }
}

impl<D: Payload> View for Chain<D> {
    type V = Seq<BlockView<D>>;

    closed spec fn view(&self) -> Seq<BlockView<D>> {
        block_views(self.blocks@)
    }
}

impl<D: Payload> Chain<D> {
    #[verifier::type_invariant]
    spec fn inhabited(self) -> bool {
        self.blocks@.len() >= 1
    }

    /// A chain that holds only the genesis block of its kind, built at a
    /// given time.
    pub fn starting_at(timestamp: u64) -> (chain: Self)
        ensures
            chain@ == seq![BlockView::genesis(D::genesis_content(), timestamp)],
            valid_chain(chain@),
    {
        let mut blocks: Vec<Block<D>> = Vec::new();
        blocks.push(Block::genesis_at(D::genesis(), timestamp));
        let chain = Chain { blocks };
        assert(chain@ =~= seq![BlockView::genesis(D::genesis_content(), timestamp)]);
        chain
    }

    /// A chain that holds only the genesis block of its kind, stamped with
    /// the current time. Whatever the clock says, the result is the chain
    /// that [`Chain::starting_at`] returns for that time.
    pub fn new() -> (chain: Self)
        ensures
            chain@ == seq![BlockView::genesis(D::genesis_content(), chain@[0].timestamp)],
            valid_chain(chain@),
    {
        Self::starting_at(current_timestamp())
    }

    /// The chain whose earlier blocks are `history`, oldest first, and
    /// whose head is `head`. Nothing is checked: the result may be invalid.
    pub fn from_parts(history: Vec<Block<D>>, head: Block<D>) -> (chain: Self)
        ensures
            chain@ == block_views(history@).push(head@),
    {
        let mut blocks = history;
        blocks.push(head);
        let chain = Chain { blocks };
        assert(chain@ =~= block_views(history@).push(head@));
        chain
    }

    /// Does nothing when run. Tells callers under verification that a chain
    /// is never empty.
    pub(crate) fn never_empty(&self)
        ensures
            self@.len() >= 1,
    {
        proof {
            use_type_invariant(self);
        }
    }

    /// All blocks, the genesis block first and the head last.
    pub fn blocks(&self) -> (blocks: &Vec<Block<D>>)
        ensures
            block_views(blocks@) == self@,
            blocks@.len() >= 1,
    {
        proof {
            use_type_invariant(self);
        }
        &self.blocks
    }

    /// The head: the most recent block.
    pub fn last(&self) -> (head: &Block<D>)
        ensures
            self@.len() >= 1,
            head@ == self@.last(),
    {
        proof {
            use_type_invariant(self);
        }
        &self.blocks[self.blocks.len() - 1]
    }

    /// The chain with `block` as its new head. Nothing is checked: callers
    /// validate with [`Chain::is_block_valid`] first.
    pub fn append(self, block: Block<D>) -> (chain: Self)
        ensures
            chain@ == self@.push(block@),
    {
        let mut blocks = self.blocks;
        blocks.push(block);
        let chain = Chain { blocks };
        assert(chain@ =~= self@.push(block@));
        chain
    }

    /// Mines a block after the head, built at a given time, and appends it.
    pub fn mine_at(self, data: D, timestamp: u64) -> (mined: Result<Self, MineError>)
        ensures
            self@.len() >= 1,
            match mined {
                Ok(chain) => {
                    let head = self@.last();
                    let block = chain@.last();
                    &&& chain@ == self@.push(block)
                    &&& head.id < u64::MAX
                    &&& head.first_winning_nonce(data, timestamp, difficulty(), block.nonce)
                    &&& block == head.candidate(data, timestamp, block.nonce).sealed()
                    &&& valid_successor(block, head)
                    &&& valid_chain(self@) ==> valid_chain(chain@)
                },
                Err(MineError::IdsExhausted) => self@.last().id == u64::MAX,
                Err(MineError::NoncesExhausted) => {
                    &&& self@.last().id < u64::MAX
                    &&& self@.last().no_winning_nonce(data, timestamp, difficulty())
                },
            },
    {
        let prefix = DIFFICULTY_PREFIX;
        match self.last().mine_at(data, timestamp, prefix.as_slice()) {
            Ok(block) => {
                proof {
                    lemma_mined_block_is_valid(
                        self@.last(),
                        data,
                        timestamp,
                        difficulty(),
                        block.nonce,
                    );
                    lemma_append_keeps_valid(self@, block@);
                }
                Ok(self.append(block))
            },
            Err(e) => Err(e),
        }
    }

    /// Mines a block after the head, stamped with the current time, and
    /// appends it. Whatever the clock says, the result is what
    /// [`Chain::mine_at`] returns for that time.
    pub fn mine(self, data: D) -> (mined: Result<Self, MineError>)
        ensures
            self@.len() >= 1,
            match mined {
                Ok(chain) => {
                    let head = self@.last();
                    let block = chain@.last();
                    &&& chain@ == self@.push(block)
                    &&& head.id < u64::MAX
                    &&& head.first_winning_nonce(data, block.timestamp, difficulty(), block.nonce)
                    &&& block == head.candidate(data, block.timestamp, block.nonce).sealed()
                    &&& valid_successor(block, head)
                    &&& valid_chain(self@) ==> valid_chain(chain@)
                },
                Err(MineError::IdsExhausted) => self@.last().id == u64::MAX,
                Err(MineError::NoncesExhausted) => {
                    &&& self@.last().id < u64::MAX
                    &&& exists|timestamp: u64|
                        self@.last().no_winning_nonce(data, timestamp, difficulty())
                },
            },
    {
        self.mine_at(data, current_timestamp())
    }

    /// Whether `block` may directly follow the head.
    pub fn is_block_valid(&self, block: &Block<D>) -> (ok: bool)
        ensures
            self@.len() >= 1,
            ok == valid_successor(block@, self@.last()),
    {
        is_block_valid(block, self.last())
    }

    /// Whether every block but the first may directly follow the one before
    /// it. The walk starts at the head.
    pub fn is_valid(&self) -> (ok: bool)
        ensures
            ok == valid_chain(self@),
    {
        proof {
            use_type_invariant(self);
        }
        let mut i: usize = self.blocks.len() - 1;
        while i > 0
            invariant
                i < self.blocks@.len(),
                self@ == block_views(self.blocks@),
                forall|j: int| i < j < self@.len() ==> #[trigger] linked_at(self@, j),
            decreases i,
        {
            if !is_block_valid(&self.blocks[i], &self.blocks[i - 1]) {
                assert(!linked_at(self@, i as int));
                return false;
            }
            i -= 1;
        }
        true
    }

    /// The number of blocks, the head included.
    pub fn len(&self) -> (n: u64)
        ensures
            n == self@.len(),
            n >= 1,
    {
        proof {
            use_type_invariant(self);
        }
        self.blocks.len() as u64
    }

    /// Which of `self`, the local chain, and `other`, a remote chain, a
    /// fork choice keeps.
    pub fn fork_choice(&self, other: &Self) -> (side: Result<Side, ForkError>)
        ensures
            match side {
                Ok(s) => preferred(self@, other@) == Some(s),
                Err(ForkError::BothInvalid) => preferred(self@, other@) is None,
            },
    {
        let is_local_valid = self.is_valid();
        let is_remote_valid = other.is_valid();
        if is_local_valid && is_remote_valid {
            if self.len() >= other.len() {
                Ok(Side::Local)
            } else {
                Ok(Side::Remote)
            }
        } else if is_remote_valid {
            Ok(Side::Remote)
        } else if is_local_valid {
            Ok(Side::Local)
        } else {
            Err(ForkError::BothInvalid)
        }
    }

    /// Keeps the better of `self`, the local chain, and `other`, a remote
    /// chain: of two valid chains the longer, `self` when they are equally
    /// long; of one valid chain, that one. Fails when neither is valid.
    pub fn choose_chain(self, other: Self) -> (kept: Result<Self, ForkError>)
        ensures
            match kept {
                Ok(chain) => chosen(self@, other@) == Some(chain@),
                Err(ForkError::BothInvalid) => chosen(self@, other@) is None,
            },
    {
        match self.fork_choice(&other) {
            Ok(Side::Local) => Ok(self),
            Ok(Side::Remote) => Ok(other),
            Err(e) => Err(e),
        }
    }
}

/// A block mined after `previous` verifies and starts with the difficulty
/// it was mined for. When that difficulty extends the chain's own, the
/// block may directly follow `previous`.
pub proof fn lemma_mined_block_is_valid<D: Payload>(
    previous: BlockView<D>,
    data: D,
    timestamp: u64,
    mined_for: Seq<u8>,
    nonce: u64,
)
    requires
        previous.id < u64::MAX,
        previous.candidate(data, timestamp, nonce).meets(mined_for),
    ensures
        ({
            let block = previous.candidate(data, timestamp, nonce).sealed();
            &&& mined_for.is_prefix_of(block.hash)
            &&& block.verifies()
            &&& difficulty().is_prefix_of(mined_for) ==> valid_successor(block, previous)
        }),
{
    lemma_sealed_verifies(previous.candidate(data, timestamp, nonce));
}

/// A valid chain stays valid when a valid successor of its head is
/// appended.
pub proof fn lemma_append_keeps_valid<D: Payload>(blocks: Seq<BlockView<D>>, block: BlockView<D>)
    requires
        blocks.len() >= 1,
        valid_successor(block, blocks.last()),
    ensures
        valid_chain(blocks) ==> valid_chain(blocks.push(block)),
{
    let longer = blocks.push(block);
    if valid_chain(blocks) {
        assert forall|i: int| 1 <= i < longer.len() implies #[trigger] linked_at(longer, i) by {
            if i < blocks.len() {
                assert(linked_at(blocks, i));
            }
        }
    }
}

/// A block whose id equals the head's id is never accepted as the head's
/// successor.
pub proof fn lemma_same_id_is_rejected<D: Payload>(block: BlockView<D>, head: BlockView<D>)
    requires
        block.id == head.id,
    ensures
        !valid_successor(block, head),
{
}

/// A block whose id skips over the head's successor is never accepted as
/// the head's successor.
pub proof fn lemma_gap_is_rejected<D: Payload>(block: BlockView<D>, head: BlockView<D>)
    requires
        block.id > head.id + 1,
    ensures
        !valid_successor(block, head),
{
}

/// Tampering is detected. Take a block that may follow `previous` and
/// change it, either in its `hash` field alone or in the other fields alone;
/// a change of any single field is of one of these two kinds. Unless the
/// digests of the two blocks collide, the changed block no longer verifies,
/// and so may not follow `previous`.
pub proof fn lemma_tampering_is_detected<D: Payload>(
    block: Block<D>,
    tampered: Block<D>,
    previous: Block<D>,
)
    requires
        valid_successor(block@, previous@),
        tampered@ != block@,
        tampered@.hash == block@.hash || tampered@.same_content(block@),
        tampered@.preimage() != block@.preimage() ==> tampered@.digest() != block@.digest(),
    ensures
        !tampered@.verifies(),
        !valid_successor(tampered@, previous@),
{
    if tampered@.preimage() == block@.preimage() {
        assert(tampered.previous_hash@.len() == tampered.previous_hash.len());
        assert(block.previous_hash@.len() == block.previous_hash.len());
        lemma_preimage_injective(tampered@, block@);
    }
}

/// Whatever a fork choice keeps is one of the two chains, is valid, and is
/// at least as long as every valid one of the two.
pub proof fn lemma_chosen_is_valid_and_longest<D: Payload>(
    local: Seq<BlockView<D>>,
    remote: Seq<BlockView<D>>,
)
    requires
        chosen(local, remote) is Some,
    ensures
        ({
            let kept = chosen(local, remote).unwrap();
            &&& kept == local || kept == remote
            &&& valid_chain(kept)
            &&& valid_chain(local) ==> kept.len() >= local.len()
            &&& valid_chain(remote) ==> kept.len() >= remote.len()
        }),
{
}

/// A fork choice keeps nothing exactly when neither chain is valid.
pub proof fn lemma_chosen_none_iff_both_invalid<D: Payload>(
    local: Seq<BlockView<D>>,
    remote: Seq<BlockView<D>>,
)
    ensures
        chosen(local, remote) is None <==> !valid_chain(local) && !valid_chain(remote),
{
}

/// Choosing between a valid chain and itself keeps a chain of the same
/// length.
pub proof fn lemma_choice_of_same<D: Payload>(a: Seq<BlockView<D>>)
    requires
        valid_chain(a),
    ensures
        chosen(a, a) == Some(a),
        chosen(a, a).unwrap().len() == a.len(),
{
}

/// Of two valid chains of different lengths the longer is kept, whichever
/// of them is the local one.
pub proof fn lemma_longer_wins<D: Payload>(a: Seq<BlockView<D>>, b: Seq<BlockView<D>>)
    requires
        valid_chain(a),
        valid_chain(b),
        a.len() < b.len(),
    ensures
        chosen(a, b) == Some(b),
        chosen(b, a) == Some(b),
        chosen(a, b).unwrap().len() == b.len(),
        chosen(b, a).unwrap().len() == b.len(),
{
}

/// Of two valid chains of the same length the local one is kept.
pub proof fn lemma_tie_keeps_local<D: Payload>(
    local: Seq<BlockView<D>>,
    remote: Seq<BlockView<D>>,
)
    requires
        valid_chain(local),
        valid_chain(remote),
        local.len() == remote.len(),
    ensures
        chosen(local, remote) == Some(local),
{
}

/// When exactly one of two chains is valid, that one is kept, whichever of
/// them is the local one; when neither is, nothing is kept.
pub proof fn lemma_only_valid_wins<D: Payload>(
    good: Seq<BlockView<D>>,
    bad: Seq<BlockView<D>>,
)
    requires
        !valid_chain(bad),
    ensures
        valid_chain(good) ==> chosen(good, bad) == Some(good) && chosen(bad, good) == Some(good),
        !valid_chain(good) ==> chosen(good, bad) is None && chosen(bad, good) is None,
{
}

} // verus!
