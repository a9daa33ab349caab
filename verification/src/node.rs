//! The node: the single owner of the local chain. It consumes one event at
//! a time and answers with its next state and with what, if anything, is
//! to be announced to the peers. Receiving and sending are left to the
//! driver of the node.

use crate::block::{Block, BlockView, MineError};
use crate::chain::{
    difficulty, lemma_append_keeps_valid, lemma_mined_block_is_valid, preferred, valid_chain,
    valid_successor, Chain, ForkError, Side, DIFFICULTY_PREFIX,
};
use crate::clock::current_timestamp;
use crate::payload::Payload;
use crate::transport::Topic;
use vstd::prelude::*;

verus! {

/// What the node asks its transport to do.
#[derive(Clone, Copy, Debug, PartialEq, Eq, Structural)]
pub enum Command {
    /// Subscribe to a topic.
    Subscribe(Topic),
    /// Publish the whole local chain on the chain topic.
    PublishChain,
    /// Publish the local head on the block topic.
    PublishHead,
}

impl Command {
    /// The topic that the command names.
    pub fn topic(&self) -> (topic: Topic)
        ensures
            topic == match *self {
                Command::Subscribe(t) => t,
                Command::PublishChain => Topic::Chain,
                Command::PublishHead => Topic::Block,
            },
    {
        match self {
            Command::Subscribe(t) => *t,
            Command::PublishChain => Topic::Chain,
            Command::PublishHead => Topic::Block,
        }
    }
}

/// What a node does when it starts: it subscribes to both topics and
/// announces its chain.
pub open spec fn startup_commands() -> Seq<Command> {
    seq![
        Command::Subscribe(Topic::Chain),
        Command::Subscribe(Topic::Block),
        Command::PublishChain,
    ]
}

/// Something that happened and that the node must react to.
#[derive(Clone, Debug, PartialEq, Eq)]
pub enum Event<D: Payload> {
    /// The operator asks for a block with this payload; it is mined here
    /// and now.
    MineRequested(D),
    /// A worker of this node returns a block that it mined.
    BlockMined(Block<D>),
    /// A peer announced its whole chain.
    ChainReceived(Chain<D>),
    /// A peer announced a block.
    BlockReceived(Block<D>),
    /// A message arrived that could not be decoded.
    Malformed,
    /// The set of known peers changed.
    DiscoveryChanged,
}

/// How the node reacted to an event.
#[derive(Clone, Copy, Debug, PartialEq, Eq, Structural)]
pub enum Outcome {
    /// A block mined by this node became the head.
    Mined,
    /// Mining produced no block; the chain is as it was.
    MiningFailed(MineError),
    /// A peer's block became the head.
    BlockAppended,
    /// A block could not follow the head and was dropped; the chain is as
    /// it was.
    BlockRejected,
    /// A peer's chain lost the fork choice; the chain is as it was.
    KeptLocal,
    /// A peer's chain won the fork choice and replaced the local one.
    AdoptedRemote,
    /// The event does not concern the chain; the chain is as it was.
    Ignored,
}

impl Outcome {
    /// What is to be announced after this outcome: the new head after
    /// mining, nothing otherwise.
    pub fn command(&self) -> (command: Option<Command>)
        ensures
            command == if *self == Outcome::Mined {
                Some(Command::PublishHead)
            } else {
                None
            },
    {
        match self {
            Outcome::Mined => Some(Command::PublishHead),
            _ => None,
        }
    }
}

/// A ledger node. Its value is the chain that it holds.
#[derive(Clone, Debug, PartialEq, Eq)]
pub struct App<D: Payload> {
    chain: Chain<D>,
}

impl<D: Payload> View for App<D> {
    type V = Seq<BlockView<D>>;

    closed spec fn view(&self) -> Seq<BlockView<D>> {
        self.chain@
    }
}

/// The node's reaction to a block that claims to follow the head, in terms
/// of the chain before and after: the block becomes the head when it may
/// follow the old one, and is dropped otherwise.
pub open spec fn block_taken<D: Payload>(
    before: Seq<BlockView<D>>,
    block: BlockView<D>,
    after: Seq<BlockView<D>>,
    outcome: Outcome,
    accepted: Outcome,
) -> bool {
    if valid_successor(block, before.last()) {
        after == before.push(block) && outcome == accepted
    } else {
        after == before && outcome == Outcome::BlockRejected
    }
}

/// The node's reaction to a mining request, in terms of the chain before
/// and after, for the time `timestamp` at which the block was built.
pub open spec fn block_mined<D: Payload>(
    before: Seq<BlockView<D>>,
    data: D,
    timestamp: u64,
    after: Seq<BlockView<D>>,
    outcome: Outcome,
) -> bool {
    let head = before.last();
    match outcome {
        Outcome::Mined => {
            let block = after.last();
            &&& after == before.push(block)
            &&& head.id < u64::MAX
            &&& head.first_winning_nonce(data, timestamp, difficulty(), block.nonce)
            &&& block == head.candidate(data, timestamp, block.nonce).sealed()
            &&& valid_successor(block, head)
        },
        Outcome::MiningFailed(MineError::IdsExhausted) => {
            &&& after == before
            &&& head.id == u64::MAX
        },
        Outcome::MiningFailed(MineError::NoncesExhausted) => {
            &&& after == before
            &&& head.id < u64::MAX
            &&& head.no_winning_nonce(data, timestamp, difficulty())
        },
        _ => false,
    }
}

/// The node's reaction to an event, in terms of the chain before and after.
/// A mining request is served for some reading of the clock. A block, mined
/// by a worker or announced by a peer, is taken or dropped. A peer's chain
/// replaces the local one when the fork choice prefers it. Anything else
/// leaves the chain as it was.
pub open spec fn reaction<D: Payload>(
    before: Seq<BlockView<D>>,
    event: Event<D>,
    after: Seq<BlockView<D>>,
    outcome: Outcome,
) -> bool {
    match event {
        Event::MineRequested(data) => exists|timestamp: u64|
            block_mined(before, data, timestamp, after, outcome),
        Event::BlockMined(block) => block_taken(before, block@, after, outcome, Outcome::Mined),
        Event::BlockReceived(block) => block_taken(
            before,
            block@,
            after,
            outcome,
            Outcome::BlockAppended,
        ),
        Event::ChainReceived(remote) => match preferred(before, remote@) {
            Some(Side::Local) => after == before && outcome == Outcome::KeptLocal,
            Some(Side::Remote) => after == remote@ && outcome == Outcome::AdoptedRemote,
            None => false,
        },
        Event::Malformed | Event::DiscoveryChanged => after == before && outcome
            == Outcome::Ignored,
    }
}

/// The event is a peer's chain, and neither it nor the local chain is
/// valid.
pub open spec fn fatal<D: Payload>(before: Seq<BlockView<D>>, event: Event<D>) -> bool {
    event matches Event::ChainReceived(remote) && preferred(before, remote@) is None
}

impl<D: Payload> App<D> {
    /// A node that holds `chain`, together with what it asks of the
    /// transport at startup. Nothing is checked: the chain may be invalid.
    pub fn with_chain(chain: Chain<D>) -> (started: (Self, Vec<Command>))
        ensures
            started.0@ == chain@,
            started.1@ == startup_commands(),
    {
        let node = App { chain };
        let mut commands: Vec<Command> = Vec::new();
        commands.push(Command::Subscribe(Topic::Chain));
        commands.push(Command::Subscribe(Topic::Block));
        commands.push(Command::PublishChain);
        assert(commands@ =~= startup_commands());
        (node, commands)
    }

    /// A node that holds only the genesis block of its kind, built at a
    /// given time, together with what it asks of the transport at startup.
    pub fn starting_at(timestamp: u64) -> (started: (Self, Vec<Command>))
        ensures
            started.0@ == seq![BlockView::genesis(D::genesis_content(), timestamp)],
            valid_chain(started.0@),
            started.1@ == startup_commands(),
    {
        Self::with_chain(Chain::starting_at(timestamp))
    }

    /// A node that holds only the genesis block of its kind, stamped with
    /// the current time, together with what it asks of the transport at
    /// startup.
    pub fn new() -> (started: (Self, Vec<Command>))
        ensures
            started.0@ == seq![
                BlockView::genesis(D::genesis_content(), started.0@[0].timestamp),
            ],
            valid_chain(started.0@),
            started.1@ == startup_commands(),
    {
        Self::starting_at(current_timestamp())
    }

    /// The chain that the node holds.
    pub fn chain(&self) -> (chain: &Chain<D>)
        ensures
            chain@ == self@,
            self@.len() >= 1,
    {
        self.chain.never_empty();
        &self.chain
    }

    /// Mines a block with `data` after the head, built at a given time, and
    /// makes it the head. When mining fails the node is as it was.
    pub fn mine_at(self, data: D, timestamp: u64) -> (mined: (Self, Outcome))
        ensures
            self@.len() >= 1,
            block_mined(self@, data, timestamp, mined.0@, mined.1),
            valid_chain(self@) ==> valid_chain(mined.0@),
    {
        let ghost before = self@;
        let prefix = DIFFICULTY_PREFIX;
        match self.chain.last().mine_at(data, timestamp, prefix.as_slice()) {
            Ok(block) => {
                proof {
                    lemma_mined_block_is_valid(
                        before.last(),
                        data,
                        timestamp,
                        difficulty(),
                        block.nonce,
                    );
                    lemma_append_keeps_valid(before, block@);
                }
                let mined = (App { chain: self.chain.append(block) }, Outcome::Mined);
                assert(block_mined(before, data, timestamp, mined.0@, mined.1));
                mined
            },
            Err(e) => {
                let mined = (self, Outcome::MiningFailed(e));
                assert(block_mined(before, data, timestamp, mined.0@, mined.1));
                mined
            },
        }
    }

    /// Mines a block with `data` after the head, stamped with the current
    /// time, and makes it the head. Whatever the clock says, the result is
    /// what [`App::mine_at`] returns for that time.
    pub fn mine(self, data: D) -> (mined: (Self, Outcome))
        ensures
            self@.len() >= 1,
            exists|timestamp: u64| block_mined(self@, data, timestamp, mined.0@, mined.1),
            valid_chain(self@) ==> valid_chain(mined.0@),
    {
        self.mine_at(data, current_timestamp())
    }

    fn take_block(self, block: Block<D>, accepted: Outcome) -> (taken: (Self, Outcome))
        ensures
            self@.len() >= 1,
            block_taken(self@, block@, taken.0@, taken.1, accepted),
            valid_chain(self@) ==> valid_chain(taken.0@),
    {
        if self.chain.is_block_valid(&block) {
            proof {
                lemma_append_keeps_valid(self@, block@);
            }
            (App { chain: self.chain.append(block) }, accepted)
        } else {
            (self, Outcome::BlockRejected)
        }
    }

    /// Reacts to one event as [`reaction`] says. The only failure is a
    /// fork choice between two invalid chains. A node that holds a valid
    /// chain holds a valid chain afterwards.
    pub fn step(self, event: Event<D>) -> (stepped: Result<(Self, Outcome), ForkError>)
        ensures
            self@.len() >= 1,
            match stepped {
                Ok((node, outcome)) => {
                    &&& !fatal(self@, event)
                    &&& reaction(self@, event, node@, outcome)
                    &&& valid_chain(self@) ==> valid_chain(node@)
                },
                Err(ForkError::BothInvalid) => fatal(self@, event),
            },
    {
        self.chain.never_empty();
        match event {
            Event::MineRequested(data) => Ok(self.mine(data)),
            Event::BlockMined(block) => Ok(self.take_block(block, Outcome::Mined)),
            Event::BlockReceived(block) => Ok(self.take_block(block, Outcome::BlockAppended)),
            Event::ChainReceived(remote) => match self.chain.fork_choice(&remote) {
                Ok(Side::Local) => Ok((self, Outcome::KeptLocal)),
                Ok(Side::Remote) => Ok((App { chain: remote }, Outcome::AdoptedRemote)),
                Err(e) => Err(e),
            },
            Event::Malformed => Ok((self, Outcome::Ignored)),
            Event::DiscoveryChanged => Ok((self, Outcome::Ignored)),
        }
    }
}

/// A valid chain stays valid through every reaction of the node.
pub proof fn lemma_reaction_keeps_valid<D: Payload>(
    before: Seq<BlockView<D>>,
    event: Event<D>,
    after: Seq<BlockView<D>>,
    outcome: Outcome,
)
    requires
        before.len() >= 1,
        valid_chain(before),
        reaction(before, event, after, outcome),
    ensures
        valid_chain(after),
{
    match event {
        Event::MineRequested(data) => {
            let timestamp = choose|timestamp: u64|
                block_mined(before, data, timestamp, after, outcome);
            if outcome == Outcome::Mined {
                lemma_append_keeps_valid(before, after.last());
            }
        },
        Event::BlockMined(block) => {
            if valid_successor(block@, before.last()) {
                lemma_append_keeps_valid(before, block@);
            }
        },
        Event::BlockReceived(block) => {
            if valid_successor(block@, before.last()) {
                lemma_append_keeps_valid(before, block@);
            }
        },
        _ => {},
    }
}

/// Events that are neither blocks, chains nor mining requests never change
/// the chain; in particular a change of the known peers does not.
pub proof fn lemma_discovery_leaves_chain<D: Payload>(
    before: Seq<BlockView<D>>,
    after: Seq<BlockView<D>>,
    outcome: Outcome,
)
    requires
        reaction(before, Event::<D>::DiscoveryChanged, after, outcome),
    ensures
        after == before,
{
}

/// A block whose id is not the one after the head's is dropped, whether it
/// repeats the head's id or skips ahead: the chain stays as it was and the
/// outcome says that the block was rejected.
pub proof fn lemma_block_out_of_turn_is_dropped<D: Payload>(
    before: Seq<BlockView<D>>,
    block: BlockView<D>,
    after: Seq<BlockView<D>>,
    outcome: Outcome,
    accepted: Outcome,
)
    requires
        block.id != before.last().id + 1,
        block_taken(before, block, after, outcome, accepted),
    ensures
        after == before,
        outcome == Outcome::BlockRejected,
{
}

} // verus!
