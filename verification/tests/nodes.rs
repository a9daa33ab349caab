use xblock::{
    App, Block, Chain, Command, Data, Event, ForkError, Genesis, MineError, NoOp, Outcome,
    Script, Topic, Transfer, DIFFICULTY_PREFIX,
};

fn transfer(from: u64, to: u64) -> Data {
    Data::Script(Script::Transfer(Transfer { from, to }))
}

const STAMPS_A: [u64; 6] =
    [1_700_000_000, 1_700_000_017, 1_700_000_054, 1_700_000_117, 1_700_000_137, 1_700_000_399];
const STAMPS_B: [u64; 6] =
    [1_800_000_000, 1_800_000_081, 1_800_000_816, 1_800_000_842, 1_800_000_896, 1_800_001_045];

fn script_chain(stamps: &[u64; 6], len: usize) -> Chain<Data> {
    let mut chain: Chain<Data> = Chain::starting_at(stamps[0]);
    let mut i = 1;
    while i < len {
        chain = chain.mine_at(transfer(i as u64, i as u64 + 1), stamps[i]).unwrap();
        i += 1;
    }
    chain
}

fn node_with(chain: &Chain<Data>) -> App<Data> {
    App::with_chain(chain.clone()).0
}

fn with_corrupted_head(chain: &Chain<Data>) -> Chain<Data> {
    let mut blocks = chain.blocks().clone();
    let mut head = blocks.pop().unwrap();
    head.hash[7] ^= 0x01;
    Chain::from_parts(blocks, head)
}

#[test]
fn node_starts_by_subscribing_and_announcing_its_chain() {
    let (node, commands) = App::<Data>::starting_at(1_700_000_000);
    assert_eq!(
        commands,
        vec![
            Command::Subscribe(Topic::Chain),
            Command::Subscribe(Topic::Block),
            Command::PublishChain,
        ]
    );
    assert_eq!(node.chain(), &Chain::<Data>::starting_at(1_700_000_000));
    let topics: Vec<&str> = commands.iter().map(|c| c.topic().name()).collect();
    assert_eq!(topics, vec!["chain", "block", "chain"]);
}

#[test]
fn new_node_holds_a_fresh_genesis_chain() {
    let (node, commands) = App::<NoOp>::new();
    assert_eq!(commands.len(), 3);
    assert_eq!(node.chain().len(), 1);
    let head = node.chain().last();
    assert_eq!(head.id, 0);
    assert!(head.timestamp > 1_600_000_000);
    assert_eq!(head, &Block::genesis_at(NoOp, head.timestamp));
}

#[test]
fn commands_name_their_topics() {
    assert_eq!(Command::Subscribe(Topic::Block).topic(), Topic::Block);
    assert_eq!(Command::Subscribe(Topic::Chain).topic(), Topic::Chain);
    assert_eq!(Command::PublishChain.topic(), Topic::Chain);
    assert_eq!(Command::PublishHead.topic(), Topic::Block);
}

#[test]
fn only_mining_is_announced() {
    assert_eq!(Outcome::Mined.command(), Some(Command::PublishHead));
    assert_eq!(Outcome::MiningFailed(MineError::IdsExhausted).command(), None);
    assert_eq!(Outcome::BlockAppended.command(), None);
    assert_eq!(Outcome::BlockRejected.command(), None);
    assert_eq!(Outcome::KeptLocal.command(), None);
    assert_eq!(Outcome::AdoptedRemote.command(), None);
    assert_eq!(Outcome::Ignored.command(), None);
}

#[test]
fn mine_at_appends_and_asks_to_publish_the_head() {
    let (node, _) = App::<Data>::starting_at(STAMPS_A[0]);
    let (node, outcome) = node.mine_at(transfer(1, 2), STAMPS_A[1]);
    assert_eq!(outcome, Outcome::Mined);
    assert_eq!(outcome.command().unwrap().topic().name(), "block");
    assert_eq!(node.chain(), &script_chain(&STAMPS_A, 2));
    assert_eq!(node.chain().last().nonce, 295);
}

#[test]
fn mine_request_is_served_with_the_current_time() {
    let (node, _) = App::<Data>::starting_at(STAMPS_A[0]);
    let genesis = node.chain().last().clone();
    let (node, outcome) = node.step(Event::MineRequested(transfer(4, 5))).unwrap();
    assert_eq!(outcome, Outcome::Mined);
    assert_eq!(node.chain().len(), 2);
    assert!(node.chain().is_valid());
    let head = node.chain().last();
    assert_eq!(head.previous_hash, genesis.hash);
    assert_eq!(&head.hash[..2], &DIFFICULTY_PREFIX[..]);
    assert!(head.timestamp > 1_600_000_000);
}

#[test]
fn mining_failure_leaves_the_node_as_it_was() {
    let mut head = Block::genesis_at(transfer(0, 0), 1);
    head.id = u64::MAX;
    let node = node_with(&Chain::from_parts(vec![], head));
    let before = node.clone();
    let (node, outcome) = node.mine(transfer(1, 2));
    assert_eq!(outcome, Outcome::MiningFailed(MineError::IdsExhausted));
    assert_eq!(node, before);
    let (node, outcome) = node.mine_at(transfer(1, 2), 9);
    assert_eq!(outcome, Outcome::MiningFailed(MineError::IdsExhausted));
    assert_eq!(node, before);
}

#[test]
fn block_from_a_worker_is_appended_and_announced() {
    let chain = script_chain(&STAMPS_A, 2);
    let node = node_with(&chain);
    let block =
        chain.last().mine_at(transfer(2, 3), STAMPS_A[2], &DIFFICULTY_PREFIX).unwrap();
    let (node, outcome) = node.step(Event::BlockMined(block.clone())).unwrap();
    assert_eq!(outcome, Outcome::Mined);
    assert_eq!(node.chain(), &script_chain(&STAMPS_A, 3));
    let (node, outcome) = node.step(Event::BlockMined(block)).unwrap();
    assert_eq!(outcome, Outcome::BlockRejected);
    assert_eq!(node.chain(), &script_chain(&STAMPS_A, 3));
}

#[test]
fn valid_block_from_a_peer_is_appended() {
    let chain = script_chain(&STAMPS_A, 3);
    let node = node_with(&chain);
    let block =
        chain.last().mine_at(transfer(3, 4), STAMPS_A[3], &DIFFICULTY_PREFIX).unwrap();
    let (node, outcome) = node.step(Event::BlockReceived(block.clone())).unwrap();
    assert_eq!(outcome, Outcome::BlockAppended);
    assert_eq!(outcome.command(), None);
    assert_eq!(node.chain().len(), 4);
    assert_eq!(node.chain().last(), &block);
    assert_eq!(node.chain(), &script_chain(&STAMPS_A, 4));
}

#[test]
fn block_that_skips_an_id_is_rejected() {
    let longer = script_chain(&STAMPS_A, 5);
    let local = script_chain(&STAMPS_A, 3);
    let node = node_with(&local);
    let gap = longer.last().clone();
    assert_eq!(gap.id, local.last().id + 2);
    assert!(gap.verify());
    let (node, outcome) = node.step(Event::BlockReceived(gap)).unwrap();
    assert_eq!(outcome, Outcome::BlockRejected);
    assert_eq!(node.chain(), &local);
}

#[test]
fn block_with_the_id_of_the_head_is_dropped() {
    let local = script_chain(&STAMPS_A, 3);
    let node = node_with(&local);
    let (node, outcome) = node.step(Event::BlockReceived(local.last().clone())).unwrap();
    assert_eq!(outcome, Outcome::BlockRejected);
    assert_ne!(outcome, Outcome::Ignored);
    assert_eq!(node.chain(), &local);
}

#[test]
fn longer_valid_chain_from_a_peer_is_adopted() {
    let node = node_with(&script_chain(&STAMPS_A, 3));
    let remote = script_chain(&STAMPS_B, 5);
    let (node, outcome) = node.step(Event::ChainReceived(remote.clone())).unwrap();
    assert_eq!(outcome, Outcome::AdoptedRemote);
    assert_eq!(outcome.command(), None);
    assert_eq!(node.chain(), &remote);
}

#[test]
fn shorter_or_equal_chain_from_a_peer_is_not_adopted() {
    let local = script_chain(&STAMPS_A, 5);
    let node = node_with(&local);
    let (node, outcome) =
        node.step(Event::ChainReceived(script_chain(&STAMPS_B, 5))).unwrap();
    assert_eq!(outcome, Outcome::KeptLocal);
    assert_eq!(node.chain(), &local);
    let (node, outcome) =
        node.step(Event::ChainReceived(script_chain(&STAMPS_B, 2))).unwrap();
    assert_eq!(outcome, Outcome::KeptLocal);
    assert_eq!(node.chain(), &local);
}

#[test]
fn invalid_chain_from_a_peer_is_not_adopted() {
    let local = script_chain(&STAMPS_A, 4);
    let node = node_with(&local);
    let remote = with_corrupted_head(&script_chain(&STAMPS_B, 6));
    let (node, outcome) = node.step(Event::ChainReceived(remote)).unwrap();
    assert_eq!(outcome, Outcome::KeptLocal);
    assert_eq!(node.chain(), &local);
}

#[test]
fn node_can_be_started_with_a_chain() {
    let chain = script_chain(&STAMPS_A, 2);
    let (node, commands) = App::with_chain(chain.clone());
    assert_eq!(node.chain(), &chain);
    assert_eq!(commands, App::<Data>::starting_at(0).1);
}

#[test]
fn valid_chain_replaces_a_corrupt_local_one() {
    let remote = script_chain(&STAMPS_B, 2);
    let stray = Block::genesis_at(Data::Genesis(Genesis { amt: 3 }), 6);
    let corrupt = script_chain(&STAMPS_A, 3).append(stray);
    assert!(!corrupt.is_valid());
    let node = node_with(&corrupt);
    let (node, outcome) = node.step(Event::ChainReceived(remote.clone())).unwrap();
    assert_eq!(outcome, Outcome::AdoptedRemote);
    assert_eq!(node.chain(), &remote);
}

#[test]
fn two_invalid_chains_are_fatal() {
    let local = with_corrupted_head(&script_chain(&STAMPS_A, 2));
    let remote = with_corrupted_head(&script_chain(&STAMPS_B, 3));
    let node = node_with(&local);
    assert_eq!(node.step(Event::ChainReceived(remote)), Err(ForkError::BothInvalid));
    let node = node_with(&local);
    assert_eq!(node.step(Event::ChainReceived(local.clone())), Err(ForkError::BothInvalid));
}

#[test]
fn other_events_leave_the_chain_alone() {
    let local = script_chain(&STAMPS_A, 2);
    let node = node_with(&local);
    let (node, outcome) = node.step(Event::Malformed).unwrap();
    assert_eq!(outcome, Outcome::Ignored);
    assert_eq!(node.chain(), &local);
    let (node, outcome) = node.step(Event::DiscoveryChanged).unwrap();
    assert_eq!(outcome, Outcome::Ignored);
    assert_eq!(node.chain(), &local);
}
