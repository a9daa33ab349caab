//! The ledger's side of the gossip transport: topic names, the shape of an
//! inbound message, and what the transport does with each of its events.
//! Sockets, peers' addresses and the wire encoding live outside this crate;
//! here a peer is the byte string of its identity.

use vstd::prelude::*;

verus! {

/// A topic of the gossip overlay.
#[derive(Clone, Copy, Debug, PartialEq, Eq, Structural)]
pub enum Topic {
    /// Carries a whole serialized chain.
    Chain,
    /// Carries a single serialized block.
    Block,
}

impl Topic {
    /// The topic's name on the wire, as a sequence of characters.
    pub open spec fn spec_name(self) -> Seq<char> {
        match self {
            Topic::Chain => "chain"@,
            Topic::Block => "block"@,
        }
    }

    /// The topic's name on the wire: `"chain"` or `"block"`.
    pub fn name(&self) -> (name: &'static str)
        ensures
            name@ == self.spec_name(),
    {
        match self {
            Topic::Chain => "chain",
            Topic::Block => "block",
        }
    }
}

/// A message that the overlay delivered.
#[derive(Clone, Debug, PartialEq, Eq)]
pub struct ReceivedMessage {
    /// The names of the topics that the message was published on.
    pub topics: Vec<String>,
    /// The serialized chain or block.
    pub data: Vec<u8>,
}

/// One of the topic names is `"chain"`.
pub open spec fn names_chain(topics: Seq<String>) -> bool {
    exists|i: int| 0 <= i < topics.len() && (#[trigger] topics[i])@ == Topic::Chain.spec_name()
}

impl ReceivedMessage {
    /// What the message carries: a chain when it was published on the
    /// chain topic, a block otherwise.
    pub fn topic(&self) -> (topic: Topic)
        ensures
            topic == if names_chain(self.topics@) {
                Topic::Chain
            } else {
                Topic::Block
            },
    {
        let chain = Topic::Chain.name().to_owned();
        let n = self.topics.len();
        let mut i: usize = 0;
        while i < n
            invariant
                n == self.topics@.len(),
                i <= n,
                chain@ == Topic::Chain.spec_name(),
                forall|j: int|
                    0 <= j < i ==> (#[trigger] self.topics@[j])@ != Topic::Chain.spec_name(),
            decreases n - i,
        {
            if self.topics[i] == chain {
                return Topic::Chain;
            }
            i += 1;
        }
        Topic::Block
    }
}

/// A peer whose discovery record ran out.
#[derive(Clone, Debug, PartialEq, Eq)]
pub struct Expiry {
    /// The peer's identity.
    pub peer: Vec<u8>,
    /// Whether discovery still holds another live record of the peer.
    pub still_known: bool,
}

/// What the transport reports to its driver.
#[derive(Clone, Debug, PartialEq, Eq)]
pub enum TransportEvent {
    /// The transport started to listen on an address.
    Listening,
    /// The overlay delivered a message.
    Message(ReceivedMessage),
    /// Discovery found these peers.
    Discovered(Vec<Vec<u8>>),
    /// The discovery records of these peers ran out.
    Expired(Vec<Expiry>),
    /// Anything else.
    Other,
}

/// A change to the set of peers that the overlay floods to.
#[derive(Clone, Debug, PartialEq, Eq)]
pub enum MembershipChange {
    Add(Vec<u8>),
    Remove(Vec<u8>),
}

/// The mathematical value of a [`MembershipChange`].
pub enum MembershipChangeView {
    Add(Seq<u8>),
    Remove(Seq<u8>),
}

impl View for MembershipChange {
    type V = MembershipChangeView;

    open spec fn view(&self) -> MembershipChangeView {
        match self {
            MembershipChange::Add(peer) => MembershipChangeView::Add(peer@),
            MembershipChange::Remove(peer) => MembershipChangeView::Remove(peer@),
        }
    }
}

/// What the driver does after an event.
#[derive(Clone, Debug, PartialEq, Eq)]
pub enum TransportAction {
    /// Nothing; wait for the next event.
    Wait,
    /// Hand the message to the ledger.
    Deliver(ReceivedMessage),
    /// Apply the changes to the overlay's peers, in order, then wait for
    /// the next event.
    UpdatePeers(Vec<MembershipChange>),
}

/// The values of a sequence of membership changes.
pub open spec fn change_views(changes: Seq<MembershipChange>) -> Seq<MembershipChangeView> {
    changes.map_values(|c: MembershipChange| c@)
}

/// One addition for each discovered peer, in order.
pub open spec fn additions(peers: Seq<Vec<u8>>) -> Seq<MembershipChangeView> {
    peers.map_values(|p: Vec<u8>| MembershipChangeView::Add(p@))
}

/// One removal for each expired peer that discovery no longer knows, in
/// order.
pub open spec fn removals(expired: Seq<Expiry>) -> Seq<MembershipChangeView> {
    expired.filter(|e: Expiry| !e.still_known).map_values(
        |e: Expiry| MembershipChangeView::Remove(e.peer@),
    )
}

/// Every discovered peer joins the overlay's peers.
pub fn on_discovered(peers: &Vec<Vec<u8>>) -> (changes: Vec<MembershipChange>)
    ensures
        change_views(changes@) == additions(peers@),
{
    let n = peers.len();
    let mut changes: Vec<MembershipChange> = Vec::new();
    let mut i: usize = 0;
    while i < n
        invariant
            n == peers@.len(),
            i <= n,
            changes@.len() == i,
            forall|j: int| 0 <= j < i ==> changes@[j]@ == MembershipChangeView::Add(peers@[j]@),
        decreases n - i,
    {
        changes.push(MembershipChange::Add(peers[i].clone()));
        i += 1;
    }
    assert(change_views(changes@) =~= additions(peers@));
    changes
}

/// An expired peer leaves the overlay's peers unless discovery still knows
/// it.
pub fn on_expired(expired: &Vec<Expiry>) -> (changes: Vec<MembershipChange>)
    ensures
        change_views(changes@) == removals(expired@),
{
    let n = expired.len();
    let mut changes: Vec<MembershipChange> = Vec::new();
    let mut i: usize = 0;
    proof {
        reveal(Seq::filter);
        assert(expired@.take(0) =~= Seq::<Expiry>::empty());
        assert(change_views(changes@) =~= removals(expired@.take(0)));
    }
    while i < n
        invariant
            n == expired@.len(),
            i <= n,
            change_views(changes@) == removals(expired@.take(i as int)),
        decreases n - i,
    {
        let ghost before = changes@;
        proof {
            reveal(Seq::filter);
            assert(expired@.take(i + 1).drop_last() =~= expired@.take(i as int));
            assert(expired@.take(i + 1).last() == expired@[i as int]);
        }
        if !expired[i].still_known {
            changes.push(MembershipChange::Remove(expired[i].peer.clone()));
            assert(change_views(changes@) =~= change_views(before).push(
                MembershipChangeView::Remove(expired@[i as int].peer@),
            ));
        }
        i += 1;
        assert(change_views(changes@) =~= removals(expired@.take(i as int)));
    }
    assert(expired@.take(n as int) =~= expired@);
    changes
}

/// What the driver does after `event`. Only a delivered message reaches the
/// ledger; discovery changes the overlay's peers and nothing else.
pub fn react(event: TransportEvent) -> (action: TransportAction)
    ensures
        match event {
            TransportEvent::Message(message) => action == TransportAction::Deliver(message),
            TransportEvent::Discovered(peers) => action matches TransportAction::UpdatePeers(
                changes,
            ) && change_views(changes@) == additions(peers@),
            TransportEvent::Expired(expired) => action matches TransportAction::UpdatePeers(
                changes,
            ) && change_views(changes@) == removals(expired@),
            TransportEvent::Listening | TransportEvent::Other => action == TransportAction::Wait,
        },
{
    match event {
        TransportEvent::Message(message) => TransportAction::Deliver(message),
        TransportEvent::Discovered(peers) => TransportAction::UpdatePeers(on_discovered(&peers)),
        TransportEvent::Expired(expired) => TransportAction::UpdatePeers(on_expired(&expired)),
        TransportEvent::Listening => TransportAction::Wait,
        TransportEvent::Other => TransportAction::Wait,
    }
}

} // verus!
