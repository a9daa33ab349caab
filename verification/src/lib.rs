//! A proof-of-work ledger core: hash-linked blocks, chain validation,
//! mining, longest-valid-chain fork choice, and the decisions of a gossip
//! node, each with a machine-checked contract.

pub mod block;
pub mod chain;
pub mod clock;
pub mod digest;
pub mod encoding;
pub mod node;
pub mod payload;
pub mod transport;

pub use block::{same_bytes, starts_with, Block, BlockView, MineError, GENESIS_NONCE};
pub use chain::{is_block_valid, Chain, ForkError, Side, DIFFICULTY_PREFIX};
pub use clock::timestamp_from_unix_seconds;
pub use digest::sha3_256;
pub use encoding::{put_bytes, put_u64};
pub use node::{App, Command, Event, Outcome};
pub use payload::{Data, Genesis, NoOp, Payload, Script, Transfer, GENESIS_AMOUNT};
pub use transport::{
    on_discovered, on_expired, react, Expiry, MembershipChange, ReceivedMessage, Topic,
    TransportAction, TransportEvent,
};
