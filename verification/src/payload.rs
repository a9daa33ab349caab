//! What a block carries. Each kind of chain has its own payload type; the
//! ledger only needs to write a payload into a digest preimage and to know
//! what the first block of a chain holds.

use crate::encoding::{lemma_split_left, lemma_u64_le_injective, put_u64, u64_le};
use vstd::prelude::*;

verus! {

/// A value that a block can carry.
pub trait Payload: Copy {
    /// The bytes that stand for this payload in a digest preimage.
    spec fn encoding(&self) -> Seq<u8>;

    /// The payload of the first block of a chain of this kind.
    spec fn genesis_content() -> Self;

    /// Different payloads are written differently.
    proof fn lemma_encoding_injective(a: Self, b: Self)
        requires
            a.encoding() == b.encoding(),
        ensures
            a == b,
    ;

    /// Appends the payload's bytes to `buf`.
    fn write_to(&self, buf: &mut Vec<u8>)
        ensures
            final(buf)@ == old(buf)@ + self.encoding(),
    ;

    /// Returns the payload of the first block of a chain of this kind.
    fn genesis() -> (data: Self)
        ensures
            data == Self::genesis_content(),
    ;
}

/// The opening balance that a script chain starts from.
#[derive(Clone, Copy, Debug, PartialEq, Eq, Structural)]
pub struct Genesis {
    pub amt: u64,
}

/// A movement of funds between two accounts.
#[derive(Clone, Copy, Debug, PartialEq, Eq, Structural)]
pub struct Transfer {
    pub from: u64,
    pub to: u64,
}

/// A script carried by a block of the script chain.
#[derive(Clone, Copy, Debug, PartialEq, Eq, Structural)]
pub enum Script {
    Transfer(Transfer),
}

/// The payload of the script chain.
#[derive(Clone, Copy, Debug, PartialEq, Eq, Structural)]
pub enum Data {
    Genesis(Genesis),
    Script(Script),
}

/// The payload of the value-transfer chain: it carries nothing.
#[derive(Clone, Copy, Debug, PartialEq, Eq, Structural)]
pub struct NoOp;

/// The balance that the first block of a script chain creates.
pub const GENESIS_AMOUNT: u64 = 1_000_000;

impl Genesis {
    /// The amount, as eight bytes.
    pub open spec fn encoding(&self) -> Seq<u8> {
        u64_le(self.amt)
    }

    /// Appends the amount to `buf`.
    pub fn write_to(&self, buf: &mut Vec<u8>)
        ensures
            final(buf)@ == old(buf)@ + self.encoding(),
    {
        put_u64(buf, self.amt);
    }
}

impl Transfer {
    /// The sender, then the receiver, eight bytes each.
    pub open spec fn encoding(&self) -> Seq<u8> {
        u64_le(self.from) + u64_le(self.to)
    }

    /// Appends sender and receiver to `buf`.
    pub fn write_to(&self, buf: &mut Vec<u8>)
        ensures
            final(buf)@ == old(buf)@ + self.encoding(),
    {
        put_u64(buf, self.from);
        put_u64(buf, self.to);
        assert(buf@ =~= old(buf)@ + self.encoding());
    }
}

impl Script {
    /// The bytes of the script's content; the kind of script is not written.
    pub open spec fn encoding(&self) -> Seq<u8> {
        match self {
            Script::Transfer(t) => t.encoding(),
        }
    }

    /// Appends the script's content to `buf`.
    pub fn write_to(&self, buf: &mut Vec<u8>)
        ensures
            final(buf)@ == old(buf)@ + self.encoding(),
    {
        match self {
            Script::Transfer(t) => t.write_to(buf),
        }
    }
}

impl Payload for Data {
    /// The bytes of the content; the variant shows in their number, eight
    /// for a genesis and sixteen for a transfer.
    open spec fn encoding(&self) -> Seq<u8> {
        match self {
            Data::Genesis(g) => g.encoding(),
            Data::Script(s) => s.encoding(),
        }
    }

    open spec fn genesis_content() -> Self {
        Data::Genesis(Genesis { amt: GENESIS_AMOUNT })
    }

    proof fn lemma_encoding_injective(a: Self, b: Self) {
        match (a, b) {
            (Data::Genesis(g), Data::Genesis(h)) => {
                lemma_u64_le_injective(g.amt, h.amt);
            },
            (Data::Script(Script::Transfer(t)), Data::Script(Script::Transfer(u))) => {
                lemma_split_left(u64_le(t.from), u64_le(t.to), u64_le(u.from), u64_le(u.to));
                lemma_u64_le_injective(t.from, u.from);
                lemma_u64_le_injective(t.to, u.to);
            },
            (Data::Genesis(g), Data::Script(Script::Transfer(t))) => {
                assert(a.encoding().len() == 8);
                assert(b.encoding().len() == 16);
            },
            (Data::Script(Script::Transfer(t)), Data::Genesis(g)) => {
                assert(a.encoding().len() == 16);
                assert(b.encoding().len() == 8);
            },
        }
    }

    fn write_to(&self, buf: &mut Vec<u8>) {
        match self {
            Data::Genesis(g) => g.write_to(buf),
            Data::Script(s) => s.write_to(buf),
        }
    }

    fn genesis() -> (data: Self) {
        Data::Genesis(Genesis { amt: GENESIS_AMOUNT })
    }
}

impl Payload for NoOp {
    /// Nothing is written.
    open spec fn encoding(&self) -> Seq<u8> {
        Seq::empty()
    }

    open spec fn genesis_content() -> Self {
        NoOp
    }

    proof fn lemma_encoding_injective(a: Self, b: Self) {
    }

    fn write_to(&self, buf: &mut Vec<u8>) {
        assert(buf@ =~= old(buf)@ + self.encoding());
    }

    fn genesis() -> (data: Self) {
        NoOp
    }
}

} // verus!
