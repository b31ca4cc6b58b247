//! One-shot result delivery: a single-producer, single-consumer path that
//! returns the outcome of one sealing request to exactly one waiting caller.
//! The surrounding node maps this state machine onto its native one-shot
//! future primitive; suspension is its business, the exactly-once discipline
//! is proved here.

use vstd::prelude::*;

use crate::seal::CreatedBlock;
use crate::Error;

verus! {

/// Lifecycle of one delivery path.
#[derive(Clone, Copy, Debug, PartialEq, Eq)]
pub enum ChannelState {
    /// No outcome delivered yet; the consumer still waits.
    Pending,
    /// The producer delivered this outcome; not yet consumed.
    Sent(Result<CreatedBlock, Error>),
    /// The consumer took the outcome.
    Consumed,
    /// The consumer walked away before delivery.
    Abandoned,
}

/// A single-use reply path. Created per sealing attempt, written exactly
/// once, consumed at most once, never reused.
#[derive(Debug)]
pub struct ResultChannel {
    pub state: ChannelState,
}

impl ResultChannel {
    /// A fresh channel awaiting its one outcome.
    pub fn new() -> (r: ResultChannel)
        ensures
            r.state is Pending,
    {
        ResultChannel { state: ChannelState::Pending }
    }

    /// Delivers the outcome. Infallible from the producer's side: if the
    /// consumer has abandoned the channel the send is a no-op, never a panic
    /// and never a block.
    pub fn send(&mut self, outcome: Result<CreatedBlock, Error>)
        requires
            old(self).state is Pending || old(self).state is Abandoned,
        ensures
            old(self).state is Pending ==> final(self).state == ChannelState::Sent(outcome),
            old(self).state is Abandoned ==> final(self).state is Abandoned,
    {
        match self.state {
            ChannelState::Pending => {
                self.state = ChannelState::Sent(outcome);
            },
            _ => {},
        }
    }

    /// Takes the delivered outcome, if one is there. The producer sends
    /// exactly once on every exit path of the sealing pipeline, so a
    /// consumer that waited for a send never sees `None`.
    pub fn recv(&mut self) -> (r: Option<Result<CreatedBlock, Error>>)
        ensures
            match old(self).state {
                ChannelState::Sent(o) => r == Some(o) && final(self).state is Consumed,
                _ => r is None && final(self).state == old(self).state,
            },
    {
        match self.state {
            ChannelState::Sent(o) => {
                self.state = ChannelState::Consumed;
                Some(o)
            },
            _ => None,
        }
    }

    /// The consumer abandons the channel; a later send becomes a no-op.
    pub fn abandon(&mut self)
        requires
            old(self).state is Pending,
        ensures
            final(self).state is Abandoned,
    {
        self.state = ChannelState::Abandoned;
    }
}

} // verus!
