//! The two-phase bridge between a caller that must not block and a worker
//! that may.
//!
//! The caller starts a receive, which a worker then runs to its end, and
//! collects the result once the worker has reported it. The bridge keeps
//! the state of that exchange and decides each step; scheduling the worker
//! and resuming the caller are the embedder's part.

use vstd::prelude::*;

use crate::error::{BridgeError, CollectError, RecvError};

verus! {

/// Where an exchange stands.
pub enum BridgeState<M> {
    /// Nothing is scheduled.
    Idle,
    /// A receive is scheduled and has not finished.
    Pending,
    /// A receive has finished, and its result waits to be collected.
    Ready(Result<M, RecvError>),
}

/// What the caller gets for the result of a finished receive.
pub open spec fn handed_out<M>(result: Result<M, RecvError>) -> Result<M, CollectError> {
    match result {
        Ok(msg) => Ok(msg),
        Err(e) => Err(CollectError::Recv(e)),
    }
}

impl<M> BridgeState<M> {
    /// Whether a receive has been scheduled and its result not collected.
    pub open spec fn scheduled(self) -> bool {
        !(self is Idle)
    }

    /// The state after a start. A result that nobody collected is dropped.
    pub open spec fn start(self) -> Self {
        BridgeState::Pending
    }

    /// The state after the worker reported `result`. A report that no
    /// scheduled receive waits for changes nothing.
    pub open spec fn complete(self, result: Result<M, RecvError>) -> Self {
        if self is Pending {
            BridgeState::Ready(result)
        } else {
            self
        }
    }

    /// What a collect returns in this state.
    pub open spec fn collected(self) -> Result<M, CollectError> {
        match self {
            BridgeState::Ready(result) => handed_out(result),
            _ => Err(CollectError::Bridge(BridgeError::NotReady)),
        }
    }

    /// The state after a collect.
    pub open spec fn after_collect(self) -> Self {
        match self {
            BridgeState::Ready(_) => BridgeState::Idle,
            _ => self,
        }
    }
}

/// The handle of at most one outstanding receive.
pub struct ReceiveBridge<M> {
    state: BridgeState<M>,
}

impl<M> View for ReceiveBridge<M> {
    type V = BridgeState<M>;

    closed spec fn view(&self) -> BridgeState<M> {
        self.state
    }
}

impl<M> ReceiveBridge<M> {
    /// A bridge with nothing scheduled.
    pub fn new() -> (bridge: Self)
        ensures
            bridge@ == BridgeState::<M>::Idle,
    {
        ReceiveBridge { state: BridgeState::Idle }
    }

    /// Whether a scheduled receive has not finished yet.
    pub fn is_pending(&self) -> (pending: bool)
        ensures
            pending == (self@ is Pending),
    {
        match &self.state {
            BridgeState::Pending => true,
            _ => false,
        }
    }

    /// Starts a receive: the bridge is pending from now on, and the caller
    /// schedules the receive on a worker. A finished result that was never
    /// collected is dropped. No receive may be in flight.
    pub fn start(&mut self)
        requires
            !(old(self)@ is Pending),
        ensures
            final(self)@ == old(self)@.start(),
    {
        self.state = BridgeState::Pending;
    }

    /// Whether a receive has been scheduled and its result not collected.
    /// It is `true` right after `start`: it says that a receive is under
    /// way, not that its result is there.
    pub fn poll_ready(&self) -> (scheduled: bool)
        ensures
            scheduled == self@.scheduled(),
    {
        match &self.state {
            BridgeState::Idle => false,
            _ => true,
        }
    }

    /// Takes the report of the worker that the scheduled receive finished
    /// with `result`. The answer is whether a receive was waiting for it;
    /// where none was, the report is dropped.
    pub fn complete(&mut self, result: Result<M, RecvError>) -> (accepted: bool)
        ensures
            final(self)@ == old(self)@.complete(result),
            accepted == (old(self)@ is Pending),
    {
        if self.is_pending() {
            self.state = BridgeState::Ready(result);
            true
        } else {
            false
        }
    }

    /// Hands out the result of the finished receive and returns to idle.
    /// While the receive has not finished, or none was started, the answer
    /// is `NotReady` and nothing changes.
    pub fn collect(&mut self) -> (collected: Result<M, CollectError>)
        ensures
            collected == old(self)@.collected(),
            final(self)@ == old(self)@.after_collect(),
    {
        let mut taken = BridgeState::Idle;
        std::mem::swap(&mut self.state, &mut taken);
        match taken {
            BridgeState::Ready(Ok(msg)) => Ok(msg),
            BridgeState::Ready(Err(e)) => Err(CollectError::Recv(e)),
            BridgeState::Pending => {
                self.state = BridgeState::Pending;
                Err(CollectError::Bridge(BridgeError::NotReady))
            },
            BridgeState::Idle => Err(CollectError::Bridge(BridgeError::NotReady)),
        }
    }
}

} // verus!
