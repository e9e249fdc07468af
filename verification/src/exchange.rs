//! The engine that owns one multiplexer and drives one transport.
//!
//! The exchange is a state machine: `Connecting` while the transport is
//! being established, `Running` while it serves traffic, `Closed` after a
//! terminal I/O failure or a quiescent shutdown.  The task that owns the
//! transport feeds it events — transport ready, inbound payload, I/O
//! error — and performs the writes it hands back.  Requests submitted
//! before the transport is ready queue until it is.

use vstd::prelude::*;

use crate::codec::{spec_decode, spec_embedded_id, spec_encode, DnsQuery, MessageView};
use crate::error::ClientError;
use crate::mux::{
    spec_apply_signer, spec_dispatch_pending, spec_dispatch_resolves, spec_strip_signer,
    DispatchOutcome, MessageSigner, Multiplexer,
};

verus! {

/// Where an exchange stands in its life cycle.
#[derive(Clone, Copy, Debug, PartialEq, Eq, Structural)]
pub enum ExchangeState {
    Connecting,
    Running,
    Closed,
}

/// What became of one submitted request.
#[derive(Debug, PartialEq, Eq)]
pub enum SubmitOutcome {
    /// The request went out: write this payload to the transport and
    /// await the response for this identifier.
    Sent { id: u16, payload: Vec<u8> },
    /// The transport is not ready, or no identifier is free; the request
    /// waits its turn.
    Queued,
    /// The exchange is closed; the request fails at once.
    Rejected { error: ClientError },
}

/// The single owner of one multiplexer and one transport stream.
pub struct Exchange {
    pub state: ExchangeState,
    pub mux: Multiplexer,
    /// Requests accepted before the transport was ready (or while the
    /// identifier space was full), oldest first.
    pub queued: Vec<DnsQuery>,
}

impl Exchange {
    /// Invariant: the multiplexer is well formed, nothing is in flight
    /// before the transport is ready, nothing is left after close, and
    /// every queued request is encodable.
    pub open spec fn wf(self) -> bool {
        &&& self.mux.wf()
        &&& self.state is Connecting ==> self.mux.pending@.len() == 0
        &&& self.state is Closed ==> self.mux.pending@.len() == 0 && self.queued@.len() == 0
        &&& forall|i: int| 0 <= i < self.queued@.len() ==> (#[trigger] self.queued@[i])@.wf()
    }

    /// A fresh exchange, not yet connected, with an empty table and queue.
    pub fn new(signer: Option<MessageSigner>) -> (r: Self)
        ensures
            r.wf(),
            r.state is Connecting,
            r.mux.pending@ == Seq::<u16>::empty(),
            r.mux.next_id == 0,
            r.mux.signer == signer,
            r.queued@ == Seq::<DnsQuery>::empty(),
    {
        Exchange { state: ExchangeState::Connecting, mux: Multiplexer::new(signer), queued: Vec::new() }
    }

    /// The transport finished establishing: enter `Running`.  Anywhere
    /// else in the life cycle this is a no-op.
    pub fn on_ready(&mut self)
        requires
            old(self).wf(),
        ensures
            final(self).wf(),
            final(self).mux == old(self).mux,
            final(self).queued == old(self).queued,
            final(self).state == (if old(self).state is Connecting {
                ExchangeState::Running
            } else {
                old(self).state
            }),
    {
        if let ExchangeState::Connecting = self.state {
            self.state = ExchangeState::Running;
        }
    }

    /// Submit one request.
    ///
    /// While `Running` it goes out at once under a fresh identifier
    /// (unless every identifier is taken, when it queues); while
    /// `Connecting` it queues until the transport is ready; after
    /// `Closed` it fails immediately with `ConnectionLost`.
    pub fn submit(&mut self, query: DnsQuery) -> (r: SubmitOutcome)
        requires
            old(self).wf(),
            query@.wf(),
        ensures
            final(self).wf(),
            final(self).state == old(self).state,
            final(self).mux.signer == old(self).mux.signer,
            old(self).state is Closed ==> (r matches SubmitOutcome::Rejected { error } && error
                == ClientError::ConnectionLost && *final(self) == *old(self)),
            old(self).state is Connecting ==> r is Queued,
            r is Queued ==> final(self).queued@ == old(self).queued@.push(query) && final(self).mux == old(self).mux,
            old(self).state is Running ==> {
                &&& old(self).mux.pending@.len() < 0x10000 ==> r is Sent
                &&& !(r is Rejected)
            },
            r matches SubmitOutcome::Sent { id, payload } ==> {
                &&& old(self).state is Running
                &&& !old(self).mux.pending@.contains(id)
                &&& final(self).mux.pending@ == old(self).mux.pending@.push(id)
                &&& payload@ == spec_apply_signer(
                    spec_encode(
                        MessageView {
                            id,
                            response: false,
                            query: query@,
                            answers: Seq::empty(),
                        },
                    ),
                    old(self).mux.tag(),
                )
                &&& spec_embedded_id(payload@) == Some(id)
                &&& final(self).queued == old(self).queued
            },
    {
        match self.state {
            ExchangeState::Closed => SubmitOutcome::Rejected { error: ClientError::ConnectionLost },
            ExchangeState::Connecting => {
                self.queued.push(query);
                SubmitOutcome::Queued
            },
            ExchangeState::Running => {
                match self.mux.send(&query) {
                    Some((id, payload)) => SubmitOutcome::Sent { id, payload },
                    None => {
                        self.queued.push(query);
                        SubmitOutcome::Queued
                    },
                }
            },
        }
    }

    /// Send the oldest queued request, if the exchange is running and an
    /// identifier is free.  Returns the identifier and payload to write,
    /// or `None` when there is nothing to do.
    pub fn pump_queued(&mut self) -> (r: Option<(u16, Vec<u8>)>)
        requires
            old(self).wf(),
        ensures
            final(self).wf(),
            final(self).state == old(self).state,
            final(self).mux.signer == old(self).mux.signer,
            r is None ==> *final(self) == *old(self),
            (old(self).state is Running && old(self).queued@.len() > 0 && old(self).mux.pending@.len() < 0x10000) ==> r is Some,
            r matches Some(v) ==> {
                &&& old(self).state is Running
                &&& old(self).queued@.len() > 0
                &&& final(self).queued@ == old(self).queued@.drop_first()
                &&& !old(self).mux.pending@.contains(v.0)
                &&& final(self).mux.pending@ == old(self).mux.pending@.push(v.0)
                &&& v.1@ == spec_apply_signer(
                    spec_encode(
                        MessageView {
                            id: v.0,
                            response: false,
                            query: old(self).queued@[0]@,
                            answers: Seq::empty(),
                        },
                    ),
                    old(self).mux.tag(),
                )
                &&& spec_embedded_id(v.1@) == Some(v.0)
            },
    {
        match self.state {
            ExchangeState::Running => {
                if self.queued.len() == 0 {
                    return None;
                }
                let r = self.mux.send(&self.queued[0]);
                match r {
                    Some((id, payload)) => {
                        self.queued.remove(0);
                        assert(self.queued@ =~= old(self).queued@.drop_first());
                        Some((id, payload))
                    },
                    None => None,
                }
            },
            _ => None,
        }
    }

    /// Feed one inbound transport payload through the multiplexer.
    ///
    /// Never changes the exchange's state: malformed, unmatched and
    /// badly signed payloads are absorbed, and a resolution removes
    /// exactly the one request it answers.  Outside `Running`, inbound
    /// traffic is discarded unmatched.
    pub fn on_inbound(&mut self, b: &Vec<u8>) -> (r: DispatchOutcome)
        requires
            old(self).wf(),
        ensures
            final(self).wf(),
            final(self).state == old(self).state,
            final(self).queued == old(self).queued,
            final(self).mux.signer == old(self).mux.signer,
            !(old(self).state is Running) ==> *final(self) == *old(self) && r is DroppedUnmatched,
            old(self).state is Running ==> {
                &&& final(self).mux.pending@ == spec_dispatch_pending(
                    old(self).mux.pending@,
                    old(self).mux.tag(),
                    b@,
                )
                &&& match spec_dispatch_resolves(old(self).mux.pending@, old(self).mux.tag(), b@) {
                    Some(p) => r matches DispatchOutcome::Resolved { id, message } && id == p.0
                        && message@ == p.1,
                    None => !(r is Resolved) && *final(self) == *old(self),
                }
                &&& (r matches DispatchOutcome::Resolved { id, message } ==> {
                    &&& old(self).mux.pending@.contains(id)
                    &&& !final(self).mux.pending@.contains(id)
                    &&& message@.id == id
                    &&& forall|x: u16|
                        x != id ==> final(self).mux.pending@.contains(x) == old(self).mux.pending@.contains(x)
                })
                &&& (spec_embedded_id(b@) is None ==> r is DroppedMalformed)
                &&& ((spec_embedded_id(b@) matches Some(id) && !old(self).mux.pending@.contains(
                    id,
                )) ==> r is DroppedUnmatched)
                &&& ((spec_embedded_id(b@) matches Some(id) && old(self).mux.pending@.contains(id)
                    && spec_strip_signer(b@, old(self).mux.tag()) is None) ==> r
                    is DroppedBadSignature)
                &&& ((spec_embedded_id(b@) matches Some(id) && old(self).mux.pending@.contains(
                    id,
                ) && (spec_strip_signer(b@, old(self).mux.tag()) matches Some(body)
                    && spec_decode(body) is None)) ==> r is DroppedMalformed)
            },
    {
        match self.state {
            ExchangeState::Running => self.mux.dispatch(b),
            _ => DispatchOutcome::DroppedUnmatched,
        }
    }

    /// A terminal transport I/O failure: the exchange closes, every
    /// pending request fails with `ConnectionLost`, the queue is
    /// discarded, and the outstanding-request table is left empty.
    /// Returns the error classification and exactly the identifiers that
    /// were pending, in table order.
    pub fn on_io_error(&mut self) -> (r: (ClientError, Vec<u16>))
        requires
            old(self).wf(),
        ensures
            final(self).wf(),
            final(self).state is Closed,
            r.0 == ClientError::ConnectionLost,
            r.1@ == old(self).mux.pending@,
            final(self).mux.pending@ == Seq::<u16>::empty(),
            final(self).queued@ == Seq::<DnsQuery>::empty(),
            final(self).mux.signer == old(self).mux.signer,
    {
        let failed = self.mux.fail_all();
        self.queued = Vec::new();
        self.state = ExchangeState::Closed;
        (ClientError::ConnectionLost, failed)
    }

    /// Cancel a pending request: its identifier leaves the table and is
    /// free for reuse; a response arriving later is dropped unmatched.
    pub fn cancel(&mut self, id: u16) -> (r: bool)
        requires
            old(self).wf(),
        ensures
            final(self).wf(),
            final(self).state == old(self).state,
            final(self).queued == old(self).queued,
            final(self).mux.signer == old(self).mux.signer,
            r == old(self).mux.pending@.contains(id),
            final(self).mux.pending@ == old(self).mux.pending@.remove_value(id),
            !final(self).mux.pending@.contains(id),
            forall|x: u16|
                x != id ==> final(self).mux.pending@.contains(x) == old(self).mux.pending@.contains(x),
    {
        proof {
            crate::mux::lemma_remove_value_distinct(self.mux.pending@, id);
        }
        self.mux.cancel(id)
    }

    /// A quiescent stop: when every handle is gone and nothing is pending
    /// or queued, the exchange closes cleanly.  Returns whether it did.
    pub fn shutdown_if_quiescent(&mut self) -> (r: bool)
        requires
            old(self).wf(),
        ensures
            final(self).wf(),
            r == (old(self).mux.pending@.len() == 0 && old(self).queued@.len() == 0),
            r ==> final(self).state is Closed && final(self).mux == old(self).mux && final(self).queued == old(self).queued,
            !r ==> *final(self) == *old(self),
    {
        if self.mux.pending_count() == 0 && self.queued.len() == 0 {
            self.state = ExchangeState::Closed;
            true
        } else {
            false
        }
    }
}

} // verus!
