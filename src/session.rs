//! One client's context: its transport and the market model that the
//! transport's frames feed, passed around together instead of living in
//! globals.

use vstd::prelude::*;
use crate::protocol::WireMessage;
use crate::store::{applies, ApplyOutcome, MarketModel};
use crate::transport::{next, ConnectionState, Transport, TransportAction, TransportConfig, TransportEvent};

verus! {

/// What became of one inbound frame.
#[derive(Clone, Copy, Debug, PartialEq, Eq, Structural)]
pub enum FrameOutcome {
    /// The frame arrived outside a live connection and was discarded.
    NotConnected,
    /// The frame did not decode; it was discarded and the connection kept.
    Malformed,
    /// The decoded message went to the model with this outcome.
    Model(ApplyOutcome),
}

/// A client's transport together with the model it feeds.
#[derive(Clone, Debug)]
pub struct ClientSession {
    pub transport: Transport,
    pub model: MarketModel,
    /// Frames discarded because they did not decode (saturating).
    pub malformed: u64,
}

impl ClientSession {
    /// Both halves are well formed.
    pub open spec fn wf(&self) -> bool {
        self.transport.wf() && self.model.wf()
    }

    /// A session that has not connected yet, with an empty model for `symbol`.
    pub fn new(config: TransportConfig, symbol: String, trade_capacity: usize) -> (r: ClientSession)
        requires
            config.backoff.wf(),
        ensures
            r.wf(),
            r.transport == Transport::new_spec(config),
            r.model.symbol@ == symbol@,
            r.model.book is None,
            r.model.ticker is None,
            r.model.trades.trades@.len() == 0,
            r.model.trades.capacity == trade_capacity,
            r.malformed == 0,
    {
        ClientSession {
            transport: Transport::new(config),
            model: MarketModel::new(symbol, trade_capacity),
            malformed: 0,
        }
    }

    /// Feeds a socket, timer or caller event to the transport; the model is
    /// left alone.
    pub fn on_event(&mut self, e: TransportEvent) -> (r: TransportAction)
        requires
            old(self).wf(),
        ensures
            final(self).wf(),
            (final(self).transport, r) == next(old(self).transport, e),
            final(self).model == old(self).model,
            final(self).malformed == old(self).malformed,
    {
        self.transport.step(e)
    }

    /// Takes one inbound frame at `now`: `Some` with the decoded message, or
    /// `None` when the frame did not decode.
    ///
    /// While connected, every frame counts as liveness; a message goes to the
    /// model and a malformed frame is counted and dropped. The connection
    /// state never changes here: a bad frame does not cause a reconnect.
    pub fn on_frame(&mut self, frame: Option<WireMessage>, now: u64) -> (r: FrameOutcome)
        requires
            old(self).wf(),
        ensures
            final(self).wf(),
            final(self).transport.state == old(self).transport.state,
            old(self).transport.state != ConnectionState::Connected || old(self).transport.shut_down ==> {
                &&& r == FrameOutcome::NotConnected
                &&& *final(self) == *old(self)
            },
            old(self).transport.state == ConnectionState::Connected && !old(self).transport.shut_down ==> {
                &&& final(self).transport == next(old(self).transport, TransportEvent::FrameReceived { now }).0
                &&& match frame {
                    None => {
                        &&& r == FrameOutcome::Malformed
                        &&& final(self).model == old(self).model
                        &&& final(self).malformed == if old(self).malformed < u64::MAX {
                            (old(self).malformed + 1) as u64
                        } else {
                            old(self).malformed
                        }
                    },
                    Some(msg) => exists|o: ApplyOutcome| {
                        &&& r == FrameOutcome::Model(o)
                        &&& #[trigger] applies(old(self).model, msg, now, final(self).model, o)
                        &&& final(self).malformed == old(self).malformed
                    },
                }
            },
    {
        if self.transport.shut_down || self.transport.state != ConnectionState::Connected {
            return FrameOutcome::NotConnected;
        }
        self.transport.step(TransportEvent::FrameReceived { now });
        match frame {
            None => {
                if self.malformed < u64::MAX {
                    self.malformed = self.malformed + 1;
                }
                FrameOutcome::Malformed
            },
            Some(msg) => {
                let o = self.model.apply(msg, now);
                FrameOutcome::Model(o)
            },
        }
    }
}

} // verus!
