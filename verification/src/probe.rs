//! The round-trip probe endpoint: a two-state ping-pong protocol with
//! strict validation of every received signal.
//!
//! Each endpoint owns a uniquely named channel and answers every signal on
//! it with a signal on its peer's channel.  A signal that arrives on the
//! wrong channel, or that carries a payload, is a protocol violation: the
//! endpoint fails permanently and never emits another sample.  Each accepted
//! signal yields exactly one [`ProbeSample`] — the time elapsed since this
//! endpoint's previous send, measured by the shell and handed in here.
//!
//! The two states make the "at most one signal in flight" discipline
//! explicit: an endpoint waits in `AwaitingEcho`, moves to `JustReceived`
//! when it accepts a signal, and returns to `AwaitingEcho` once its reply
//! has been sent.

use vstd::prelude::*;

use crate::errors::BenchError;
use crate::names::channel_name;
use crate::names::spec_channel_name;

verus! {

/// The protocol position of one endpoint.
#[derive(Clone, Copy, Debug, PartialEq, Eq, Structural)]
pub enum ProbeState {
    /// The reply has been sent; the next event is a signal from the peer.
    AwaitingEcho,
    /// A signal was accepted; the reply has not been sent yet.
    JustReceived,
}

/// One round-trip measurement, produced once per accepted signal.
#[derive(Clone, Copy, Debug, PartialEq, Eq, Structural)]
pub struct ProbeSample {
    /// The endpoint whose arrival produced this sample.
    pub endpoint_id: u64,
    /// Time since that endpoint's previous send, in microseconds.
    pub round_trip_micros: u32,
}

/// One endpoint of the probe pair.
pub struct ProbeEndpoint {
    /// This endpoint's number; its channel is named after it.
    pub endpoint_id: u64,
    /// The channel this endpoint is subscribed to.
    pub own_channel: String,
    /// The peer's channel, where every reply goes.
    pub peer_channel: String,
    pub state: ProbeState,
    /// Set forever once a protocol violation was seen.
    pub failed: bool,
    /// Whether this endpoint's arrivals count toward the shared round-trip
    /// counter.  Exactly one endpoint of the pair counts, so a round trip
    /// is never counted twice.
    pub counts_round_trips: bool,
}

/// `channel` and `payload` are what this endpoint expects: its own channel
/// name, and nothing.
pub open spec fn signal_valid(e: ProbeEndpoint, channel: Seq<char>, payload: Seq<char>) -> bool {
    channel == e.own_channel@ && payload.len() == 0
}

impl ProbeEndpoint {
    /// A fresh endpoint, awaiting the first signal.  It subscribes to the
    /// channel named after its own number and replies to the channel named
    /// after its peer's.
    pub fn new(endpoint_id: u64, peer_id: u64, counts_round_trips: bool) -> (r: ProbeEndpoint)
        ensures
            r.endpoint_id == endpoint_id,
            r.own_channel@ == spec_channel_name(endpoint_id as nat),
            r.peer_channel@ == spec_channel_name(peer_id as nat),
            r.state is AwaitingEcho,
            !r.failed,
            r.counts_round_trips == counts_round_trips,
    {
        ProbeEndpoint {
            endpoint_id,
            own_channel: channel_name(endpoint_id),
            peer_channel: channel_name(peer_id),
            state: ProbeState::AwaitingEcho,
            failed: false,
            counts_round_trips,
        }
    }

    /// Handles one received signal.  A valid signal — on this endpoint's
    /// own channel, with an empty payload — yields one sample and moves the
    /// endpoint to `JustReceived`; anything else is a protocol violation
    /// that fails the endpoint permanently.  A failed endpoint never emits
    /// another sample.
    pub fn on_signal(&mut self, channel: &String, payload: &String, elapsed_micros: u32) -> (r:
        Result<ProbeSample, BenchError>)
        ensures
            final(self).endpoint_id == old(self).endpoint_id,
            final(self).own_channel@ == old(self).own_channel@,
            final(self).peer_channel@ == old(self).peer_channel@,
            final(self).counts_round_trips == old(self).counts_round_trips,
            old(self).failed ==> {
                &&& r == Result::<ProbeSample, BenchError>::Err(BenchError::ProtocolViolation)
                &&& final(self).failed
                &&& final(self).state == old(self).state
            },
            !old(self).failed && signal_valid(*old(self), channel@, payload@) ==> {
                &&& r == Result::<ProbeSample, BenchError>::Ok(ProbeSample {
                    endpoint_id: old(self).endpoint_id,
                    round_trip_micros: elapsed_micros,
                })
                &&& !final(self).failed
                &&& final(self).state is JustReceived
            },
            !old(self).failed && !signal_valid(*old(self), channel@, payload@) ==> {
                &&& r == Result::<ProbeSample, BenchError>::Err(BenchError::ProtocolViolation)
                &&& final(self).failed
            },
            r is Ok <==> !old(self).failed && signal_valid(*old(self), channel@, payload@),
    {
        if self.failed {
            return Err(BenchError::ProtocolViolation);
        }
        if !(*channel == self.own_channel) || !payload.as_str().is_empty() {
            self.failed = true;
            return Err(BenchError::ProtocolViolation);
        }
        self.state = ProbeState::JustReceived;
        Ok(ProbeSample { endpoint_id: self.endpoint_id, round_trip_micros: elapsed_micros })
    }

    /// The channel the reply to the last accepted signal must be sent on.
    pub fn reply_target(&self) -> (r: &String)
        ensures
            r@ == self.peer_channel@,
    {
        &self.peer_channel
    }

    /// The shell has sent the reply: the endpoint waits for the next echo.
    pub fn reply_sent(&mut self)
        requires
            old(self).state is JustReceived,
            !old(self).failed,
        ensures
            *final(self) == (ProbeEndpoint { state: ProbeState::AwaitingEcho, ..*old(self) }),
    {
        self.state = ProbeState::AwaitingEcho;
    }
}

} // verus!
