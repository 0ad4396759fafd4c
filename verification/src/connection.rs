//! The connection liveness layer: heartbeat negotiation and the decision
//! core of one connection's event loop.
//!
//! The transport loop around this module races three waits: the next inbound
//! message, the "peer went silent" timer, and the "send our heartbeat"
//! timer. Whichever resolves first becomes a [`ConnEvent`], and
//! [`ConnState::on_event`] decides the next state and the action the loop
//! must carry out. A timer event is only ever produced for a timer that
//! exists, that is, for a negotiated interval that is not zero.

use vstd::prelude::*;
use vstd::string::StrSliceExecFns;

use crate::parser::parse_frame;
use crate::parser::spec_parse;
use crate::stomp::FrameModel;
use crate::stomp::StompError;
use crate::stomp::StompFrame;
use crate::stomp::spec_error_frame;

verus! {

/// The heartbeat bookkeeping of one connection: whether traffic was seen
/// since the last check, and the two negotiated intervals, where zero means
/// the corresponding timer is absent.
#[derive(Clone, Copy, Debug, PartialEq, Eq, Structural)]
pub struct ConnState {
    /// True when a heartbeat, or any traffic substituting for one, arrived
    /// since the last check of the receive timer.
    pub heartbeat_received: bool,
    /// Milliseconds within which the peer must show traffic; zero when the
    /// peer declared no heartbeat.
    pub client_interval_ms: u64,
    /// Milliseconds between our own outgoing heartbeats; zero when we
    /// declared no heartbeat for this connection.
    pub server_interval_ms: u64,
}

/// One resolved wait of the connection loop.
pub enum ConnEvent {
    /// The transport delivered a text message.
    Inbound(String),
    /// The "peer went silent" timer fired.
    ClientTimerFired,
    /// The "send our heartbeat" timer fired.
    ServerTimerFired,
}

/// What the transport loop must do after a step.
pub enum ConnAction {
    /// Hand this successfully parsed frame to the broker layer.
    Deliver(StompFrame),
    /// Send this ERROR frame to the peer, then close the session: a
    /// malformed frame is fatal to the session once the peer is told.
    ReplyErrorAndClose(StompFrame, StompError),
    /// Send a heartbeat-only message to the peer.
    SendHeartbeat,
    /// The peer went silent past its declared interval: close the
    /// connection with a timeout error.
    CloseHeartbeatTimeout,
    /// Nothing beyond the state update.
    Continue,
}

/// The mathematical content of a [`ConnAction`], with frames as models.
pub ghost enum ActionModel {
    Deliver(FrameModel),
    ReplyErrorAndClose(FrameModel, StompError),
    SendHeartbeat,
    CloseHeartbeatTimeout,
    Continue,
}

impl View for ConnAction {
    type V = ActionModel;

    open spec fn view(&self) -> ActionModel {
        match self {
            ConnAction::Deliver(f) => ActionModel::Deliver(f@),
            ConnAction::ReplyErrorAndClose(f, e) => ActionModel::ReplyErrorAndClose(f@, *e),
            ConnAction::SendHeartbeat => ActionModel::SendHeartbeat,
            ConnAction::CloseHeartbeatTimeout => ActionModel::CloseHeartbeatTimeout,
            ConnAction::Continue => ActionModel::Continue,
        }
    }
}

/// A heartbeat-only message: empty, or nothing but line feeds.
pub open spec fn spec_is_heartbeat(m: Seq<char>) -> bool {
    forall|i: int| 0 <= i < m.len() ==> m[i] == '\n'
}

/// The effective heartbeat interval from one side's requested send interval
/// and the other side's willingness to receive: absent when either side
/// declared none, otherwise the larger of the two.
pub open spec fn spec_negotiated(requested_ms: u64, willing_ms: u64) -> u64 {
    if requested_ms == 0 || willing_ms == 0 {
        0
    } else if requested_ms >= willing_ms {
        requested_ms
    } else {
        willing_ms
    }
}

/// Negotiate one direction's heartbeat interval, zero meaning absent.
pub fn negotiate_interval(requested_ms: u64, willing_ms: u64) -> (r: u64)
    ensures
        r == spec_negotiated(requested_ms, willing_ms),
{
    if requested_ms == 0 || willing_ms == 0 {
        0
    } else if requested_ms >= willing_ms {
        requested_ms
    } else {
        willing_ms
    }
}

/// Is this message heartbeat-only?
pub fn is_heartbeat_message(m: &str) -> (r: bool)
    ensures
        r == spec_is_heartbeat(m@),
{
    let n = m.unicode_len();
    let mut i: usize = 0;
    while i < n
        invariant
            i <= n,
            n == m@.len(),
            forall|j: int| 0 <= j < i ==> m@[j] == '\n',
        decreases n - i,
    {
        if m.get_char(i) != '\n' {
            return false;
        }
        i = i + 1;
    }
    true
}

/// The state after one event: any inbound traffic marks the peer alive, a
/// receive-timer check consumes the mark, and the send timer changes
/// nothing. The negotiated intervals never change.
pub open spec fn spec_next(s: ConnState, e: ConnEvent) -> ConnState {
    match e {
        ConnEvent::Inbound(_) => ConnState { heartbeat_received: true, ..s },
        ConnEvent::ClientTimerFired => ConnState { heartbeat_received: false, ..s },
        ConnEvent::ServerTimerFired => s,
    }
}

/// The action one event demands: an inbound heartbeat needs nothing more, an
/// inbound frame is delivered or answered with its error frame before the
/// session closes, a receive-timer check closes a silent connection, and the
/// send timer asks for an outgoing heartbeat.
pub open spec fn spec_action(s: ConnState, e: ConnEvent) -> ActionModel {
    match e {
        ConnEvent::Inbound(m) => if spec_is_heartbeat(m@) {
            ActionModel::Continue
        } else {
            match spec_parse(m@) {
                Ok(f) => ActionModel::Deliver(f),
                Err(err) => ActionModel::ReplyErrorAndClose(spec_error_frame(err), err),
            }
        },
        ConnEvent::ClientTimerFired => if s.heartbeat_received {
            ActionModel::Continue
        } else {
            ActionModel::CloseHeartbeatTimeout
        },
        ConnEvent::ServerTimerFired => ActionModel::SendHeartbeat,
    }
}

impl ConnState {
    /// Fresh bookkeeping for a connection whose handshake negotiated the two
    /// given intervals: no traffic seen yet.
    pub fn new(client_interval_ms: u64, server_interval_ms: u64) -> (r: ConnState)
        ensures
            !r.heartbeat_received,
            r.client_interval_ms == client_interval_ms,
            r.server_interval_ms == server_interval_ms,
    {
        ConnState { heartbeat_received: false, client_interval_ms, server_interval_ms }
    }

    /// Whether a "peer went silent" timer exists for this connection.
    pub fn has_client_timer(&self) -> (r: bool)
        ensures
            r == (self.client_interval_ms != 0),
    {
        self.client_interval_ms != 0
    }

    /// Whether a "send our heartbeat" timer exists for this connection.
    pub fn has_server_timer(&self) -> (r: bool)
        ensures
            r == (self.server_interval_ms != 0),
    {
        self.server_interval_ms != 0
    }

    /// One step of the connection: update the heartbeat bookkeeping and say
    /// what the transport loop must do. A timer event may only be fed in
    /// when the corresponding timer exists.
    pub fn on_event(&mut self, event: ConnEvent) -> (a: ConnAction)
        requires
            event is ClientTimerFired ==> old(self).client_interval_ms != 0,
            event is ServerTimerFired ==> old(self).server_interval_ms != 0,
        ensures
            *final(self) == spec_next(*old(self), event),
            a@ == spec_action(*old(self), event),
    {
        match &event {
            ConnEvent::Inbound(m) => {
                self.heartbeat_received = true;
                if is_heartbeat_message(m.as_str()) {
                    ConnAction::Continue
                } else {
                    match parse_frame(m.as_str()) {
                        Ok(f) => ConnAction::Deliver(f),
                        Err(e) => ConnAction::ReplyErrorAndClose(StompFrame::error_frame(e), e),
                    }
                }
            },
            ConnEvent::ClientTimerFired => {
                if self.heartbeat_received {
                    self.heartbeat_received = false;
                    ConnAction::Continue
                } else {
                    ConnAction::CloseHeartbeatTimeout
                }
            },
            ConnEvent::ServerTimerFired => {
                ConnAction::SendHeartbeat
            },
        }
    }
}

/// The state after a whole sequence of events, first event first.
pub open spec fn spec_run(s: ConnState, events: Seq<ConnEvent>) -> ConnState
    decreases events.len(),
{
    if events.len() == 0 {
        s
    } else {
        spec_run(spec_next(s, events[0]), events.drop_first())
    }
}

/// An event sequence the transport loop can actually produce for `s`: timer
/// events only for timers that exist.
pub open spec fn spec_timers_admissible(s: ConnState, events: Seq<ConnEvent>) -> bool {
    forall|i: int|
        0 <= i < events.len() ==> (((#[trigger] events[i]) is ClientTimerFired
            ==> s.client_interval_ms != 0) && (events[i] is ServerTimerFired
            ==> s.server_interval_ms != 0))
}

/// No step ever changes the negotiated intervals.
pub proof fn lemma_run_preserves_intervals(s: ConnState, events: Seq<ConnEvent>)
    ensures
        spec_run(s, events).client_interval_ms == s.client_interval_ms,
        spec_run(s, events).server_interval_ms == s.server_interval_ms,
    decreases events.len(),
{
    if events.len() > 0 {
        lemma_run_preserves_intervals(spec_next(s, events[0]), events.drop_first());
    }
}

/// A connection with both heartbeat intervals zero has no timers, so the
/// loop never produces a timer event for it, and no step of any admissible
/// run can close it with a heartbeat timeout, however long the silence.
pub proof fn lemma_zero_intervals_never_time_out(
    s: ConnState,
    events: Seq<ConnEvent>,
    i: int,
)
    requires
        s.client_interval_ms == 0,
        s.server_interval_ms == 0,
        spec_timers_admissible(s, events),
        0 <= i < events.len(),
    ensures
        spec_action(spec_run(s, events.take(i)), events[i]) != ActionModel::CloseHeartbeatTimeout,
{
    match events[i] {
        ConnEvent::Inbound(m) => {
            if !spec_is_heartbeat(m@) {
                match spec_parse(m@) {
                    Ok(f) => {},
                    Err(e) => {},
                }
            }
        },
        ConnEvent::ClientTimerFired => {
            assert(false);
        },
        ConnEvent::ServerTimerFired => {},
    }
}

/// Silence keeps the "heartbeat received" mark down: a run without any
/// inbound message never raises it.
pub proof fn lemma_silent_run_stays_unmarked(s: ConnState, events: Seq<ConnEvent>)
    requires
        !s.heartbeat_received,
        forall|i: int| 0 <= i < events.len() ==> !((#[trigger] events[i]) is Inbound),
    ensures
        !spec_run(s, events).heartbeat_received,
    decreases events.len(),
{
    if events.len() > 0 {
        assert(!(events[0] is Inbound));
        assert forall|i: int|
            0 <= i < events.drop_first().len() implies !((#[trigger] events.drop_first()[i])
            is Inbound) by {
            assert(!(events[i + 1] is Inbound));
        }
        lemma_silent_run_stays_unmarked(spec_next(s, events[0]), events.drop_first());
    }
}

/// A connection with a finite receive interval that observes no traffic
/// until its timer checks is closed with a heartbeat timeout.
pub proof fn lemma_silence_times_out(s: ConnState)
    requires
        !s.heartbeat_received,
        s.client_interval_ms != 0,
    ensures
        spec_action(s, ConnEvent::ClientTimerFired) == ActionModel::CloseHeartbeatTimeout,
{
}

/// Any inbound message, heartbeat-only or a real frame, marks the peer
/// alive, so a receive-timer check right after it never times out.
pub proof fn lemma_inbound_prevents_timeout(s: ConnState, m: String)
    ensures
        spec_next(s, ConnEvent::Inbound(m)).heartbeat_received,
        spec_action(spec_next(s, ConnEvent::Inbound(m)), ConnEvent::ClientTimerFired)
            == ActionModel::Continue,
{
}

} // verus!
