use vstd::prelude::*;
use crate::connector::TcpError;

verus! {

/// The connection lifecycle of a single-connection service. Exactly one state
/// holds the live connection `S`: `Connected` while idle, or nobody while a
/// send is in flight, when the write task owns it and `Sending` holds the
/// receiving end `R` of the single-use handoff. `Connecting` holds the pending
/// connect `F`.
pub enum TcpServiceState<F, S, R> {
    Disconnected,
    Connecting(F),
    Connected(S),
    Sending(R),
}

/// What the runtime observed while it polled the state's pending work.
pub enum ServiceEvent<F, S> {
    /// A readiness poll found the service disconnected and started `F`.
    ConnectStarted(F),
    /// The pending connect completed with a connection.
    ConnectFinished(S),
    /// The write task handed back the connection, or `None` when the write
    /// failed and the connection must not be reused.
    HandoffReceived(Option<S>),
    /// The handoff channel closed without a message.
    HandoffClosed,
}

/// The tag of a state, without what it holds.
pub enum Phase {
    Disconnected,
    Connecting,
    Connected,
    Sending,
}

/// The tag of an event, with whether a handoff returned the connection.
pub enum EventKind {
    ConnectStarted,
    ConnectFinished,
    HandoffReceived(bool),
    HandoffClosed,
}

/// What a readiness poll has to do next.
pub enum Readiness {
    /// Start a connect and feed `ConnectStarted`.
    StartConnect,
    /// Poll the pending connect.
    AwaitConnect,
    /// The service is ready for one call.
    Ready,
    /// Poll the handoff of the in-flight send.
    AwaitHandoff,
}

pub open spec fn phase_of<F, S, R>(s: TcpServiceState<F, S, R>) -> Phase {
    match s {
        TcpServiceState::Disconnected => Phase::Disconnected,
        TcpServiceState::Connecting(_) => Phase::Connecting,
        TcpServiceState::Connected(_) => Phase::Connected,
        TcpServiceState::Sending(_) => Phase::Sending,
    }
}

pub open spec fn kind_of<F, S>(e: ServiceEvent<F, S>) -> EventKind {
    match e {
        ServiceEvent::ConnectStarted(_) => EventKind::ConnectStarted,
        ServiceEvent::ConnectFinished(_) => EventKind::ConnectFinished,
        ServiceEvent::HandoffReceived(o) => EventKind::HandoffReceived(o is Some),
        ServiceEvent::HandoffClosed => EventKind::HandoffClosed,
    }
}

/// The transition on tags: the next phase, or `None` where the event ends the
/// service with an error.
pub open spec fn next_phase(p: Phase, e: EventKind) -> Option<Phase> {
    match (p, e) {
        (Phase::Disconnected, EventKind::ConnectStarted) => Some(Phase::Connecting),
        (Phase::Connecting, EventKind::ConnectFinished) => Some(Phase::Connected),
        (Phase::Sending, EventKind::HandoffReceived(true)) => Some(Phase::Connected),
        (Phase::Sending, EventKind::HandoffReceived(false)) => Some(Phase::Disconnected),
        _ => None,
    }
}

/// The phases visited from `p` through the events `es`, `p` first; it stops
/// early where an event ends the service.
pub open spec fn trace(p: Phase, es: Seq<EventKind>) -> Seq<Phase>
    decreases es.len(),
{
    if es.len() == 0 {
        seq![p]
    } else {
        match next_phase(p, es[0]) {
            Some(q) => seq![p] + trace(q, es.drop_first()),
            None => seq![p],
        }
    }
}

/// After a failed send, whatever events follow, the service reaches
/// `Connected` again only through `Disconnected`, then `Connecting`, then a
/// connect that finished with a fresh connection: it never stays `Sending`
/// nor reuses the connection of the failed send.
pub proof fn lemma_failed_send_reconnects(es: Seq<EventKind>, i: int)
    requires
        es.len() >= 1,
        es[0] == EventKind::HandoffReceived(false),
        1 <= i < trace(Phase::Sending, es).len(),
        trace(Phase::Sending, es)[i] == Phase::Connected,
    ensures
        i >= 3,
        trace(Phase::Sending, es)[1] == Phase::Disconnected,
        trace(Phase::Sending, es)[2] == Phase::Connecting,
        trace(Phase::Sending, es)[3] == Phase::Connected,
        es[1] == EventKind::ConnectStarted,
        es[2] == EventKind::ConnectFinished,
{
    let e1 = es.drop_first();
    let t = trace(Phase::Sending, es);
    let t1 = trace(Phase::Disconnected, e1);
    assert(t == seq![Phase::Sending] + t1);
    assert(t[i] == t1[i - 1]);
    assert(t1[0] == Phase::Disconnected);
    assert(t1.len() > 1);
    assert(e1.len() > 0);
    assert(next_phase(Phase::Disconnected, e1[0]) is Some);
    assert(e1[0] == EventKind::ConnectStarted);
    let e2 = e1.drop_first();
    let t2 = trace(Phase::Connecting, e2);
    assert(t1 == seq![Phase::Disconnected] + t2);
    assert(t2[0] == Phase::Connecting);
    assert(t2.len() > 1);
    assert(e2.len() > 0);
    assert(next_phase(Phase::Connecting, e2[0]) is Some);
    assert(e2[0] == EventKind::ConnectFinished);
    let t3 = trace(Phase::Connected, e2.drop_first());
    assert(t2 == seq![Phase::Connecting] + t3);
    assert(t3[0] == Phase::Connected);
}

impl<F, S, R> TcpServiceState<F, S, R> {
    /// A new service starts disconnected.
    pub fn new() -> (r: Self)
        ensures
            r is Disconnected,
    {
        TcpServiceState::Disconnected
    }

    /// What a readiness poll has to do in this state.
    pub fn readiness(&self) -> (r: Readiness)
        ensures
            r == match phase_of(*self) {
                Phase::Disconnected => Readiness::StartConnect,
                Phase::Connecting => Readiness::AwaitConnect,
                Phase::Connected => Readiness::Ready,
                Phase::Sending => Readiness::AwaitHandoff,
            },
    {
        match self {
            TcpServiceState::Disconnected => Readiness::StartConnect,
            TcpServiceState::Connecting(_) => Readiness::AwaitConnect,
            TcpServiceState::Connected(_) => Readiness::Ready,
            TcpServiceState::Sending(_) => Readiness::AwaitHandoff,
        }
    }

    /// Takes one event observed during a readiness poll. A closed handoff ends
    /// the service with `ServiceStreamChannelClosed`; an event that the state
    /// cannot take ends it with `ProtocolViolation`.
    pub fn advance(self, event: ServiceEvent<F, S>) -> (r: Result<Self, TcpError>)
        ensures
            match next_phase(phase_of(self), kind_of(event)) {
                Some(p) => r is Ok && phase_of(r->Ok_0) == p,
                None => if self is Sending && event is HandoffClosed {
                    r == Err::<Self, TcpError>(TcpError::ServiceStreamChannelClosed)
                } else {
                    r == Err::<Self, TcpError>(TcpError::ProtocolViolation)
                },
            },
            match (self, event) {
                (TcpServiceState::Disconnected, ServiceEvent::ConnectStarted(f)) => r == Ok::<
                    Self,
                    TcpError,
                >(TcpServiceState::Connecting(f)),
                (TcpServiceState::Connecting(_), ServiceEvent::ConnectFinished(s)) => r == Ok::<
                    Self,
                    TcpError,
                >(TcpServiceState::Connected(s)),
                (TcpServiceState::Sending(_), ServiceEvent::HandoffReceived(Some(s))) => r == Ok::<
                    Self,
                    TcpError,
                >(TcpServiceState::Connected(s)),
                _ => true,
            },
    {
        match (self, event) {
            (TcpServiceState::Disconnected, ServiceEvent::ConnectStarted(f)) => Ok(
                TcpServiceState::Connecting(f),
            ),
            (TcpServiceState::Connecting(_), ServiceEvent::ConnectFinished(s)) => Ok(
                TcpServiceState::Connected(s),
            ),
            (TcpServiceState::Sending(_), ServiceEvent::HandoffReceived(o)) => match o {
                Some(s) => Ok(TcpServiceState::Connected(s)),
                None => Ok(TcpServiceState::Disconnected),
            },
            (TcpServiceState::Sending(_), ServiceEvent::HandoffClosed) => Err(
                TcpError::ServiceStreamChannelClosed,
            ),
            _ => Err(TcpError::ProtocolViolation),
        }
    }

    /// Starts a call: the connection moves out to the caller's write task and
    /// the state keeps the handoff receiver. Outside `Connected` the call is a
    /// caller bug and fails with `ProtocolViolation`, the state unchanged.
    pub fn begin_call(self, handoff: R) -> (r: Result<(Self, S), (Self, TcpError)>)
        ensures
            match self {
                TcpServiceState::Connected(s) => r == Ok::<(Self, S), (Self, TcpError)>(
                    (TcpServiceState::Sending(handoff), s),
                ),
                _ => r == Err::<(Self, S), (Self, TcpError)>((self, TcpError::ProtocolViolation)),
            },
    {
        match self {
            TcpServiceState::Connected(s) => Ok((TcpServiceState::Sending(handoff), s)),
            other => Err((other, TcpError::ProtocolViolation)),
        }
    }
}

/// What the write task hands back over the handoff, and the call's result,
/// given the outcome of writing `len` bytes: the connection and `len` on
/// success; no connection and `FailedToSend` on failure.
pub fn finish_send<S>(stream: S, written: Result<(), String>, len: usize) -> (r: (
    Option<S>,
    Result<usize, TcpError>,
))
    ensures
        match written {
            Ok(_) => r == (Some(stream), Ok::<usize, TcpError>(len)),
            Err(e) => r == (None::<S>, Err::<usize, TcpError>(TcpError::FailedToSend { reason: e })),
        },
{
    match written {
        Ok(_) => (Some(stream), Ok(len)),
        Err(e) => (None, Err(TcpError::FailedToSend { reason: e })),
    }
}

} // verus!
