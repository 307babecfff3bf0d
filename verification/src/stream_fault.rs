//! Fault state of a TCP stream wrapper: per-direction latency and clogging, and
//! disconnection.
//!
//! A clogged direction makes every poll in that direction wait, with the poller's waker
//! kept so that unclogging can wake it. A latency of `L` spaces successive completions in
//! a direction at least `L` apart in mock time. A disconnected stream fails every poll.
use crate::clock::MAX_DURATION_NANOS;
use crate::poll::{IoErrorKind, Poll};
use vstd::prelude::*;

verus! {

/// One direction (sends or receives) of a faulty stream.
#[derive(Debug)]
pub struct DirectionState<W> {
    latency: u128,
    deadline: u128,
    clogged: bool,
    waker: Option<W>,
}

impl<W> DirectionState<W> {
    pub closed spec fn latency(&self) -> u128 {
        self.latency
    }

    /// The instant before which the next operation in this direction cannot complete.
    pub closed spec fn deadline(&self) -> u128 {
        self.deadline
    }

    pub closed spec fn clogged(&self) -> bool {
        self.clogged
    }

    /// The waker of the last poll that found this direction clogged.
    pub closed spec fn waker(&self) -> Option<W> {
        self.waker
    }

    pub closed spec fn wf(&self) -> bool {
        &&& self.latency <= MAX_DURATION_NANOS
        &&& self.deadline <= 2 * MAX_DURATION_NANOS
    }

    fn new(now: u128) -> (d: DirectionState<W>)
        requires
            now <= MAX_DURATION_NANOS,
        ensures
            d.wf(),
            d.latency() == 0,
            d.deadline() == now,
            !d.clogged(),
            d.waker() is None,
    {
        DirectionState { latency: 0, deadline: now, clogged: false, waker: None }
    }

    fn set_clogged(&mut self, clogged: bool) -> (waker: Option<W>)
        ensures
            waker == old(self).waker(),
            final(self).waker() is None,
            final(self).clogged() == clogged,
            final(self).latency() == old(self).latency(),
            final(self).deadline() == old(self).deadline(),
            old(self).wf() ==> final(self).wf(),
    {
        self.clogged = clogged;
        self.waker.take()
    }

    /// Polls for permission to perform one operation in this direction at `now`.
    fn poll(&mut self, now: u128, waker: W, disconnected: bool) -> (r: Poll<Result<(), IoErrorKind>>)
        requires
            old(self).wf(),
            now <= MAX_DURATION_NANOS,
        ensures
            final(self).wf(),
            final(self).latency() == old(self).latency(),
            final(self).clogged() == old(self).clogged(),
            disconnected ==> r == Poll::<Result<(), IoErrorKind>>::Ready(Err(IoErrorKind::BrokenPipe))
                && final(self).waker() == old(self).waker() && final(self).deadline() == old(self).deadline(),
            !disconnected && old(self).clogged() ==> r is Pending && final(self).waker() == Some(waker)
                && final(self).deadline() == old(self).deadline(),
            !disconnected && !old(self).clogged() && now < old(self).deadline() ==> r is Pending
                && final(self).waker() == old(self).waker() && final(self).deadline() == old(self).deadline(),
            !disconnected && !old(self).clogged() && old(self).deadline() <= now ==>
                r == Poll::<Result<(), IoErrorKind>>::Ready(Ok(()))
                && final(self).waker() == old(self).waker()
                && final(self).deadline() == old(self).deadline() + old(self).latency(),
    {
        if disconnected {
            return Poll::Ready(Err(IoErrorKind::BrokenPipe));
        }
        if self.clogged {
            self.waker = Some(waker);
            return Poll::Pending;
        }
        let deadline = self.deadline;
        if now < deadline {
            return Poll::Pending;
        }
        self.deadline = deadline + self.latency;
        Poll::Ready(Ok(()))
    }
}

/// The fault state shared by a faulty stream and its handle.
#[derive(Debug)]
pub struct StreamFaultState<W> {
    send: DirectionState<W>,
    receive: DirectionState<W>,
    disconnected: bool,
}

impl<W> StreamFaultState<W> {
    pub closed spec fn send(&self) -> DirectionState<W> {
        self.send
    }

    pub closed spec fn receive(&self) -> DirectionState<W> {
        self.receive
    }

    pub closed spec fn disconnected(&self) -> bool {
        self.disconnected
    }

    pub closed spec fn wf(&self) -> bool {
        self.send.wf() && self.receive.wf()
    }

    /// The state of a freshly wrapped stream at `now`: no latency, no clog, connected, and
    /// both directions free to proceed from `now` on.
    pub fn wrap(now: u128) -> (s: StreamFaultState<W>)
        requires
            now <= MAX_DURATION_NANOS,
        ensures
            s.wf(),
            !s.disconnected(),
            s.send().latency() == 0 && s.receive().latency() == 0,
            s.send().deadline() == now && s.receive().deadline() == now,
            !s.send().clogged() && !s.receive().clogged(),
            s.send().waker() is None && s.receive().waker() is None,
    {
        StreamFaultState { send: DirectionState::new(now), receive: DirectionState::new(now), disconnected: false }
    }

    /// The instant before which the next send cannot complete.
    pub fn send_deadline(&self) -> (d: u128)
        ensures
            d == self.send().deadline(),
    {
        self.send.deadline
    }

    /// The instant before which the next receive cannot complete.
    pub fn receive_deadline(&self) -> (d: u128)
        ensures
            d == self.receive().deadline(),
    {
        self.receive.deadline
    }

    /// Disconnects the stream: every poll fails from now on.
    pub fn disconnect(&mut self)
        requires
            old(self).wf(),
        ensures
            final(self).wf(),
            final(self).disconnected(),
            final(self).send() == old(self).send(),
            final(self).receive() == old(self).receive(),
    {
        self.disconnected = true;
    }

    /// Sets the latency of sends.
    pub fn set_send_latency(&mut self, latency: u128)
        requires
            old(self).wf(),
            latency <= MAX_DURATION_NANOS,
        ensures
            final(self).wf(),
            final(self).send().latency() == latency,
            final(self).send().deadline() == old(self).send().deadline(),
            final(self).send().clogged() == old(self).send().clogged(),
            final(self).send().waker() == old(self).send().waker(),
            final(self).receive() == old(self).receive(),
            final(self).disconnected() == old(self).disconnected(),
    {
        self.send.latency = latency;
    }

    /// Sets the latency of receives.
    pub fn set_receive_latency(&mut self, latency: u128)
        requires
            old(self).wf(),
            latency <= MAX_DURATION_NANOS,
        ensures
            final(self).wf(),
            final(self).receive().latency() == latency,
            final(self).receive().deadline() == old(self).receive().deadline(),
            final(self).receive().clogged() == old(self).receive().clogged(),
            final(self).receive().waker() == old(self).receive().waker(),
            final(self).send() == old(self).send(),
            final(self).disconnected() == old(self).disconnected(),
    {
        self.receive.latency = latency;
    }

    /// Whether sends or receives are clogged.
    pub fn is_fully_clogged(&self) -> (b: bool)
        ensures
            b == (self.send().clogged() || self.receive().clogged()),
    {
        self.send.clogged || self.receive.clogged
    }

    /// Clogs sends; returns the waker of a poll that was parked on a send clog, to be woken.
    pub fn clog_sends(&mut self) -> (w: Option<W>)
        requires
            old(self).wf(),
        ensures
            final(self).wf(),
            w == old(self).send().waker(),
            final(self).send().clogged(),
            final(self).send().waker() is None,
            final(self).send().latency() == old(self).send().latency(),
            final(self).send().deadline() == old(self).send().deadline(),
            final(self).receive() == old(self).receive(),
            final(self).disconnected() == old(self).disconnected(),
    {
        self.send.set_clogged(true)
    }

    /// Clogs receives; returns the waker to wake.
    pub fn clog_receives(&mut self) -> (w: Option<W>)
        requires
            old(self).wf(),
        ensures
            final(self).wf(),
            w == old(self).receive().waker(),
            final(self).receive().clogged(),
            final(self).receive().waker() is None,
            final(self).receive().latency() == old(self).receive().latency(),
            final(self).receive().deadline() == old(self).receive().deadline(),
            final(self).send() == old(self).send(),
            final(self).disconnected() == old(self).disconnected(),
    {
        self.receive.set_clogged(true)
    }

    /// Unclogs sends; returns the waker of a poll parked on the clog, to be woken.
    pub fn unclog_sends(&mut self) -> (w: Option<W>)
        requires
            old(self).wf(),
        ensures
            final(self).wf(),
            w == old(self).send().waker(),
            !final(self).send().clogged(),
            final(self).send().waker() is None,
            final(self).send().latency() == old(self).send().latency(),
            final(self).send().deadline() == old(self).send().deadline(),
            final(self).receive() == old(self).receive(),
            final(self).disconnected() == old(self).disconnected(),
    {
        self.send.set_clogged(false)
    }

    /// Unclogs receives; returns the waker to wake.
    pub fn unclog_receives(&mut self) -> (w: Option<W>)
        requires
            old(self).wf(),
        ensures
            final(self).wf(),
            w == old(self).receive().waker(),
            !final(self).receive().clogged(),
            final(self).receive().waker() is None,
            final(self).receive().latency() == old(self).receive().latency(),
            final(self).receive().deadline() == old(self).receive().deadline(),
            final(self).send() == old(self).send(),
            final(self).disconnected() == old(self).disconnected(),
    {
        self.receive.set_clogged(false)
    }

    /// Polls for permission to send at `now`: a broken pipe once disconnected; `Pending`
    /// while sends are clogged (keeping `waker`) or the send deadline lies after `now`;
    /// otherwise ready, with the next send deadline pushed back by the send latency.
    pub fn poll_send_delay(&mut self, now: u128, waker: W) -> (r: Poll<Result<(), IoErrorKind>>)
        requires
            old(self).wf(),
            now <= MAX_DURATION_NANOS,
        ensures
            final(self).wf(),
            final(self).receive() == old(self).receive(),
            final(self).disconnected() == old(self).disconnected(),
            final(self).send().latency() == old(self).send().latency(),
            final(self).send().clogged() == old(self).send().clogged(),
            old(self).disconnected() ==> r == Poll::<Result<(), IoErrorKind>>::Ready(Err(IoErrorKind::BrokenPipe))
                && final(self).send() == old(self).send(),
            !old(self).disconnected() && old(self).send().clogged() ==> r is Pending
                && final(self).send().waker() == Some(waker)
                && final(self).send().deadline() == old(self).send().deadline(),
            !old(self).disconnected() && !old(self).send().clogged() && now < old(self).send().deadline() ==>
                r is Pending && final(self).send() == old(self).send(),
            !old(self).disconnected() && !old(self).send().clogged() && old(self).send().deadline() <= now ==>
                r == Poll::<Result<(), IoErrorKind>>::Ready(Ok(()))
                && final(self).send().waker() == old(self).send().waker()
                && final(self).send().deadline() == old(self).send().deadline() + old(self).send().latency(),
    {
        let disconnected = self.disconnected;
        self.send.poll(now, waker, disconnected)
    }

    /// Polls for permission to receive at `now`, in the same way as sends.
    pub fn poll_receive_delay(&mut self, now: u128, waker: W) -> (r: Poll<Result<(), IoErrorKind>>)
        requires
            old(self).wf(),
            now <= MAX_DURATION_NANOS,
        ensures
            final(self).wf(),
            final(self).send() == old(self).send(),
            final(self).disconnected() == old(self).disconnected(),
            final(self).receive().latency() == old(self).receive().latency(),
            final(self).receive().clogged() == old(self).receive().clogged(),
            old(self).disconnected() ==> r == Poll::<Result<(), IoErrorKind>>::Ready(Err(IoErrorKind::BrokenPipe))
                && final(self).receive() == old(self).receive(),
            !old(self).disconnected() && old(self).receive().clogged() ==> r is Pending
                && final(self).receive().waker() == Some(waker)
                && final(self).receive().deadline() == old(self).receive().deadline(),
            !old(self).disconnected() && !old(self).receive().clogged() && now < old(self).receive().deadline() ==>
                r is Pending && final(self).receive() == old(self).receive(),
            !old(self).disconnected() && !old(self).receive().clogged() && old(self).receive().deadline() <= now ==>
                r == Poll::<Result<(), IoErrorKind>>::Ready(Ok(()))
                && final(self).receive().waker() == old(self).receive().waker()
                && final(self).receive().deadline() == old(self).receive().deadline() + old(self).receive().latency(),
    {
        let disconnected = self.disconnected;
        self.receive.poll(now, waker, disconnected)
    }
}

/// The fault settings of one side of a connection: for sends and for receives the
/// latency, the deadline and whether it is clogged, and whether the side is disconnected.
/// (The parked wakers are left out: clogging and unclogging hand them back to be woken.)
pub struct SideSettings {
    pub send_latency: u128,
    pub send_deadline: u128,
    pub send_clogged: bool,
    pub receive_latency: u128,
    pub receive_deadline: u128,
    pub receive_clogged: bool,
    pub disconnected: bool,
}

pub open spec fn side_settings<W>(s: StreamFaultState<W>) -> SideSettings {
    SideSettings {
        send_latency: s.send().latency(),
        send_deadline: s.send().deadline(),
        send_clogged: s.send().clogged(),
        receive_latency: s.receive().latency(),
        receive_deadline: s.receive().deadline(),
        receive_clogged: s.receive().clogged(),
        disconnected: s.disconnected(),
    }
}

/// The same settings with both directions clogged (`clogged`) or both unclogged.
pub open spec fn with_clogs(x: SideSettings, clogged: bool) -> SideSettings {
    SideSettings { send_clogged: clogged, receive_clogged: clogged, ..x }
}

/// Clogging a connection and then unclogging it gives both sides back the settings they
/// had, when neither direction of either side was clogged before.
pub proof fn lemma_clog_unclog_round_trip(client: SideSettings, server: SideSettings)
    requires
        !client.send_clogged && !client.receive_clogged,
        !server.send_clogged && !server.receive_clogged,
    ensures
        with_clogs(with_clogs(client, true), false) == client,
        with_clogs(with_clogs(server, true), false) == server,
{
}

/// A connection is clogged when both of its sides are (each side counting as clogged when
/// its sends or its receives are).
pub fn connection_is_clogged<W>(client: &StreamFaultState<W>, server: &StreamFaultState<W>) -> (b: bool)
    ensures
        b == ((client.send().clogged() || client.receive().clogged()) && (server.send().clogged() || server.receive().clogged())),
{
    client.is_fully_clogged() && server.is_fully_clogged()
}

/// Clogs sends and receives on both sides of a connection; returns the wakers to wake, in
/// the order client send, client receive, server send, server receive.
pub fn clog_connection_sides<W>(client: &mut StreamFaultState<W>, server: &mut StreamFaultState<W>)
    -> (w: (Option<W>, Option<W>, Option<W>, Option<W>))
    requires
        old(client).wf(),
        old(server).wf(),
    ensures
        final(client).wf() && final(server).wf(),
        side_settings(*final(client)) == with_clogs(side_settings(*old(client)), true),
        side_settings(*final(server)) == with_clogs(side_settings(*old(server)), true),
        final(client).send().waker() is None && final(client).receive().waker() is None,
        final(server).send().waker() is None && final(server).receive().waker() is None,
        final(client).send().clogged() && final(client).receive().clogged(),
        final(server).send().clogged() && final(server).receive().clogged(),
        w == (old(client).send().waker(), old(client).receive().waker(), old(server).send().waker(), old(server).receive().waker()),
        final(client).disconnected() == old(client).disconnected(),
        final(server).disconnected() == old(server).disconnected(),
{
    let a = client.clog_sends();
    let b = client.clog_receives();
    let c = server.clog_sends();
    let d = server.clog_receives();
    (a, b, c, d)
}

/// Unclogs sends and receives on both sides of a connection; returns the wakers to wake, in
/// the same order.
pub fn unclog_connection_sides<W>(client: &mut StreamFaultState<W>, server: &mut StreamFaultState<W>)
    -> (w: (Option<W>, Option<W>, Option<W>, Option<W>))
    requires
        old(client).wf(),
        old(server).wf(),
    ensures
        final(client).wf() && final(server).wf(),
        side_settings(*final(client)) == with_clogs(side_settings(*old(client)), false),
        side_settings(*final(server)) == with_clogs(side_settings(*old(server)), false),
        final(client).send().waker() is None && final(client).receive().waker() is None,
        final(server).send().waker() is None && final(server).receive().waker() is None,
        !final(client).send().clogged() && !final(client).receive().clogged(),
        !final(server).send().clogged() && !final(server).receive().clogged(),
        w == (old(client).send().waker(), old(client).receive().waker(), old(server).send().waker(), old(server).receive().waker()),
        final(client).disconnected() == old(client).disconnected(),
        final(server).disconnected() == old(server).disconnected(),
{
    let a = client.unclog_sends();
    let b = client.unclog_receives();
    let c = server.unclog_sends();
    let d = server.unclog_receives();
    (a, b, c, d)
}

} // verus!
