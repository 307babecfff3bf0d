//! Fault injection for one side of an in-memory connection: probabilistic delays and
//! externally injected disconnects.
use crate::addr::{IpAddress, SocketAddress};
use crate::clock::MAX_DURATION_NANOS;
use crate::fault::{delay_roll, FaultInjector};
use crate::poll::{IoErrorKind, Poll};
use vstd::prelude::*;

verus! {

/// Which side of a connection a stream is.
#[derive(Clone, Copy, Debug, PartialEq, Eq, Structural)]
pub enum StreamMode {
    Client,
    Server,
}

/// Fault state of one side of an in-memory connection.
#[derive(Debug)]
pub struct MemoryStreamFaultInjector {
    mode: StreamMode,
    /// Deadline of the active delay, if any: until it passes, I/O on this side waits.
    delay: Option<u128>,
    disconnected: bool,
}

impl MemoryStreamFaultInjector {
    pub closed spec fn mode(&self) -> StreamMode {
        self.mode
    }

    pub closed spec fn delay(&self) -> Option<u128> {
        self.delay
    }

    pub closed spec fn disconnected(&self) -> bool {
        self.disconnected
    }

    /// The deadline of the active delay, if any.
    pub fn delay_deadline(&self) -> (d: Option<u128>)
        ensures
            d == self.delay(),
    {
        self.delay
    }

    /// A connected side with no delay.
    pub fn new(mode: StreamMode) -> (f: MemoryStreamFaultInjector)
        ensures
            f.mode() == mode,
            f.delay() is None,
            !f.disconnected(),
    {
        MemoryStreamFaultInjector { mode, delay: None, disconnected: false }
    }

    /// Polls the active delay at `now`. With a delay active, waits until it passes and then
    /// removes it. With none, rolls for a new read delay from `faults`, which holds back the
    /// next poll, and is ready now.
    pub fn poll_delay(&mut self, now: u128, faults: &mut FaultInjector) -> (r: Poll<()>)
        requires
            old(faults).wf(),
            now <= MAX_DURATION_NANOS,
        ensures
            final(self).mode() == old(self).mode(),
            final(self).disconnected() == old(self).disconnected(),
            final(faults).wf(),
            match old(self).delay() {
                Some(d) => {
                    &&& *final(faults) == *old(faults)
                    &&& if now < d {
                        r is Pending && final(self).delay() == old(self).delay()
                    } else {
                        r == Poll::Ready(()) && final(self).delay() is None
                    }
                },
                None => {
                    &&& r == Poll::Ready(())
                    &&& final(faults).is_noop() == old(faults).is_noop()
                    &&& final(faults).config() == old(faults).config()
                    &&& (old(faults).is_noop() ==> final(self).delay() is None)
                    &&& (final(self).delay() matches Some(nd) ==> now + old(faults).config().socket_read_delay.start <= nd
                        < now + old(faults).config().socket_read_delay.end)
                    &&& final(faults).seed() == old(faults).seed()
                    &&& final(faults).draws() == old(faults).draws() + delay_roll(old(faults).is_noop(),
                        old(faults).config().socket_read_delay_prob, old(faults).config().socket_read_delay,
                        now, final(self).delay())
                },
            },
    {
        match self.delay {
            Some(d) => {
                if now < d {
                    Poll::Pending
                } else {
                    self.delay = None;
                    Poll::Ready(())
                }
            },
            None => {
                self.delay = faults.socket_read_delay(now);
                Poll::Ready(())
            },
        }
    }

    /// `Ready` with the connection-aborted error once disconnected, whichever side this is;
    /// `Pending` while connected.
    pub fn poll_disconnected(&self) -> (r: Poll<IoErrorKind>)
        ensures
            self.disconnected() ==> r == Poll::Ready(IoErrorKind::ConnectionAborted),
            !self.disconnected() ==> r is Pending,
    {
        if self.disconnected {
            match self.mode {
                StreamMode::Client => Poll::Ready(IoErrorKind::ConnectionAborted),
                StreamMode::Server => Poll::Ready(IoErrorKind::ConnectionAborted),
            }
        } else {
            Poll::Pending
        }
    }

    /// Disconnects this side.
    pub fn set_disconnected(&mut self)
        ensures
            final(self).disconnected(),
            final(self).mode() == old(self).mode(),
            final(self).delay() == old(self).delay(),
    {
        self.disconnected = true;
    }

    /// Decides whether a read, write or flush on this side may go ahead: not before the
    /// active delay has passed, and never once disconnected (connection aborted).
    pub fn poll_io(&mut self, now: u128, faults: &mut FaultInjector) -> (r: Poll<Result<(), IoErrorKind>>)
        requires
            old(faults).wf(),
            now <= MAX_DURATION_NANOS,
        ensures
            final(self).mode() == old(self).mode(),
            final(self).disconnected() == old(self).disconnected(),
            final(faults).wf(),
            final(faults).is_noop() == old(faults).is_noop(),
            final(faults).config() == old(faults).config(),
            (old(self).delay() matches Some(d) && now < d) ==> r is Pending && final(self).delay() == old(self).delay()
                && *final(faults) == *old(faults),
            !(old(self).delay() matches Some(d) && now < d) ==> r == (if old(self).disconnected() {
                Poll::<Result<(), IoErrorKind>>::Ready(Err(IoErrorKind::ConnectionAborted))
            } else {
                Poll::<Result<(), IoErrorKind>>::Ready(Ok(()))
            }),
            old(self).delay() is Some && !(old(self).delay() matches Some(d) && now < d) ==>
                final(self).delay() is None && *final(faults) == *old(faults),
            old(self).delay() is None ==> {
                &&& final(faults).seed() == old(faults).seed()
                &&& final(faults).draws() == old(faults).draws() + delay_roll(old(faults).is_noop(),
                    old(faults).config().socket_read_delay_prob, old(faults).config().socket_read_delay,
                    now, final(self).delay())
                &&& (final(self).delay() matches Some(nd) ==> now + old(faults).config().socket_read_delay.start <= nd
                    < now + old(faults).config().socket_read_delay.end)
            },
    {
        match self.poll_delay(now, faults) {
            Poll::Pending => Poll::Pending,
            Poll::Ready(()) => {
                match self.poll_disconnected() {
                    Poll::Ready(e) => Poll::Ready(Err(e)),
                    Poll::Pending => Poll::Ready(Ok(())),
                }
            },
        }
    }
}

/// The addresses of the two sides of an in-memory connection to `port` on localhost:
/// the client is 127.0.0.1:0 and the server 127.0.0.1:`port`.
pub fn memory_pair_addrs(port: u16) -> (r: (SocketAddress, SocketAddress))
    requires
        port != 0,
    ensures
        r.0 == (SocketAddress { ip: IpAddress::V4(0x7f000001), port: 0 }),
        r.1 == (SocketAddress { ip: IpAddress::V4(0x7f000001), port: port }),
{
    let client_addr = SocketAddress::new(IpAddress::localhost(), 0);
    let server_addr = SocketAddress::new(IpAddress::localhost(), port);
    (client_addr, server_addr)
}

/// The addresses that one side of an in-memory connection reports.
#[derive(Debug)]
pub struct MemoryStreamAddrs {
    local_addr: SocketAddress,
    peer_addr: SocketAddress,
}

impl MemoryStreamAddrs {
    pub closed spec fn local(&self) -> SocketAddress {
        self.local_addr
    }

    pub closed spec fn peer(&self) -> SocketAddress {
        self.peer_addr
    }

    pub fn new(local_addr: SocketAddress, peer_addr: SocketAddress) -> (a: MemoryStreamAddrs)
        ensures
            a.local() == local_addr,
            a.peer() == peer_addr,
    {
        MemoryStreamAddrs { local_addr, peer_addr }
    }

    /// The local address.
    pub fn local_addr(&self) -> (a: SocketAddress)
        ensures
            a == self.local(),
    {
        self.local_addr
    }

    /// The inherent `peer_addr` accessor: it answers with the local address.
    pub fn peer_addr(&self) -> (a: SocketAddress)
        ensures
            a == self.local(),
    {
        self.local_addr
    }

    /// The peer address, as the stream trait reports it.
    pub fn stream_peer_addr(&self) -> (a: SocketAddress)
        ensures
            a == self.peer(),
    {
        self.peer_addr
    }
}

} // verus!
