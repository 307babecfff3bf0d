//! In-memory sockets: a pair of pipes with probabilistic delay faults, one pipe per
//! direction.
use crate::addr::{IpAddress, SocketAddress};
use crate::clock::MAX_DURATION_NANOS;
use crate::fault::{delay_roll, DurationRange, FaultInjector};
use rand::distributions::Bernoulli;
use crate::pipe::{read_step, write_step, flush_result, closed_view, ChunkBuffer, PipeView};
use crate::poll::{IoErrorKind, Poll};
use vstd::prelude::*;

verus! {

/// The delay distribution a gate rolls from: socket reads or socket writes.
pub open spec fn gate_probability(faults: FaultInjector, read: bool) -> Bernoulli {
    if read { faults.config().socket_read_delay_prob } else { faults.config().socket_write_delay_prob }
}

pub open spec fn gate_range(faults: FaultInjector, read: bool) -> DurationRange {
    if read { faults.config().socket_read_delay } else { faults.config().socket_write_delay }
}

/// What rolling a gate for a new delay does to the injector and the delay. `rolled` is
/// the deadline the injector hands back, if one.
pub open spec fn gate_roll(
    old_faults: FaultInjector,
    new_faults: FaultInjector,
    read: bool,
    now: u128,
    rolled: Option<u128>,
    new_delay: Option<u128>,
) -> bool {
    &&& new_faults.draws() == old_faults.draws() + delay_roll(old_faults.is_noop(),
        gate_probability(old_faults, read), gate_range(old_faults, read), now, rolled)
    &&& (old_faults.is_noop() ==> rolled is None)
    &&& (rolled matches Some(x) ==> now + gate_range(old_faults, read).start <= x < now + gate_range(old_faults, read).end)
    &&& new_delay == (match rolled {
        Some(x) => if now < x { Some(x) } else { None },
        None => None,
    })
}

/// How a delay gate resolves: the outstanding delay (if any) still holds the operation
/// back, or it has elapsed (and is removed), or a fresh one was rolled from the read
/// (`read`) or write delay distribution.
pub open spec fn gate_post(
    old_delay: Option<u128>,
    new_delay: Option<u128>,
    now: u128,
    open: bool,
    old_faults: FaultInjector,
    new_faults: FaultInjector,
    read: bool,
) -> bool {
    match old_delay {
        Some(d) => {
            &&& new_faults == old_faults
            &&& if now < d {
                !open && new_delay == old_delay
            } else {
                open && new_delay is None
            }
        },
        None => {
            &&& new_faults.wf()
            &&& new_faults.is_noop() == old_faults.is_noop()
            &&& new_faults.config() == old_faults.config()
            &&& new_faults.seed() == old_faults.seed()
            &&& (old_faults.is_noop() ==> open && new_delay is None)
            &&& (open <==> new_delay is None)
            &&& (new_delay matches Some(nd) ==> now < nd)
            &&& exists|rolled: Option<u128>| #[trigger] gate_roll(old_faults, new_faults, read, now, rolled, new_delay)
        },
    }
}

/// Resolves a delay gate at `now`. `read` selects which delay to roll when none is
/// outstanding: a socket read delay, or a socket write delay.
fn poll_gate(delay: &mut Option<u128>, now: u128, faults: &mut FaultInjector, read: bool) -> (open: bool)
    requires
        old(faults).wf(),
        now <= MAX_DURATION_NANOS,
    ensures
        gate_post(*old(delay), *final(delay), now, open, *old(faults), *final(faults), read),
        *old(delay) is None && *final(delay) is Some ==> (*final(delay))->0 < now + (if read {
            old(faults).config().socket_read_delay.end
        } else {
            old(faults).config().socket_write_delay.end
        }),
{
    match *delay {
        Some(d) => {
            if now < d {
                false
            } else {
                *delay = None;
                true
            }
        },
        None => {
            let ghost before = *faults;
            let rolled = if read { faults.socket_read_delay(now) } else { faults.socket_write_delay(now) };
            let open = match rolled {
                Some(nd) => {
                    if now < nd {
                        *delay = Some(nd);
                        false
                    } else {
                        true
                    }
                },
                None => true,
            };
            assert(gate_roll(before, *faults, read, now, rolled, *delay));
            open
        },
    }
}

/// An in-memory pipe whose reads and writes may be held back by injected delays. Once
/// shut down, reads return 0 bytes and writes and flushes fail with a broken pipe.
#[derive(Debug)]
pub struct FaultyPipe {
    buf: ChunkBuffer,
    read_delay: Option<u128>,
    write_delay: Option<u128>,
    shutdown: bool,
}

/// What `FaultyPipe::poll_read` promises, from the pipe before and after the call.
pub open spec fn faulty_read_post(
    old_pipe: FaultyPipe,
    new_pipe: FaultyPipe,
    now: u128,
    old_dst: Seq<u8>,
    new_dst: Seq<u8>,
    r: Poll<usize>,
    old_faults: FaultInjector,
    new_faults: FaultInjector,
) -> bool {
    &&& new_pipe.wf()
    &&& new_dst.len() == old_dst.len()
    &&& new_pipe.write_delay() == old_pipe.write_delay()
    &&& (old_pipe.read_delay() is None && new_pipe.read_delay() is Some ==>
        new_pipe.read_delay()->0 < now + old_faults.config().socket_read_delay.end)
    &&& if old_pipe.view().closed {
        &&& r == Poll::<usize>::Ready(0)
        &&& new_pipe == old_pipe
        &&& new_faults == old_faults
        &&& new_dst == old_dst
    } else {
        exists|open: bool| {
            &&& #[trigger] gate_post(old_pipe.read_delay(), new_pipe.read_delay(), now, open, old_faults, new_faults, true)
            &&& if open {
                &&& (match r { Poll::Ready(n) => Poll::Ready(n as nat), Poll::Pending => Poll::Pending },
                    new_pipe.view()) == read_step(old_pipe.view(), old_dst.len())
                &&& (r matches Poll::Ready(n) ==> new_dst.take(n as int) == old_pipe.view().buffered.take(n as int)
                    && new_dst.skip(n as int) == old_dst.skip(n as int))
                &&& (r is Pending ==> new_dst == old_dst)
            } else {
                &&& r is Pending
                &&& new_pipe.view() == old_pipe.view()
                &&& new_dst == old_dst
            }
        }
    }
}

/// What `FaultyPipe::poll_write` promises.
pub open spec fn faulty_write_post(
    old_pipe: FaultyPipe,
    new_pipe: FaultyPipe,
    now: u128,
    data: Seq<u8>,
    r: Poll<Result<usize, IoErrorKind>>,
    old_faults: FaultInjector,
    new_faults: FaultInjector,
) -> bool {
    &&& new_pipe.wf()
    &&& new_pipe.read_delay() == old_pipe.read_delay()
    &&& (old_pipe.write_delay() is None && new_pipe.write_delay() is Some ==>
        new_pipe.write_delay()->0 < now + old_faults.config().socket_write_delay.end)
    &&& if old_pipe.view().closed {
        &&& r == Poll::<Result<usize, IoErrorKind>>::Ready(Err(IoErrorKind::BrokenPipe))
        &&& new_pipe == old_pipe
        &&& new_faults == old_faults
    } else {
        exists|open: bool| {
            &&& #[trigger] gate_post(old_pipe.write_delay(), new_pipe.write_delay(), now, open, old_faults, new_faults, false)
            &&& if open {
                (match r {
                    Poll::Ready(Ok(n)) => Poll::Ready(Ok(n as nat)),
                    Poll::Ready(Err(e)) => Poll::Ready(Err(e)),
                    Poll::Pending => Poll::Pending,
                }, new_pipe.view()) == write_step(old_pipe.view(), data)
            } else {
                &&& r is Pending
                &&& new_pipe.view() == old_pipe.view()
            }
        }
    }
}

impl FaultyPipe {
    pub closed spec fn view(&self) -> PipeView {
        PipeView { buffered: self.buf.contents(), closed: self.shutdown }
    }

    pub closed spec fn read_delay(&self) -> Option<u128> {
        self.read_delay
    }

    pub closed spec fn write_delay(&self) -> Option<u128> {
        self.write_delay
    }

    pub closed spec fn wf(&self) -> bool {
        self.buf.wf()
    }

    /// An open, empty pipe with no delay outstanding.
    pub fn new() -> (p: FaultyPipe)
        ensures
            p.wf(),
            p.view() == (PipeView { buffered: Seq::empty(), closed: false }),
            p.read_delay() is None,
            p.write_delay() is None,
    {
        FaultyPipe { buf: ChunkBuffer::new(), read_delay: None, write_delay: None, shutdown: false }
    }

    /// The deadline of the outstanding read delay, if any.
    pub fn read_delay_deadline(&self) -> (d: Option<u128>)
        ensures
            d == self.read_delay(),
    {
        self.read_delay
    }

    /// The deadline of the outstanding write delay, if any.
    pub fn write_delay_deadline(&self) -> (d: Option<u128>)
        ensures
            d == self.write_delay(),
    {
        self.write_delay
    }

    /// Shuts the pipe down.
    pub fn shutdown(&mut self)
        requires
            old(self).wf(),
        ensures
            final(self).wf(),
            final(self).view() == closed_view(old(self).view()),
            final(self).read_delay() == old(self).read_delay(),
            final(self).write_delay() == old(self).write_delay(),
    {
        self.shutdown = true;
    }

    /// Reads into `dst`, unless held back by a read delay: an outstanding one that has not
    /// elapsed at `now`, or one freshly rolled from `faults`.
    pub fn poll_read(&mut self, now: u128, faults: &mut FaultInjector, dst: &mut [u8]) -> (r: Poll<usize>)
        requires
            old(self).wf(),
            old(faults).wf(),
            now <= MAX_DURATION_NANOS,
        ensures
            faulty_read_post(*old(self), *final(self), now, old(dst)@, final(dst)@, r, *old(faults), *final(faults)),
    {
        if self.shutdown {
            return Poll::Ready(0);
        }
        let open = poll_gate(&mut self.read_delay, now, faults, true);
        if !open {
            assert(gate_post(old(self).read_delay(), self.read_delay(), now, open, *old(faults), *faults, true));
            return Poll::Pending;
        }
        if self.buf.is_empty() {
            assert(gate_post(old(self).read_delay(), self.read_delay(), now, open, *old(faults), *faults, true));
            return Poll::Pending;
        }
        let amt = self.buf.take_into(dst);
        assert(gate_post(old(self).read_delay(), self.read_delay(), now, open, *old(faults), *faults, true));
        Poll::Ready(amt)
    }

    /// Writes `data`, unless held back by a write delay, in the same way as reads.
    pub fn poll_write(&mut self, now: u128, faults: &mut FaultInjector, data: &[u8]) -> (r: Poll<Result<usize, IoErrorKind>>)
        requires
            old(self).wf(),
            old(faults).wf(),
            now <= MAX_DURATION_NANOS,
        ensures
            faulty_write_post(*old(self), *final(self), now, data@, r, *old(faults), *final(faults)),
    {
        if self.shutdown {
            return Poll::Ready(Err(IoErrorKind::BrokenPipe));
        }
        let open = poll_gate(&mut self.write_delay, now, faults, false);
        if !open {
            assert(gate_post(old(self).write_delay(), self.write_delay(), now, open, *old(faults), *faults, false));
            return Poll::Pending;
        }
        if !self.buf.is_empty() {
            assert(gate_post(old(self).write_delay(), self.write_delay(), now, open, *old(faults), *faults, false));
            return Poll::Pending;
        }
        if data.len() == 0 {
            assert(data@ =~= self.view().buffered);
            assert(self.view() == write_step(old(self).view(), data@).1);
            assert(gate_post(old(self).write_delay(), self.write_delay(), now, open, *old(faults), *faults, false));
            return Poll::Ready(Ok(0));
        }
        self.buf.put(data);
        assert(gate_post(old(self).write_delay(), self.write_delay(), now, open, *old(faults), *faults, false));
        Poll::Ready(Ok(data.len()))
    }

    /// Flushing fails once the pipe is shut down and succeeds otherwise.
    pub fn poll_flush(&self) -> (r: Result<(), IoErrorKind>)
        ensures
            r == flush_result(self.view()),
    {
        if self.shutdown {
            Err(IoErrorKind::BrokenPipe)
        } else {
            Ok(())
        }
    }

    /// Shuts the pipe down and reports success.
    pub fn poll_shutdown(&mut self) -> (r: Result<(), IoErrorKind>)
        requires
            old(self).wf(),
        ensures
            final(self).wf(),
            final(self).view() == closed_view(old(self).view()),
            final(self).read_delay() == old(self).read_delay(),
            final(self).write_delay() == old(self).write_delay(),
            r == Ok::<(), IoErrorKind>(()),
    {
        self.shutdown = true;
        Ok(())
    }
}

/// Both directions of an in-memory connection. The client writes into `client` and
/// reads from `server`; the server writes into `server` and reads from `client`.
#[derive(Debug)]
pub struct SocketPair {
    pub client: FaultyPipe,
    pub server: FaultyPipe,
    pub server_local_addr: SocketAddress,
    pub server_peer_addr: SocketAddress,
}

impl SocketPair {
    pub open spec fn wf(&self) -> bool {
        self.client.wf() && self.server.wf()
    }

    /// A new connection to `server_addr`: both pipes open and empty; the server side's
    /// peer is 127.0.0.1:0.
    pub fn new(server_addr: SocketAddress) -> (p: SocketPair)
        ensures
            p.wf(),
            p.client.view() == (PipeView { buffered: Seq::empty(), closed: false }),
            p.server.view() == (PipeView { buffered: Seq::empty(), closed: false }),
            p.client.read_delay() is None && p.client.write_delay() is None,
            p.server.read_delay() is None && p.server.write_delay() is None,
            p.server_local_addr == server_addr,
            p.server_peer_addr == (SocketAddress { ip: IpAddress::V4(0x7f000001), port: 0 }),
    {
        SocketPair {
            client: FaultyPipe::new(),
            server: FaultyPipe::new(),
            server_local_addr: server_addr,
            server_peer_addr: SocketAddress::new(IpAddress::localhost(), 0),
        }
    }

    /// The server side's local address.
    pub fn server_local_addr(&self) -> (a: SocketAddress)
        ensures
            a == self.server_local_addr,
    {
        self.server_local_addr
    }

    /// The server side's peer address.
    pub fn server_peer_addr(&self) -> (a: SocketAddress)
        ensures
            a == self.server_peer_addr,
    {
        self.server_peer_addr
    }

    /// Shuts down both directions, as either side's `shutdown` does.
    pub fn shutdown(&mut self)
        requires
            old(self).wf(),
        ensures
            final(self).wf(),
            final(self).client.view() == closed_view(old(self).client.view()),
            final(self).server.view() == closed_view(old(self).server.view()),
            final(self).server_local_addr == old(self).server_local_addr,
            final(self).server_peer_addr == old(self).server_peer_addr,
    {
        self.client.shutdown();
        self.server.shutdown();
    }
}

/// A TCP-stream-like wrapper around one side of an in-memory connection.
#[derive(Debug)]
pub struct MemoryTcpStream<S> {
    socket: S,
}

impl<S> MemoryTcpStream<S> {
    pub closed spec fn socket(&self) -> S {
        self.socket
    }

    /// Wraps the client side of a connection.
    pub fn new_client(socket: S) -> (s: MemoryTcpStream<S>)
        ensures
            s.socket() == socket,
    {
        MemoryTcpStream { socket }
    }

    /// Wraps the server side of a connection.
    pub fn new_server(socket: S) -> (s: MemoryTcpStream<S>)
        ensures
            s.socket() == socket,
    {
        MemoryTcpStream { socket }
    }

    /// The wrapped socket.
    pub fn get_ref(&self) -> (s: &S)
        ensures
            *s == self.socket(),
    {
        &self.socket
    }

    /// Unwraps the socket.
    pub fn into_inner(self) -> (s: S)
        ensures
            s == self.socket(),
    {
        self.socket
    }
}

} // verus!
