//! Port bookkeeping for the in-memory network: which ports have listeners, allocation of
//! free listening ports, and allocation of client-side socket ports.
use crate::addr::SocketAddress;
use crate::poll::IoErrorKind;
use std::collections::HashMap;
use vstd::prelude::*;

verus! {

broadcast use vstd::std_specs::hash::group_hash_axioms;

/// Listener registrations by port, each holding the channel new connections are sent on.
#[derive(Debug)]
pub struct PortTable<C> {
    listeners: HashMap<u16, C>,
    /// The next port to try when a listener asks for any port.
    next_port: u16,
}

impl<C> PortTable<C> {
    pub closed spec fn listeners(&self) -> Map<u16, C> {
        self.listeners@
    }

    pub closed spec fn next_port(&self) -> u16 {
        self.next_port
    }

    pub closed spec fn wf(&self) -> bool {
        &&& self.next_port >= 1
        &&& !self.listeners@.contains_key(0)
    }

    /// Whether a request for any port can be served: some port from `next_port` up to, but
    /// not including, 65535 is free. (Reaching 65535 overflows the port counter.)
    pub open spec fn can_pick_port(&self) -> bool {
        exists|p: u16| self.next_port() <= p < 65535 && !self.listeners().contains_key(p)
    }

    /// No listeners; allocation of any-port requests starts at port 1.
    pub fn new() -> (t: PortTable<C>)
        ensures
            t.wf(),
            t.listeners() == Map::<u16, C>::empty(),
            t.next_port() == 1,
    {
        PortTable { listeners: HashMap::new(), next_port: 1 }
    }

    /// Whether a request for any port can be served.
    pub fn has_free_port(&self) -> (b: bool)
        ensures
            b == self.can_pick_port(),
    {
        let mut p: u16 = self.next_port;
        while p < 65535
            invariant
                self.next_port() <= p <= 65535,
                forall|q: u16| self.next_port() <= q < p ==> self.listeners().contains_key(q),
            decreases 65535 - p,
        {
            if !self.listeners.contains_key(&p) {
                assert(self.next_port() <= p < 65535 && !self.listeners().contains_key(p));
                return true;
            }
            p = p + 1;
        }
        false
    }

    /// Checks a requested port. A non-zero port is granted unless a listener holds it
    /// (address in use). Port 0 asks for any port: the lowest free port from `next_port` on
    /// is granted, and `next_port` moves past it.
    pub fn free_port(&mut self, port: u16) -> (r: Result<u16, IoErrorKind>)
        requires
            old(self).wf(),
            port == 0 ==> old(self).can_pick_port(),
        ensures
            final(self).wf(),
            final(self).listeners() == old(self).listeners(),
            port != 0 && old(self).listeners().contains_key(port) ==>
                r == Err::<u16, IoErrorKind>(IoErrorKind::AddrInUse) && final(self).next_port() == old(self).next_port(),
            port != 0 && !old(self).listeners().contains_key(port) ==>
                r == Ok::<u16, IoErrorKind>(port) && final(self).next_port() == old(self).next_port(),
            port == 0 ==> (r matches Ok(p) && {
                &&& old(self).next_port() <= p < 65535
                &&& !old(self).listeners().contains_key(p)
                &&& forall|q: u16| old(self).next_port() <= q < p ==> old(self).listeners().contains_key(q)
                &&& final(self).next_port() == p + 1
            }),
    {
        if port != 0 {
            if self.listeners.contains_key(&port) {
                return Err(IoErrorKind::AddrInUse);
            }
            return Ok(port);
        }
        loop
            invariant
                port == 0,
                self.wf(),
                self.listeners() == old(self).listeners(),
                old(self).next_port() <= self.next_port(),
                forall|q: u16| old(self).next_port() <= q < self.next_port() ==> self.listeners().contains_key(q),
                self.can_pick_port(),
            decreases 65535 - self.next_port,
        {
            if self.next_port != 0 {
                let candidate = self.next_port;
                self.next_port = self.next_port + 1;
                if !self.listeners.contains_key(&candidate) {
                    return Ok(candidate);
                }
            } else {
                return Err(IoErrorKind::Other);
            }
        }
    }

    /// The channel of the listener on `port`, or address-not-available if there is none.
    pub fn listener_channel(&self, port: u16) -> (r: Result<&C, IoErrorKind>)
        requires
            port != 0,
        ensures
            self.listeners().contains_key(port) ==> (r matches Ok(c) && *c == self.listeners()[port]),
            !self.listeners().contains_key(port) ==> r == Err::<&C, IoErrorKind>(IoErrorKind::AddrNotAvailable),
    {
        match self.listeners.get(&port) {
            Some(c) => Ok(c),
            None => Err(IoErrorKind::AddrNotAvailable),
        }
    }

    /// Registers `chan` as the listener on `port` (any free port if `port` is 0), returning
    /// the port granted, or the error of `free_port`.
    pub fn register_listener_channel(&mut self, port: u16, chan: C) -> (r: Result<u16, IoErrorKind>)
        requires
            old(self).wf(),
            port == 0 ==> old(self).can_pick_port(),
        ensures
            final(self).wf(),
            port != 0 && old(self).listeners().contains_key(port) ==>
                r == Err::<u16, IoErrorKind>(IoErrorKind::AddrInUse) && final(self).listeners() == old(self).listeners()
                && final(self).next_port() == old(self).next_port(),
            port != 0 && !old(self).listeners().contains_key(port) ==>
                r == Ok::<u16, IoErrorKind>(port) && final(self).listeners() == old(self).listeners().insert(port, chan)
                && final(self).next_port() == old(self).next_port(),
            port == 0 ==> (r matches Ok(p) && {
                &&& old(self).next_port() <= p < 65535
                &&& !old(self).listeners().contains_key(p)
                &&& forall|q: u16| old(self).next_port() <= q < p ==> old(self).listeners().contains_key(q)
                &&& final(self).next_port() == p + 1
                &&& final(self).listeners() == old(self).listeners().insert(p, chan)
            }),
    {
        let p = self.free_port(port)?;
        self.listeners.insert(p, chan);
        Ok(p)
    }

    /// Binds a listener with channel `chan` to `addr`: returns `addr` with the port granted.
    pub fn bind(&mut self, addr: SocketAddress, chan: C) -> (r: Result<SocketAddress, IoErrorKind>)
        requires
            old(self).wf(),
            addr.port == 0 ==> old(self).can_pick_port(),
        ensures
            final(self).wf(),
            addr.port != 0 && old(self).listeners().contains_key(addr.port) ==>
                r == Err::<SocketAddress, IoErrorKind>(IoErrorKind::AddrInUse)
                && final(self).listeners() == old(self).listeners(),
            addr.port != 0 && !old(self).listeners().contains_key(addr.port) ==>
                r == Ok::<SocketAddress, IoErrorKind>(addr)
                && final(self).listeners() == old(self).listeners().insert(addr.port, chan),
            addr.port == 0 ==> (r matches Ok(a) && a.ip == addr.ip && !old(self).listeners().contains_key(a.port)
                && a.port != 0 && final(self).listeners() == old(self).listeners().insert(a.port, chan)),
    {
        let p = self.register_listener_channel(addr.port, chan)?;
        Ok(addr.with_port(p))
    }

    /// The channel to send a new connection to `addr` on: port 0 is an invalid input; a
    /// port without listener is not available.
    pub fn connect_channel(&self, addr: SocketAddress) -> (r: Result<&C, IoErrorKind>)
        requires
            self.wf(),
        ensures
            addr.port == 0 ==> r == Err::<&C, IoErrorKind>(IoErrorKind::InvalidInput),
            addr.port != 0 && self.listeners().contains_key(addr.port) ==> (r matches Ok(c) && *c == self.listeners()[addr.port]),
            addr.port != 0 && !self.listeners().contains_key(addr.port) ==> r == Err::<&C, IoErrorKind>(IoErrorKind::AddrNotAvailable),
    {
        if addr.port == 0 {
            return Err(IoErrorKind::InvalidInput);
        }
        self.listener_channel(addr.port)
    }
}

/// Allocation of client-side socket ports: counts down from 65535, wrapping around.
#[derive(Debug)]
pub struct SocketPortCounter {
    next: u16,
}

impl SocketPortCounter {
    pub closed spec fn next(&self) -> u16 {
        self.next
    }

    pub fn new() -> (c: SocketPortCounter)
        ensures
            c.next() == 65535,
    {
        SocketPortCounter { next: 65535 }
    }

    /// Returns the next port and moves the counter down by one, wrapping from 0 to 65535.
    pub fn new_socket_port(&mut self) -> (p: u16)
        ensures
            p == old(self).next(),
            final(self).next() == (if p == 0 { 65535 } else { (p - 1) as u16 }),
    {
        let p = self.next;
        self.next = if p == 0 { 65535 } else { p - 1 };
        p
    }
}

} // verus!
