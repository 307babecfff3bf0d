//! State of the simulated in-memory network: open connections, clogged IP pairs, and
//! the listening endpoints that new connections are queued on.
//!
//! Servers may bind before or after clients connect: connecting to an address with no
//! listener registers an unbound endpoint whose queue a later `listen` picks up.
use crate::addr::{IpAddress, SocketAddress};
use crate::poll::IoErrorKind;
use crate::swizzle::CloggedConnection;
use std::collections::HashSet;
use vstd::prelude::*;

verus! {

broadcast use vstd::std_specs::hash::group_hash_axioms;

/// An open connection: its two addresses and the fault handles of its two sides.
#[derive(Debug)]
pub struct Connection<H> {
    pub source: SocketAddress,
    pub dest: SocketAddress,
    pub client_fault_handle: H,
    pub server_fault_handle: H,
}

impl<H> Connection<H> {
    pub fn new(source: SocketAddress, dest: SocketAddress, client_fault_handle: H, server_fault_handle: H) -> (c: Connection<H>)
        ensures
            c.source == source,
            c.dest == dest,
            c.client_fault_handle == client_fault_handle,
            c.server_fault_handle == server_fault_handle,
    {
        Connection { source, dest, client_fault_handle, server_fault_handle }
    }

    pub fn source(&self) -> (a: SocketAddress)
        ensures
            a == self.source,
    {
        self.source
    }

    /// Connections are the same when their source and destination addresses are; the fault
    /// handles play no part.
    pub fn same_endpoints(&self, other: &Connection<H>) -> (b: bool)
        ensures
            b == (self.source == other.source && self.dest == other.dest),
    {
        self.source == other.source && self.dest == other.dest
    }

    pub fn dest(&self) -> (a: SocketAddress)
        ensures
            a == self.dest,
    {
        self.dest
    }
}

/// A listening endpoint: `Unbound` holds both ends of the queue of new connections until a
/// listener binds and takes the receiving end; `Bound` keeps only the sending end.
#[derive(Debug)]
pub enum ListenerState<T, R> {
    Unbound { tx: T, rx: R },
    Bound { tx: T },
}

impl<T, R> ListenerState<T, R> {
    /// The sending end of the queue.
    pub open spec fn sender(self) -> T {
        match self {
            ListenerState::Unbound { tx, .. } => tx,
            ListenerState::Bound { tx } => tx,
        }
    }
}

#[derive(Debug)]
pub struct Endpoint<T, R> {
    pub addr: SocketAddress,
    pub state: ListenerState<T, R>,
}

/// The result of binding a listener to `a` on endpoints `m`, given a fresh queue, and the
/// endpoints afterwards.
pub open spec fn listen_outcome<T, R>(m: Map<SocketAddress, ListenerState<T, R>>, a: SocketAddress, fresh_tx: T, fresh_rx: R)
    -> (Result<R, IoErrorKind>, Map<SocketAddress, ListenerState<T, R>>)
{
    match m.get(a) {
        Some(ListenerState::Unbound { tx, rx }) => (Ok(rx), m.insert(a, ListenerState::Bound { tx })),
        Some(ListenerState::Bound { tx }) => (Err(IoErrorKind::AddrInUse), m),
        None => (Ok(fresh_rx), m.insert(a, ListenerState::Bound { tx: fresh_tx })),
    }
}

/// The endpoints after a connection to `a` makes sure that `a` has a queue.
pub open spec fn ensure_outcome<T, R>(m: Map<SocketAddress, ListenerState<T, R>>, a: SocketAddress, fresh_tx: T, fresh_rx: R)
    -> Map<SocketAddress, ListenerState<T, R>>
{
    if m.contains_key(a) { m } else { m.insert(a, ListenerState::Unbound { tx: fresh_tx, rx: fresh_rx }) }
}

/// Late binding: a connection made before any listener is queued on an endpoint whose
/// queue the first listener to bind then receives; the connection's sending end stays the
/// one that the listener's queue belongs to.
pub proof fn lemma_connect_then_listen<T, R>(
    m: Map<SocketAddress, ListenerState<T, R>>,
    a: SocketAddress,
    tx1: T,
    rx1: R,
    tx2: T,
    rx2: R,
)
    requires
        !m.contains_key(a),
    ensures
        ({
            let m1 = ensure_outcome(m, a, tx1, rx1);
            let (r, m2) = listen_outcome(m1, a, tx2, rx2);
            &&& m1[a].sender() == tx1
            &&& r == Ok::<R, IoErrorKind>(rx1)
            &&& m2[a].sender() == tx1
            &&& m2[a] is Bound
        }),
{
}

/// Listening first: the listener gets the fresh queue, and a later connection is sent into
/// that same queue.
pub proof fn lemma_listen_then_connect<T, R>(
    m: Map<SocketAddress, ListenerState<T, R>>,
    a: SocketAddress,
    tx1: T,
    rx1: R,
    tx2: T,
    rx2: R,
)
    requires
        !m.contains_key(a),
    ensures
        ({
            let (r, m1) = listen_outcome(m, a, tx1, rx1);
            let m2 = ensure_outcome(m1, a, tx2, rx2);
            &&& r == Ok::<R, IoErrorKind>(rx1)
            &&& m2 == m1
            &&& m2[a].sender() == tx1
        }),
{
}

/// An address can be bound only once: a second listener on a bound address is refused
/// with address-in-use and changes nothing.
pub proof fn lemma_second_listen_refused<T, R>(
    m: Map<SocketAddress, ListenerState<T, R>>,
    a: SocketAddress,
    tx1: T,
    rx1: R,
    tx2: T,
    rx2: R,
)
    ensures
        ({
            let (r1, m1) = listen_outcome(m, a, tx1, rx1);
            let (r2, m2) = listen_outcome(m1, a, tx2, rx2);
            r1 is Ok ==> r2 == Err::<R, IoErrorKind>(IoErrorKind::AddrInUse) && m2 == m1
        }),
{
}

/// Whether `c` carries traffic from `clog.source` to `clog.dest`.
pub open spec fn conn_matches<H>(c: Connection<H>, clog: CloggedConnection) -> bool {
    c.source.ip == clog.source && c.dest.ip == clog.dest
}

/// The indices, in increasing order, of the first `k` connections that carry the traffic
/// `clog` designates.
pub open spec fn matching_indices<H>(conns: Seq<Connection<H>>, clog: CloggedConnection, k: nat) -> Seq<usize>
    decreases k,
{
    if k == 0 {
        Seq::empty()
    } else {
        let rest = matching_indices(conns, clog, (k - 1) as nat);
        if conn_matches(conns[k - 1], clog) { rest.push((k - 1) as usize) } else { rest }
    }
}

/// The indices returned for `clog` are exactly the connections whose source IP is the
/// clog's source and whose destination IP is the clog's destination, in increasing order.
pub proof fn lemma_matching_indices_exact<H>(conns: Seq<Connection<H>>, clog: CloggedConnection, k: nat)
    requires
        k <= conns.len(),
        conns.len() <= usize::MAX,
    ensures
        forall|i: int| 0 <= i < k ==> (matching_indices(conns, clog, k).contains(i as usize)
            <==> conns[i].source.ip == clog.source && conns[i].dest.ip == clog.dest),
        forall|j: int| 0 <= j < matching_indices(conns, clog, k).len() ==> #[trigger] matching_indices(conns, clog, k)[j] < k,
        forall|a: int, b: int| 0 <= a < b < matching_indices(conns, clog, k).len() ==>
            matching_indices(conns, clog, k)[a] < matching_indices(conns, clog, k)[b],
    decreases k,
{
    if k > 0 {
        let k1 = (k - 1) as nat;
        lemma_matching_indices_exact(conns, clog, k1);
        let rest = matching_indices(conns, clog, k1);
        let m = matching_indices(conns, clog, k);
        assert forall|i: int| 0 <= i < k implies (m.contains(i as usize)
            <==> conns[i].source.ip == clog.source && conns[i].dest.ip == clog.dest) by {
            if conn_matches(conns[k - 1], clog) {
                assert(m == rest.push(k1 as usize));
                if m.contains(i as usize) && i < k1 {
                    let w = choose|w: int| 0 <= w < m.len() && m[w] == i as usize;
                    if w < rest.len() {
                        assert(rest[w] == i as usize);
                    }
                }
                if i < k1 && rest.contains(i as usize) {
                    let w = choose|w: int| 0 <= w < rest.len() && rest[w] == i as usize;
                    assert(m[w] == i as usize);
                }
                if i == k1 {
                    assert(m[m.len() - 1] == i as usize);
                }
            } else {
                if i == k1 && m.contains(i as usize) {
                    let w = choose|w: int| 0 <= w < m.len() && m[w] == i as usize;
                    assert(rest[w] < k1);
                }
            }
        }
    }
}

/// The live connections after garbage collection, as many as there are unset flags.
pub open spec fn unset_count(flags: Seq<bool>) -> nat
    decreases flags.len(),
{
    if flags.len() == 0 {
        0
    } else {
        unset_count(flags.drop_last()) + if flags.last() { 0nat } else { 1nat }
    }
}

/// Garbage collection keeps exactly the connections whose dropped flag is unset, in order:
/// as many as there are unset flags, and the connection at position `i` with an unset flag
/// stands right after the kept connections before it.
pub proof fn lemma_retained_keeps_live<H>(conns: Seq<Connection<H>>, dropped: Seq<bool>)
    requires
        conns.len() == dropped.len(),
    ensures
        retained(conns, dropped).len() == unset_count(dropped),
        forall|i: int| #![trigger dropped[i]] 0 <= i < conns.len() && !dropped[i] ==>
            retained(conns, dropped)[unset_count(dropped.take(i)) as int] == conns[i],
    decreases conns.len(),
{
    if conns.len() > 0 {
        let c2 = conns.drop_last();
        let d2 = dropped.drop_last();
        lemma_retained_keeps_live(c2, d2);
        let n = conns.len() - 1;
        assert forall|i: int| #![trigger dropped[i]] 0 <= i < conns.len() && !dropped[i] implies
            retained(conns, dropped)[unset_count(dropped.take(i)) as int] == conns[i] by {
            if i < n {
                assert(dropped.take(i) =~= d2.take(i));
                assert(d2[i] == dropped[i]);
                lemma_unset_count_prefix(d2, i);
            } else {
                assert(dropped.take(i) =~= d2);
            }
        }
    }
}

proof fn lemma_unset_count_prefix(flags: Seq<bool>, i: int)
    requires
        0 <= i < flags.len(),
        !flags[i],
    ensures
        unset_count(flags.take(i)) < unset_count(flags),
    decreases flags.len(),
{
    let n = flags.len() - 1;
    if i < n {
        lemma_unset_count_prefix(flags.drop_last(), i);
        assert(flags.drop_last().take(i) =~= flags.take(i));
    } else {
        assert(flags.take(i) =~= flags.drop_last());
    }
}

/// Clogging traffic between two IPs and unclogging it again restores the set of clogged
/// pairs when the pair was not clogged before, so that later connections between them
/// start unclogged again. (`clog_connection` and `unclog_connection` both return
/// `matching_indices` of the unchanged connections, so they designate the same existing
/// connections; `stream_fault::lemma_clog_unclog_round_trip` gives their sides back.)
pub proof fn lemma_clog_then_unclog(clogged: Set<CloggedConnection>, c: CloggedConnection)
    requires
        !clogged.contains(c),
    ensures
        clogged.insert(c).remove(c) == clogged,
{
    assert(clogged.insert(c).remove(c) =~= clogged);
}

/// Whether some connection has `ip:port` as its source.
pub open spec fn port_occupied<H>(conns: Seq<Connection<H>>, ip: IpAddress, port: u16) -> bool {
    exists|i: int| 0 <= i < conns.len() && #[trigger] conns[i].source == (SocketAddress { ip, port })
}

/// The connections whose `dropped` flag is unset, in order.
pub open spec fn retained<H>(conns: Seq<Connection<H>>, dropped: Seq<bool>) -> Seq<Connection<H>>
    decreases conns.len(),
{
    if conns.len() == 0 {
        Seq::empty()
    } else {
        let rest = retained(conns.drop_last(), dropped.drop_last());
        if dropped.last() { rest } else { rest.push(conns.last()) }
    }
}

/// The endpoints as a map from address to state.
pub open spec fn endpoint_map<T, R>(eps: Seq<Endpoint<T, R>>) -> Map<SocketAddress, ListenerState<T, R>> {
    Map::new(
        |a: SocketAddress| exists|i: int| 0 <= i < eps.len() && #[trigger] eps[i].addr == a,
        |a: SocketAddress| eps[choose|i: int| 0 <= i < eps.len() && #[trigger] eps[i].addr == a].state,
    )
}

pub open spec fn unique_addrs<T, R>(eps: Seq<Endpoint<T, R>>) -> bool {
    forall|i: int, j: int| 0 <= i < eps.len() && 0 <= j < eps.len() && #[trigger] eps[i].addr == #[trigger] eps[j].addr ==> i == j
}

proof fn lemma_endpoint_map_at<T, R>(eps: Seq<Endpoint<T, R>>, i: int)
    requires
        unique_addrs(eps),
        0 <= i < eps.len(),
    ensures
        endpoint_map(eps).contains_key(eps[i].addr),
        endpoint_map(eps)[eps[i].addr] == eps[i].state,
{
    let a = eps[i].addr;
    assert(exists|k: int| 0 <= k < eps.len() && #[trigger] eps[k].addr == a);
    let c = choose|k: int| 0 <= k < eps.len() && #[trigger] eps[k].addr == a;
    assert(c == i);
}

proof fn lemma_endpoint_map_update<T, R>(eps: Seq<Endpoint<T, R>>, i: int, e: Endpoint<T, R>)
    requires
        unique_addrs(eps),
        0 <= i < eps.len(),
        e.addr == eps[i].addr,
    ensures
        unique_addrs(eps.update(i, e)),
        endpoint_map(eps.update(i, e)) == endpoint_map(eps).insert(e.addr, e.state),
{
    let eps2 = eps.update(i, e);
    assert(unique_addrs(eps2)) by {
        assert forall|x: int, y: int| 0 <= x < eps2.len() && 0 <= y < eps2.len() && #[trigger] eps2[x].addr == #[trigger] eps2[y].addr implies x == y by {
            assert(eps2[x].addr == eps[x].addr);
            assert(eps2[y].addr == eps[y].addr);
        }
    }
    let m1 = endpoint_map(eps2);
    let m2 = endpoint_map(eps).insert(e.addr, e.state);
    assert forall|a: SocketAddress| #[trigger] m1.contains_key(a) <==> m2.contains_key(a) by {
        if m1.contains_key(a) {
            let k = choose|k: int| 0 <= k < eps2.len() && #[trigger] eps2[k].addr == a;
            assert(eps[k].addr == a);
        }
        if m2.contains_key(a) && a != e.addr {
            let k = choose|k: int| 0 <= k < eps.len() && #[trigger] eps[k].addr == a;
            assert(eps2[k].addr == a);
        }
        if a == e.addr {
            assert(eps2[i].addr == a);
        }
    }
    assert forall|a: SocketAddress| m1.contains_key(a) implies #[trigger] m1[a] == m2[a] by {
        let k = choose|k: int| 0 <= k < eps2.len() && #[trigger] eps2[k].addr == a;
        lemma_endpoint_map_at(eps2, k);
        if k != i {
            assert(eps[k].addr == a);
            lemma_endpoint_map_at(eps, k);
        }
    }
    assert(m1 =~= m2);
}

proof fn lemma_endpoint_map_push<T, R>(eps: Seq<Endpoint<T, R>>, e: Endpoint<T, R>)
    requires
        unique_addrs(eps),
        !endpoint_map(eps).contains_key(e.addr),
    ensures
        unique_addrs(eps.push(e)),
        endpoint_map(eps.push(e)) == endpoint_map(eps).insert(e.addr, e.state),
{
    let eps2 = eps.push(e);
    let n = eps.len() as int;
    assert forall|k: int| 0 <= k < n implies #[trigger] eps[k].addr != e.addr by {
        if eps[k].addr == e.addr {
            assert(endpoint_map(eps).contains_key(e.addr));
        }
    }
    assert(unique_addrs(eps2)) by {
        assert forall|x: int, y: int| 0 <= x < eps2.len() && 0 <= y < eps2.len() && #[trigger] eps2[x].addr == #[trigger] eps2[y].addr implies x == y by {
            if x < n && y < n {
                assert(eps2[x] == eps[x]);
                assert(eps2[y] == eps[y]);
            } else if x < n {
                assert(eps2[x] == eps[x]);
                assert(eps[x].addr != e.addr);
            } else if y < n {
                assert(eps2[y] == eps[y]);
                assert(eps[y].addr != e.addr);
            }
        }
    }
    let m1 = endpoint_map(eps2);
    let m2 = endpoint_map(eps).insert(e.addr, e.state);
    assert forall|a: SocketAddress| #[trigger] m1.contains_key(a) <==> m2.contains_key(a) by {
        if m1.contains_key(a) && a != e.addr {
            let k = choose|k: int| 0 <= k < eps2.len() && #[trigger] eps2[k].addr == a;
            assert(k < n);
            assert(eps[k].addr == a);
        }
        if m2.contains_key(a) && a != e.addr {
            let k = choose|k: int| 0 <= k < eps.len() && #[trigger] eps[k].addr == a;
            assert(eps2[k].addr == a);
        }
        if a == e.addr {
            assert(eps2[n].addr == a);
        }
    }
    assert forall|a: SocketAddress| m1.contains_key(a) implies #[trigger] m1[a] == m2[a] by {
        let k = choose|k: int| 0 <= k < eps2.len() && #[trigger] eps2[k].addr == a;
        lemma_endpoint_map_at(eps2, k);
        if k < n {
            assert(eps2[k] == eps[k]);
            lemma_endpoint_map_at(eps, k);
        }
    }
    assert(m1 =~= m2);
}

/// The network's state.
#[derive(Debug)]
pub struct NetworkState<H, T, R> {
    connections: Vec<Connection<H>>,
    clogged: Vec<CloggedConnection>,
    endpoints: Vec<Endpoint<T, R>>,
}

impl<H, T, R> NetworkState<H, T, R> {
    pub closed spec fn conns(&self) -> Seq<Connection<H>> {
        self.connections@
    }

    pub closed spec fn clogged(&self) -> Set<CloggedConnection> {
        Set::new(|c: CloggedConnection| self.clogged@.contains(c))
    }

    pub closed spec fn endpoints(&self) -> Map<SocketAddress, ListenerState<T, R>> {
        endpoint_map(self.endpoints@)
    }

    pub closed spec fn wf(&self) -> bool {
        &&& self.clogged@.no_duplicates()
        &&& unique_addrs(self.endpoints@)
    }

    /// Whether new connections from `source` to `dest` start clogged.
    pub open spec fn clogs(&self, source: SocketAddress, dest: SocketAddress) -> bool {
        self.clogged().contains(CloggedConnection { source: source.ip, dest: dest.ip })
    }

    /// An empty network.
    pub fn new() -> (n: NetworkState<H, T, R>)
        ensures
            n.wf(),
            n.conns() == Seq::<Connection<H>>::empty(),
            n.clogged() == Set::<CloggedConnection>::empty(),
            n.endpoints() == Map::<SocketAddress, ListenerState<T, R>>::empty(),
    {
        let n = NetworkState { connections: Vec::new(), clogged: Vec::new(), endpoints: Vec::new() };
        assert(n.clogged() =~= Set::<CloggedConnection>::empty());
        assert(endpoint_map(n.endpoints@) =~= Map::<SocketAddress, ListenerState<T, R>>::empty());
        n
    }

    /// The open connections, in the order they were made.
    pub fn connections(&self) -> (c: &Vec<Connection<H>>)
        ensures
            c@ == self.conns(),
    {
        &self.connections
    }

    /// Registers a connection from `source` to `dest`: refused with address-in-use if some
    /// connection already has `source` as its source; otherwise appended, returning whether
    /// it must start clogged.
    pub fn register_new_connection_pair(
        &mut self,
        source: SocketAddress,
        dest: SocketAddress,
        client_fault_handle: H,
        server_fault_handle: H,
    ) -> (r: Result<bool, IoErrorKind>)
        requires
            old(self).wf(),
        ensures
            final(self).wf(),
            final(self).clogged() == old(self).clogged(),
            final(self).endpoints() == old(self).endpoints(),
            (exists|i: int| 0 <= i < old(self).conns().len() && #[trigger] old(self).conns()[i].source == source) ==> {
                &&& r == Err::<bool, IoErrorKind>(IoErrorKind::AddrInUse)
                &&& final(self).conns() == old(self).conns()
            },
            !(exists|i: int| 0 <= i < old(self).conns().len() && #[trigger] old(self).conns()[i].source == source) ==> {
                &&& r == Ok::<bool, IoErrorKind>(old(self).clogs(source, dest))
                &&& final(self).conns() == old(self).conns().push(Connection::new_spec(source, dest, client_fault_handle, server_fault_handle))
            },
    {
        if self.source_in_use(source) {
            return Err(IoErrorKind::AddrInUse);
        }
        let clog = self.should_clog(source, dest);
        self.connections.push(Connection { source, dest, client_fault_handle, server_fault_handle });
        Ok(clog)
    }

    /// Whether some connection has `source` as its source.
    fn source_in_use(&self, source: SocketAddress) -> (b: bool)
        ensures
            b == exists|i: int| 0 <= i < self.conns().len() && #[trigger] self.conns()[i].source == source,
    {
        let mut i: usize = 0;
        while i < self.connections.len()
            invariant
                i <= self.connections@.len(),
                forall|j: int| 0 <= j < i ==> #[trigger] self.connections@[j].source != source,
            decreases self.connections.len() - i,
        {
            if self.connections[i].source == source {
                return true;
            }
            i = i + 1;
        }
        false
    }

    /// The position of `c` in the clogged list, if present.
    fn clog_index(&self, c: CloggedConnection) -> (r: Option<usize>)
        ensures
            r is None ==> !self.clogged@.contains(c),
            r matches Some(i) ==> i < self.clogged@.len() && self.clogged@[i as int] == c,
    {
        let mut i: usize = 0;
        while i < self.clogged.len()
            invariant
                i <= self.clogged@.len(),
                forall|j: int| 0 <= j < i ==> #[trigger] self.clogged@[j] != c,
            decreases self.clogged.len() - i,
        {
            if self.clogged[i] == c {
                return Some(i);
            }
            i = i + 1;
        }
        None
    }

    /// Whether some connection from `ip` leaves a source port free.
    pub fn has_unused_socket_port(&self, ip: IpAddress) -> (b: bool)
        ensures
            b == exists|p: u16| !port_occupied(self.conns(), ip, p),
    {
        let occupied = self.occupied_ports(ip);
        let mut port: u32 = 0;
        while port < 65536
            invariant
                port <= 65536,
                forall|q: u16| q < port ==> port_occupied(self.conns(), ip, q),
                forall|q: u16| #[trigger] occupied@.contains(q) == port_occupied(self.conns(), ip, q),
            decreases 65536 - port,
        {
            if !occupied.contains(&(port as u16)) {
                return true;
            }
            port = port + 1;
        }
        assert forall|p: u16| port_occupied(self.conns(), ip, p) by {
            assert(p < port);
        }
        false
    }

    /// The source ports in use by connections from `ip`.
    fn occupied_ports(&self, ip: IpAddress) -> (s: HashSet<u16>)
        ensures
            forall|q: u16| #[trigger] s@.contains(q) == port_occupied(self.conns(), ip, q),
    {
        let mut occupied: HashSet<u16> = HashSet::new();
        let mut i: usize = 0;
        while i < self.connections.len()
            invariant
                i <= self.connections@.len(),
                forall|q: u16| #[trigger] occupied@.contains(q) == exists|j: int|
                    0 <= j < i && #[trigger] self.connections@[j].source == (SocketAddress { ip, port: q }),
            decreases self.connections.len() - i,
        {
            let src = self.connections[i].source;
            if src.ip == ip {
                occupied.insert(src.port);
            }
            proof {
                assert forall|q: u16| #[trigger] occupied@.contains(q) == exists|j: int|
                    0 <= j < i + 1 && #[trigger] self.connections@[j].source == (SocketAddress { ip, port: q }) by {
                    if occupied@.contains(q) && !(exists|j: int| 0 <= j < i && #[trigger] self.connections@[j].source == (SocketAddress { ip, port: q })) {
                        assert(self.connections@[i as int].source == (SocketAddress { ip, port: q }));
                    }
                }
            }
            i = i + 1;
        }
        occupied
    }

    /// The highest source port that no connection from `ip` uses.
    pub fn unused_socket_port(&self, ip: IpAddress) -> (p: u16)
        requires
            exists|q: u16| !port_occupied(self.conns(), ip, q),
        ensures
            !port_occupied(self.conns(), ip, p),
            forall|q: u16| p < q ==> port_occupied(self.conns(), ip, q),
    {
        let occupied = self.occupied_ports(ip);
        let mut start: u16 = 65535;
        loop
            invariant
                forall|q: u16| start < q ==> port_occupied(self.conns(), ip, q),
                exists|q: u16| !port_occupied(self.conns(), ip, q),
                forall|q: u16| #[trigger] occupied@.contains(q) == port_occupied(self.conns(), ip, q),
            decreases start,
        {
            if !occupied.contains(&start) {
                return start;
            }
            if start == 0 {
                assert forall|q: u16| port_occupied(self.conns(), ip, q) by {
                    if q != 0 {
                        assert(start < q);
                    }
                }
                assert(false);
            }
            start = start - 1;
        }
    }

    /// Keeps only the connections whose `dropped` flag is unset.
    pub fn gc_dropped(&mut self, dropped: &Vec<bool>)
        requires
            old(self).wf(),
            dropped@.len() == old(self).conns().len(),
        ensures
            final(self).wf(),
            final(self).conns() == retained(old(self).conns(), dropped@),
            final(self).conns().len() == unset_count(dropped@),
            forall|i: int| #![trigger dropped@[i]] 0 <= i < old(self).conns().len() && !dropped@[i] ==>
                final(self).conns()[unset_count(dropped@.take(i)) as int] == old(self).conns()[i],
            final(self).clogged() == old(self).clogged(),
            final(self).endpoints() == old(self).endpoints(),
    {
        proof {
            lemma_retained_keeps_live(self.conns(), dropped@);
        }
        let ghost orig = self.connections@;
        let mut rest: Vec<Connection<H>> = Vec::new();
        std::mem::swap(&mut rest, &mut self.connections);
        let mut kept: Vec<Connection<H>> = Vec::new();
        let mut i: usize = 0;
        assert(orig.len() == dropped.len());
        while rest.len() > 0
            invariant
                i <= orig.len(),
                orig.len() == dropped.len(),
                dropped@.len() == orig.len(),
                rest@ == orig.skip(i as int),
                kept@ == retained(orig.take(i as int), dropped@.take(i as int)),
            decreases rest.len(),
        {
            let c = rest.remove(0);
            proof {
                assert(orig.take(i + 1).drop_last() =~= orig.take(i as int));
                assert(dropped@.take(i + 1).drop_last() =~= dropped@.take(i as int));
                assert(orig.skip(i as int)[0] == orig[i as int]);
                assert(rest@ =~= orig.skip(i + 1));
            }
            if !dropped[i] {
                kept.push(c);
            }
            i = i + 1;
        }
        proof {
            assert(orig.take(i as int) =~= orig);
            assert(dropped@.take(i as int) =~= dropped@);
        }
        self.connections = kept;
    }

    /// Whether new connections from `source` to `dest` must start clogged.
    pub fn should_clog(&self, source: SocketAddress, dest: SocketAddress) -> (b: bool)
        ensures
            b == self.clogs(source, dest),
    {
        let target = CloggedConnection::new(source.ip, dest.ip);
        self.clog_index(target).is_some()
    }

    /// The indices, in increasing order, of the connections carrying traffic that `clog`
    /// designates.
    fn matching_connections(&self, clog: CloggedConnection) -> (idx: Vec<usize>)
        ensures
            idx@ == matching_indices(self.conns(), clog, self.conns().len()),
            forall|j: int, k: int| 0 <= j < k < idx@.len() ==> idx@[j] < idx@[k],
            forall|j: int| 0 <= j < idx@.len() ==> idx@[j] < self.conns().len() && conn_matches(self.conns()[idx@[j] as int], clog),
            forall|i: int| 0 <= i < self.conns().len() && conn_matches(self.conns()[i], clog) ==> idx@.contains(i as usize),
    {
        let mut idx: Vec<usize> = Vec::new();
        let mut i: usize = 0;
        while i < self.connections.len()
            invariant
                i <= self.connections@.len(),
                forall|j: int, k: int| 0 <= j < k < idx@.len() ==> idx@[j] < idx@[k],
                forall|j: int| 0 <= j < idx@.len() ==> idx@[j] < i && conn_matches(self.connections@[idx@[j] as int], clog),
                forall|m: int| 0 <= m < i && conn_matches(self.connections@[m], clog) ==> idx@.contains(m as usize),
                idx@ == matching_indices(self.connections@, clog, i as nat),
            decreases self.connections.len() - i,
        {
            let c = &self.connections[i];
            if c.source.ip == clog.source && c.dest.ip == clog.dest {
                let ghost before = idx@;
                idx.push(i);
                proof {
                    assert(idx@ == before.push(i));
                    assert forall|m: int| 0 <= m < i + 1 && conn_matches(self.connections@[m], clog) implies idx@.contains(m as usize) by {
                        if m == i {
                            assert(idx@[idx@.len() - 1] == m as usize);
                        } else {
                            assert(before.contains(m as usize));
                            let w = choose|w: int| 0 <= w < before.len() && before[w] == m as usize;
                            assert(idx@[w] == m as usize);
                        }
                    }
                }
            } else {
                assert forall|m: int| 0 <= m < i + 1 && conn_matches(self.connections@[m], clog) implies idx@.contains(m as usize) by {
                    assert(m != i);
                }
            }
            i = i + 1;
        }
        idx
    }

    /// Clogs all new connections from one IP to another, and returns the indices of the
    /// existing connections between them, which must be clogged too.
    pub fn clog_connection(&mut self, clog: CloggedConnection) -> (idx: Vec<usize>)
        requires
            old(self).wf(),
        ensures
            final(self).wf(),
            final(self).clogged() == old(self).clogged().insert(clog),
            final(self).conns() == old(self).conns(),
            final(self).endpoints() == old(self).endpoints(),
            forall|j: int, k: int| 0 <= j < k < idx@.len() ==> idx@[j] < idx@[k],
            forall|j: int| 0 <= j < idx@.len() ==> idx@[j] < old(self).conns().len()
                && conn_matches(old(self).conns()[idx@[j] as int], clog),
            forall|i: int| 0 <= i < old(self).conns().len() && conn_matches(old(self).conns()[i], clog)
                ==> idx@.contains(i as usize),
            idx@ == matching_indices(old(self).conns(), clog, old(self).conns().len()),
            forall|i: int| 0 <= i < old(self).conns().len() ==> (idx@.contains(i as usize)
                <==> old(self).conns()[i].source.ip == clog.source && old(self).conns()[i].dest.ip == clog.dest),
    {
        let count = self.connections.len();
        proof {
            assert(count == self.conns().len());
            lemma_matching_indices_exact(self.conns(), clog, self.conns().len());
        }
        let ghost before = self.clogged@;
        if self.clog_index(clog).is_none() {
            self.clogged.push(clog);
            proof {
                assert(self.clogged@.no_duplicates()) by {
                    assert forall|x: int, y: int| 0 <= x < self.clogged@.len() && 0 <= y < self.clogged@.len() && x != y
                        implies self.clogged@[x] != self.clogged@[y] by {
                        if x < before.len() && y < before.len() {
                            assert(before[x] != before[y]);
                        } else if x < before.len() {
                            assert(before.contains(before[x]));
                        } else if y < before.len() {
                            assert(before.contains(before[y]));
                        }
                    }
                }
                assert forall|c: CloggedConnection| #[trigger] self.clogged@.contains(c) == (before.contains(c) || c == clog) by {
                    if self.clogged@.contains(c) && c != clog {
                        let w = choose|w: int| 0 <= w < self.clogged@.len() && self.clogged@[w] == c;
                        assert(before[w] == c);
                    }
                    if before.contains(c) {
                        let w = choose|w: int| 0 <= w < before.len() && before[w] == c;
                        assert(self.clogged@[w] == c);
                    }
                    if c == clog {
                        assert(self.clogged@[before.len() as int] == c);
                    }
                }
                assert(self.clogged() =~= old(self).clogged().insert(clog));
            }
        } else {
            assert(self.clogged() =~= old(self).clogged().insert(clog));
        }
        self.matching_connections(clog)
    }

    /// Stops clogging new connections from one IP to another, and returns the indices of
    /// the existing connections between them, which must be unclogged too.
    pub fn unclog_connection(&mut self, unclog: CloggedConnection) -> (idx: Vec<usize>)
        requires
            old(self).wf(),
        ensures
            final(self).wf(),
            final(self).clogged() == old(self).clogged().remove(unclog),
            final(self).conns() == old(self).conns(),
            final(self).endpoints() == old(self).endpoints(),
            forall|j: int, k: int| 0 <= j < k < idx@.len() ==> idx@[j] < idx@[k],
            forall|j: int| 0 <= j < idx@.len() ==> idx@[j] < old(self).conns().len()
                && conn_matches(old(self).conns()[idx@[j] as int], unclog),
            forall|i: int| 0 <= i < old(self).conns().len() && conn_matches(old(self).conns()[i], unclog)
                ==> idx@.contains(i as usize),
            idx@ == matching_indices(old(self).conns(), unclog, old(self).conns().len()),
            forall|i: int| 0 <= i < old(self).conns().len() ==> (idx@.contains(i as usize)
                <==> old(self).conns()[i].source.ip == unclog.source && old(self).conns()[i].dest.ip == unclog.dest),
    {
        let count = self.connections.len();
        proof {
            assert(count == self.conns().len());
            lemma_matching_indices_exact(self.conns(), unclog, self.conns().len());
        }
        let ghost before = self.clogged@;
        match self.clog_index(unclog) {
            Some(i) => {
                self.clogged.remove(i);
                proof {
                    assert(self.clogged@ =~= before.remove(i as int));
                    assert(self.clogged@.no_duplicates()) by {
                        assert forall|x: int, y: int| 0 <= x < self.clogged@.len() && 0 <= y < self.clogged@.len() && x != y
                            implies self.clogged@[x] != self.clogged@[y] by {
                            let xo = if x < i { x } else { x + 1 };
                            let yo = if y < i { y } else { y + 1 };
                            assert(self.clogged@[x] == before[xo]);
                            assert(self.clogged@[y] == before[yo]);
                        }
                    }
                    assert forall|c: CloggedConnection| #[trigger] self.clogged@.contains(c) == (before.contains(c) && c != unclog) by {
                        if before.contains(c) && c != unclog {
                            let w = choose|w: int| 0 <= w < before.len() && before[w] == c;
                            assert(w != i);
                            let wn = if w < i { w } else { w - 1 };
                            assert(self.clogged@[wn] == c);
                        }
                        if self.clogged@.contains(c) {
                            let w = choose|w: int| 0 <= w < self.clogged@.len() && self.clogged@[w] == c;
                            let wo = if w < i { w } else { w + 1 };
                            assert(before[wo] == c);
                            assert(wo != i);
                        }
                    }
                    assert(self.clogged() =~= old(self).clogged().remove(unclog));
                }
            },
            None => {
                assert(self.clogged() =~= old(self).clogged().remove(unclog));
            },
        }
        self.matching_connections(unclog)
    }

    /// The index of the endpoint for `addr`, if any.
    fn find_endpoint(&self, addr: SocketAddress) -> (r: Option<usize>)
        requires
            self.wf(),
        ensures
            r is None ==> !self.endpoints().contains_key(addr),
            r matches Some(i) ==> i < self.endpoints@.len() && self.endpoints@[i as int].addr == addr,
    {
        let mut i: usize = 0;
        while i < self.endpoints.len()
            invariant
                i <= self.endpoints@.len(),
                forall|j: int| 0 <= j < i ==> #[trigger] self.endpoints@[j].addr != addr,
            decreases self.endpoints.len() - i,
        {
            if self.endpoints[i].addr == addr {
                return Some(i);
            }
            i = i + 1;
        }
        proof {
            if endpoint_map(self.endpoints@).contains_key(addr) {
                let j = choose|j: int| 0 <= j < self.endpoints@.len() && #[trigger] self.endpoints@[j].addr == addr;
                assert(self.endpoints@[j].addr != addr);
            }
        }
        None
    }

    /// Binds a listener to `bind_addr`, after dropping the connections flagged in `dropped`.
    /// An unbound endpoint becomes bound and its queued receiving end is returned; a bound
    /// one refuses with address-in-use; with none, a bound endpoint is created from the
    /// fresh queue `fresh_tx`/`fresh_rx` and its receiving end is returned.
    pub fn listen(&mut self, bind_addr: SocketAddress, dropped: &Vec<bool>, fresh_tx: T, fresh_rx: R) -> (r: Result<R, IoErrorKind>)
        requires
            old(self).wf(),
            dropped@.len() == old(self).conns().len(),
        ensures
            final(self).wf(),
            final(self).conns() == retained(old(self).conns(), dropped@),
            final(self).clogged() == old(self).clogged(),
            (r, final(self).endpoints()) == listen_outcome(old(self).endpoints(), bind_addr, fresh_tx, fresh_rx),
    {
        self.gc_dropped(dropped);
        match self.find_endpoint(bind_addr) {
            Some(i) => {
                let ghost eps = self.endpoints@;
                proof { lemma_endpoint_map_at(eps, i as int); }
                let ep = self.endpoints.remove(i);
                match ep.state {
                    ListenerState::Unbound { tx, rx } => {
                        let ghost ne = Endpoint { addr: bind_addr, state: ListenerState::<T, R>::Bound { tx } };
                        self.endpoints.insert(i, Endpoint { addr: bind_addr, state: ListenerState::Bound { tx } });
                        proof {
                            assert(self.endpoints@ =~= eps.update(i as int, ne));
                            lemma_endpoint_map_update(eps, i as int, ne);
                        }
                        Ok(rx)
                    },
                    ListenerState::Bound { tx } => {
                        self.endpoints.insert(i, Endpoint { addr: bind_addr, state: ListenerState::Bound { tx } });
                        proof {
                            assert(self.endpoints@ =~= eps);
                        }
                        Err(IoErrorKind::AddrInUse)
                    },
                }
            },
            None => {
                let ghost eps = self.endpoints@;
                let ghost ne = Endpoint { addr: bind_addr, state: ListenerState::<T, R>::Bound { tx: fresh_tx } };
                self.endpoints.push(Endpoint { addr: bind_addr, state: ListenerState::Bound { tx: fresh_tx } });
                proof {
                    lemma_endpoint_map_push(eps, ne);
                }
                Ok(fresh_rx)
            },
        }
    }

    /// The first step of opening a connection from `source_ip`: forgets the connections
    /// whose `dropped` flag is set, then picks the highest source port that no remaining
    /// connection from `source_ip` uses; `None` when every port is in use.
    pub fn begin_connect(&mut self, source_ip: IpAddress, dropped: &Vec<bool>) -> (p: Option<u16>)
        requires
            old(self).wf(),
            dropped@.len() == old(self).conns().len(),
        ensures
            final(self).wf(),
            final(self).conns() == retained(old(self).conns(), dropped@),
            final(self).clogged() == old(self).clogged(),
            final(self).endpoints() == old(self).endpoints(),
            p is None <==> forall|q: u16| port_occupied(final(self).conns(), source_ip, q),
            p matches Some(port) ==> !port_occupied(final(self).conns(), source_ip, port)
                && forall|q: u16| port < q ==> port_occupied(final(self).conns(), source_ip, q),
    {
        self.gc_dropped(dropped);
        if !self.has_unused_socket_port(source_ip) {
            return None;
        }
        Some(self.unused_socket_port(source_ip))
    }

    /// The second step: registers the connection from `source` to `dest` with its fault
    /// handles, then makes sure that `dest` has an endpoint to queue it on. Returns whether
    /// the connection starts clogged, or address-in-use (registering nothing) when some
    /// connection already has `source` as its source.
    pub fn finish_connect(
        &mut self,
        source: SocketAddress,
        dest: SocketAddress,
        client_fault_handle: H,
        server_fault_handle: H,
        fresh_tx: T,
        fresh_rx: R,
    ) -> (r: Result<bool, IoErrorKind>)
        requires
            old(self).wf(),
        ensures
            final(self).wf(),
            final(self).clogged() == old(self).clogged(),
            final(self).endpoints() == ensure_outcome(old(self).endpoints(), dest, fresh_tx, fresh_rx),
            final(self).endpoints().contains_key(dest),
            port_occupied(old(self).conns(), source.ip, source.port) ==> {
                &&& r == Err::<bool, IoErrorKind>(IoErrorKind::AddrInUse)
                &&& final(self).conns() == old(self).conns()
            },
            !port_occupied(old(self).conns(), source.ip, source.port) ==> {
                &&& r == Ok::<bool, IoErrorKind>(old(self).clogs(source, dest))
                &&& final(self).conns() == old(self).conns().push(Connection::new_spec(source, dest, client_fault_handle, server_fault_handle))
            },
    {
        assert(source == (SocketAddress { ip: source.ip, port: source.port }));
        let r = self.register_new_connection_pair(source, dest, client_fault_handle, server_fault_handle);
        self.ensure_endpoint(dest, fresh_tx, fresh_rx);
        r
    }

    /// Makes sure that `dest` has an endpoint for new connections to be queued on: an
    /// existing one is kept; otherwise an unbound one holding the fresh queue is registered.
    pub fn ensure_endpoint(&mut self, dest: SocketAddress, fresh_tx: T, fresh_rx: R)
        requires
            old(self).wf(),
        ensures
            final(self).wf(),
            final(self).conns() == old(self).conns(),
            final(self).clogged() == old(self).clogged(),
            final(self).endpoints() == ensure_outcome(old(self).endpoints(), dest, fresh_tx, fresh_rx),
    {
        match self.find_endpoint(dest) {
            Some(_) => {},
            None => {
                let ghost eps = self.endpoints@;
                let ghost ne = Endpoint { addr: dest, state: ListenerState::<T, R>::Unbound { tx: fresh_tx, rx: fresh_rx } };
                self.endpoints.push(Endpoint { addr: dest, state: ListenerState::Unbound { tx: fresh_tx, rx: fresh_rx } });
                proof {
                    lemma_endpoint_map_push(eps, ne);
                }
            },
        }
    }

    /// The sending end of the queue of the endpoint for `dest`.
    pub fn endpoint_sender(&self, dest: SocketAddress) -> (tx: &T)
        requires
            self.wf(),
            self.endpoints().contains_key(dest),
        ensures
            *tx == self.endpoints()[dest].sender(),
    {
        let i = self.find_endpoint(dest).unwrap();
        proof { lemma_endpoint_map_at(self.endpoints@, i as int); }
        match &self.endpoints[i].state {
            ListenerState::Unbound { tx, .. } => tx,
            ListenerState::Bound { tx } => tx,
        }
    }
}

impl<H> Connection<H> {
    pub open spec fn new_spec(source: SocketAddress, dest: SocketAddress, client_fault_handle: H, server_fault_handle: H) -> Connection<H> {
        Connection { source, dest, client_fault_handle, server_fault_handle }
    }
}

} // verus!
