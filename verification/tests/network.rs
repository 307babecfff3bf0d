use simulation::addr::{IpAddress, SocketAddress};
use simulation::network::NetworkState;
use simulation::pipe::Pipe;
use simulation::poll::{IoErrorKind, Poll};
use simulation::swizzle::CloggedConnection;

/// Queues are modelled by numbers: sender `n` belongs with receiver `n`.
type Net = NetworkState<u32, u32, u32>;

fn addr(a: u8, b: u8, c: u8, d: u8, port: u16) -> SocketAddress {
    SocketAddress::new(IpAddress::v4(a, b, c, d), port)
}

fn no_drops(net: &Net) -> Vec<bool> {
    vec![false; net.connections().len()]
}

/// A connection as the network handle makes it: drop dead connections, pick the highest
/// free source port, register the pair, and find the endpoint's queue.
fn connect(net: &mut Net, source: IpAddress, dest: SocketAddress, fresh: u32) -> (SocketAddress, bool, u32) {
    let dropped = no_drops(net);
    let port = net.begin_connect(source, &dropped).expect("a free source port");
    let source_addr = SocketAddress::new(source, port);
    let clogged = net.finish_connect(source_addr, dest, 0, 0, fresh, fresh).unwrap();
    let tx = *net.endpoint_sender(dest);
    (source_addr, clogged, tx)
}

#[test]
fn bind_and_dial() {
    let mut net: Net = NetworkState::new();
    let bind = addr(127, 0, 0, 1, 9092);
    let dropped = no_drops(&net);
    let listener = net.listen(bind, &dropped, 1, 1).unwrap();
    let (_, _, tx) = connect(&mut net, IpAddress::localhost(), bind, 2);
    assert_eq!(tx, listener, "the connection is queued on the listener's channel");

    // the server answers a ping with a pong over the connection's pipes
    let mut to_server = Pipe::new();
    let mut to_client = Pipe::new();
    let mut buf = [0u8; 8];
    assert_eq!(to_server.poll_write(b"ping\n"), Poll::Ready(Ok(5)));
    assert_eq!(to_server.poll_read(&mut buf), Poll::Ready(5));
    assert_eq!(&buf[..5], b"ping\n");
    assert_eq!(to_client.poll_write(b"pong\n"), Poll::Ready(Ok(5)));
    assert_eq!(to_client.poll_read(&mut buf), Poll::Ready(5));
    let response = std::str::from_utf8(&buf[..4]).unwrap();
    assert_eq!(response, String::from("pong"));
}

#[test]
fn test_scoped_registration() {
    let mut net: Net = NetworkState::new();
    let common_addr = addr(127, 0, 0, 1, 9092);
    let network1_addr = common_addr.with_ip(IpAddress::v4(10, 0, 0, 1));
    let network2_addr = common_addr.with_ip(IpAddress::v4(10, 0, 0, 2));
    let dropped = no_drops(&net);
    assert_eq!(net.listen(network1_addr, &dropped, 1, 1), Ok(1));
    assert_eq!(net.listen(network2_addr, &dropped, 2, 2), Ok(2));
    assert_ne!(network1_addr, network2_addr, "expected listener local addrs to be different");
}

#[test]
fn late_binding_hands_queue_to_listener() {
    let mut net: Net = NetworkState::new();
    let server = addr(10, 0, 0, 1, 80);
    let (_, _, tx) = connect(&mut net, IpAddress::v4(10, 0, 0, 2), server, 7);
    assert_eq!(tx, 7);
    let dropped = no_drops(&net);
    assert_eq!(net.listen(server, &dropped, 8, 8), Ok(7), "the listener receives the queue the connection went to");
    let dropped = no_drops(&net);
    assert_eq!(net.listen(server, &dropped, 9, 9), Err(IoErrorKind::AddrInUse));
    assert_eq!(*net.endpoint_sender(server), 7);
}

#[test]
fn source_ports_count_down_and_are_reused_after_gc() {
    let mut net: Net = NetworkState::new();
    let client = IpAddress::v4(10, 0, 0, 2);
    let server = addr(10, 0, 0, 1, 80);
    let (a, _, _) = connect(&mut net, client, server, 1);
    let (b, _, _) = connect(&mut net, client, server, 1);
    assert_eq!(a.port, 65535);
    assert_eq!(b.port, 65534);
    // another IP has its own ports
    let (c, _, _) = connect(&mut net, IpAddress::v4(10, 0, 0, 3), server, 1);
    assert_eq!(c.port, 65535);
    // the first connection went away
    net.gc_dropped(&vec![true, false, false]);
    assert_eq!(net.connections().len(), 2);
    assert_eq!(net.unused_socket_port(client), 65535);
    // a source address in use is refused
    assert_eq!(net.register_new_connection_pair(b, server, 0, 0), Err(IoErrorKind::AddrInUse));
}

#[test]
fn clogging_applies_to_existing_and_new_connections() {
    let mut net: Net = NetworkState::new();
    let client = IpAddress::v4(10, 0, 0, 2);
    let other = IpAddress::v4(10, 0, 0, 3);
    let server = addr(10, 0, 0, 1, 80);
    connect(&mut net, client, server, 1);
    connect(&mut net, other, server, 1);
    connect(&mut net, client, server, 1);
    let clog = CloggedConnection::new(client, server.ip);
    assert_eq!(net.clog_connection(clog), vec![0, 2]);
    assert!(net.should_clog(SocketAddress::new(client, 1), server));
    assert!(!net.should_clog(SocketAddress::new(other, 1), server));
    let (_, clogged, _) = connect(&mut net, client, server, 1);
    assert!(clogged, "new connections between clogged IPs start clogged");
    assert_eq!(net.unclog_connection(clog), vec![0, 2, 3]);
    assert!(!net.should_clog(SocketAddress::new(client, 1), server));
    let (_, clogged, _) = connect(&mut net, client, server, 1);
    assert!(!clogged);
}

#[test]
fn connect_steps_collect_dropped_connections_first() {
    let mut net: Net = NetworkState::new();
    let client = IpAddress::v4(10, 0, 0, 2);
    let server = addr(10, 0, 0, 1, 80);
    let (a, _, _) = connect(&mut net, client, server, 1);
    assert_eq!(a.port, 65535);
    // the connection is dropped: its port is free again for the next connection
    assert_eq!(net.begin_connect(client, &vec![true]), Some(65535));
    assert_eq!(net.connections().len(), 0);
    let taken = SocketAddress::new(client, 65535);
    assert_eq!(net.finish_connect(taken, server, 0, 0, 2, 2), Ok(false));
    // the same source again is refused, but the endpoint stays
    assert_eq!(net.finish_connect(taken, server, 0, 0, 3, 3), Err(IoErrorKind::AddrInUse));
    assert_eq!(net.connections().len(), 1);
    assert_eq!(*net.endpoint_sender(server), 1);
}
