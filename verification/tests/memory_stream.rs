use rand::distributions::Bernoulli;
use simulation::fault::{FaultConfig, FaultInjector};
use simulation::memstream::{memory_pair_addrs, MemoryStreamAddrs, MemoryStreamFaultInjector, StreamMode};
use simulation::pipe::Pipe;
use simulation::poll::{IoErrorKind, Poll};

fn noop_faults() -> FaultInjector {
    let p = Bernoulli::new(0.1).unwrap();
    FaultInjector::new_noop(FaultConfig::with_probabilities(p, p, p, p))
}

/// One side of an in-memory connection: its fault injector, and the pipes it reads from
/// and writes to (indices into the pair's two pipes).
struct Side {
    injector: MemoryStreamFaultInjector,
    reads_from: usize,
    writes_to: usize,
}

struct Pair {
    pipes: [Pipe; 2],
    client: Side,
    server: Side,
}

fn new_pair() -> Pair {
    Pair {
        pipes: [Pipe::new(), Pipe::new()],
        client: Side { injector: MemoryStreamFaultInjector::new(StreamMode::Client), reads_from: 1, writes_to: 0 },
        server: Side { injector: MemoryStreamFaultInjector::new(StreamMode::Server), reads_from: 0, writes_to: 1 },
    }
}

fn write(pipes: &mut [Pipe; 2], side: &mut Side, faults: &mut FaultInjector, data: &[u8]) -> Poll<Result<usize, IoErrorKind>> {
    match side.injector.poll_io(0, faults) {
        Poll::Pending => Poll::Pending,
        Poll::Ready(Err(e)) => Poll::Ready(Err(e)),
        Poll::Ready(Ok(())) => pipes[side.writes_to].poll_write(data),
    }
}

fn read(pipes: &mut [Pipe; 2], side: &mut Side, faults: &mut FaultInjector, buf: &mut [u8]) -> Poll<Result<usize, IoErrorKind>> {
    match side.injector.poll_io(0, faults) {
        Poll::Pending => Poll::Pending,
        Poll::Ready(Err(e)) => Poll::Ready(Err(e)),
        Poll::Ready(Ok(())) => match pipes[side.reads_from].poll_read(buf) {
            Poll::Ready(n) => Poll::Ready(Ok(n)),
            Poll::Pending => Poll::Pending,
        },
    }
}

#[test]
fn test_ping_pong() {
    let mut faults = noop_faults();
    let mut pair = new_pair();
    let mut buf = [0u8; 16];
    for _ in 0..100usize {
        assert_eq!(write(&mut pair.pipes, &mut pair.client, &mut faults, b"ping\n"), Poll::Ready(Ok(5)));
        assert_eq!(read(&mut pair.pipes, &mut pair.server, &mut faults, &mut buf), Poll::Ready(Ok(5)));
        assert_eq!(&buf[..5], b"ping\n");
        assert_eq!(write(&mut pair.pipes, &mut pair.server, &mut faults, b"pong\n"), Poll::Ready(Ok(5)));
        assert_eq!(read(&mut pair.pipes, &mut pair.client, &mut faults, &mut buf), Poll::Ready(Ok(5)));
        assert_eq!(&buf[..5], b"pong\n");
    }
}

#[test]
fn test_disconnect() {
    let mut faults = noop_faults();
    let mut pair = new_pair();
    let mut buf = [0u8; 16];
    let mut server_status: Result<(), IoErrorKind> = Ok(());
    for msg_num in 0..5 {
        if msg_num >= 3 {
            pair.client.injector.set_disconnected();
            pair.server.injector.set_disconnected();
            assert!(matches!(write(&mut pair.pipes, &mut pair.client, &mut faults, b"ping\n"), Poll::Ready(Err(_))));
            assert!(matches!(read(&mut pair.pipes, &mut pair.client, &mut faults, &mut buf), Poll::Ready(Err(_))));
            if let Poll::Ready(Err(e)) = read(&mut pair.pipes, &mut pair.server, &mut faults, &mut buf) {
                server_status = Err(e);
            }
        } else {
            assert_eq!(write(&mut pair.pipes, &mut pair.client, &mut faults, b"ping\n"), Poll::Ready(Ok(5)));
            assert_eq!(read(&mut pair.pipes, &mut pair.server, &mut faults, &mut buf), Poll::Ready(Ok(5)));
            assert_eq!(write(&mut pair.pipes, &mut pair.server, &mut faults, b"pong\n"), Poll::Ready(Ok(5)));
            assert_eq!(read(&mut pair.pipes, &mut pair.client, &mut faults, &mut buf), Poll::Ready(Ok(5)));
            assert_eq!(&buf[..5], b"pong\n");
        }
    }
    assert!(server_status.is_err(), "expected server to terminate because the client connection was closed");
}

#[test]
fn test_client_disconnect_wake() {
    let mut faults = noop_faults();
    let mut pair = new_pair();
    let mut buf = [0u8; 16];
    // the pong server runs on the client side of the pair
    assert_eq!(read(&mut pair.pipes, &mut pair.client, &mut faults, &mut buf), Poll::Pending,
        "expected the server status to be pending due to the MemoryConnection still being open");
    assert_eq!(pair.client.injector.poll_disconnected(), Poll::Pending);
    pair.client.injector.set_disconnected();
    assert_eq!(pair.client.injector.poll_disconnected(), Poll::Ready(IoErrorKind::ConnectionAborted));
    let server_status = read(&mut pair.pipes, &mut pair.client, &mut faults, &mut buf);
    assert_eq!(server_status, Poll::Ready(Err(IoErrorKind::ConnectionAborted)),
        "expected server to terminate because the client connection was closed");
}

#[test]
fn test_server_disconnect_wake() {
    let mut faults = noop_faults();
    let mut pair = new_pair();
    let mut buf = [0u8; 16];
    assert_eq!(read(&mut pair.pipes, &mut pair.client, &mut faults, &mut buf), Poll::Pending,
        "expected the server status to be pending due to the MemoryConnection still being open");
    pair.server.injector.set_disconnected();
    let result = write(&mut pair.pipes, &mut pair.server, &mut faults, b"foo");
    assert!(matches!(result, Poll::Ready(Err(_))), "expected write to fail because the server was disconnected");
}

#[test]
fn memory_pair_addresses() {
    let (client, server) = memory_pair_addrs(9092);
    assert_eq!(client.port, 0);
    assert_eq!(server.port, 9092);
    assert_eq!(client.ip, server.ip);
    let server_side = MemoryStreamAddrs::new(server, client);
    assert_eq!(server_side.local_addr(), server);
    assert_eq!(server_side.stream_peer_addr(), client);
    assert_eq!(server_side.peer_addr(), server, "the inherent accessor answers with the local address");
}

#[test]
fn delay_holds_back_next_poll() {
    let always = Bernoulli::new(1.0).unwrap();
    let mut faults = FaultInjector::new(1, FaultConfig::with_probabilities(always, always, always, always));
    let mut side = MemoryStreamFaultInjector::new(StreamMode::Server);
    // no delay yet: this poll goes through and rolls one for the next poll
    assert_eq!(side.poll_delay(0, &mut faults), Poll::Ready(()));
    let deadline = side.delay_deadline().expect("a certain fault injects a delay");
    assert!(deadline < 5_000_000_000);
    if deadline > 0 {
        assert_eq!(side.poll_io(deadline - 1, &mut faults), Poll::Pending);
    }
    assert_eq!(side.poll_io(deadline, &mut faults), Poll::Ready(Ok(())));
}
