use simulation::pipe::Pipe;
use simulation::poll::{IoErrorKind, Poll};
use simulation::socket::{FaultyPipe, SocketPair};
use simulation::fault::FaultInjector;
use simulation::fault::FaultConfig;
use rand::distributions::Bernoulli;

/// Writes all of `data`, chunk after chunk, letting `drain` read in between.
fn write_all(pipe: &mut Pipe, data: &[u8], out: &mut Vec<u8>) {
    let mut written = 0;
    while written < data.len() {
        match pipe.poll_write(&data[written..]) {
            Poll::Ready(Ok(n)) => written += n,
            Poll::Ready(Err(e)) => panic!("write failed: {:?}", e),
            Poll::Pending => drain(pipe, out, 4),
        }
    }
}

fn drain(pipe: &mut Pipe, out: &mut Vec<u8>, cap: usize) {
    let mut buf = vec![0u8; cap];
    while let Poll::Ready(n) = pipe.poll_read(&mut buf) {
        if n == 0 {
            return;
        }
        out.extend_from_slice(&buf[..n]);
    }
}

fn noop_faults() -> FaultInjector {
    let p = Bernoulli::new(0.1).unwrap();
    FaultInjector::new_noop(FaultConfig::with_probabilities(p, p, p, p))
}

#[test]
fn pipe_bounded_pipe() {
    // the plain pipe
    let mut pipe = Pipe::new();
    let mut target = vec![];
    write_all(&mut pipe, "foo".as_bytes(), &mut target);
    write_all(&mut pipe, "bar".as_bytes(), &mut target);
    write_all(&mut pipe, "baz".as_bytes(), &mut target);
    drain(&mut pipe, &mut target, 9);
    assert_eq!(std::str::from_utf8(&target[..]).unwrap(), "foobarbaz");

    // the pipe with delay faults, seeded with 3: reading the same data through it makes
    // mock time advance
    let p = Bernoulli::new(0.25).unwrap();
    let mut faults = FaultInjector::new(3, FaultConfig::with_probabilities(p, p, p, p));
    let mut pipe = FaultyPipe::new();
    let time_before = 0u128;
    let mut now = time_before;
    let mut target = vec![];
    let mut pending = vec![b"foo".to_vec(), b"bar".to_vec(), b"baz".to_vec()];
    let mut buf = vec![0u8; 9];
    while target.len() < 9 {
        let mut progressed = false;
        if let Some(chunk) = pending.first().cloned() {
            if let Poll::Ready(Ok(n)) = pipe.poll_write(now, &mut faults, &chunk) {
                assert_eq!(n, chunk.len());
                pending.remove(0);
                progressed = true;
            }
        }
        if let Poll::Ready(n) = pipe.poll_read(now, &mut faults, &mut buf) {
            target.extend_from_slice(&buf[..n]);
            progressed = true;
        }
        if !progressed {
            // nothing can move: let mock time run to the earliest outstanding delay
            let next = [pipe.read_delay_deadline(), pipe.write_delay_deadline()]
                .iter()
                .filter_map(|d| *d)
                .min()
                .expect("a stalled faulty pipe waits for a delay");
            now = next;
        }
    }
    assert_eq!(std::str::from_utf8(&target[..]).unwrap(), "foobarbaz");
    let time_after = now;
    assert!(time_after > time_before, "expected with a seed of 3, the timer would advance");
}

#[test]
fn pipe_shutdown_pipe() {
    let mut pipe = Pipe::new();
    assert_eq!(pipe.poll_write("foo".as_bytes()), Poll::Ready(Ok(3)));
    assert_eq!(pipe.poll_shutdown(), Ok(()));
    assert!(
        matches!(pipe.poll_write("foo".as_bytes()), Poll::Ready(Err(_))),
        "expected write to fail after shutdown"
    );
    let mut target = vec![0; 0];
    assert_eq!(pipe.poll_read(&mut target[..]), Poll::Ready(0), "expected to read 0 bytes from shutdown pipe");

    let mut faults = noop_faults();
    let mut pipe = FaultyPipe::new();
    assert_eq!(pipe.poll_write(0, &mut faults, "foo".as_bytes()), Poll::Ready(Ok(3)));
    assert_eq!(pipe.poll_shutdown(), Ok(()));
    assert_eq!(
        pipe.poll_write(0, &mut faults, "foo".as_bytes()),
        Poll::Ready(Err(IoErrorKind::BrokenPipe)),
        "expected write to fail after shutdown"
    );
    assert_eq!(pipe.poll_read(0, &mut faults, &mut target[..]), Poll::Ready(0), "expected to read 0 bytes from shutdown pipe");
}

#[test]
fn pipe_write_then_read_round_trip() {
    let mut pipe = Pipe::new();
    assert_eq!(pipe.poll_write(b"hello"), Poll::Ready(Ok(5)));
    assert_eq!(pipe.poll_write(b"again"), Poll::Pending, "one chunk at a time");
    let mut dst = [0u8; 3];
    assert_eq!(pipe.poll_read(&mut dst), Poll::Ready(3));
    assert_eq!(&dst, b"hel");
    let mut dst = [9u8; 4];
    assert_eq!(pipe.poll_read(&mut dst), Poll::Ready(2));
    assert_eq!(&dst, &[b'l', b'o', 9, 9]);
    assert_eq!(pipe.poll_read(&mut dst), Poll::Pending);
    assert_eq!(pipe.poll_flush(), Ok(()));
    pipe.mark_dropped();
    assert_eq!(pipe.poll_flush(), Err(IoErrorKind::BrokenPipe));
    assert_eq!(pipe.poll_read(&mut dst), Poll::Ready(0));
}

#[test]
fn pingpong() {
    // a socket pair with no delay faults
    let mut faults = noop_faults();
    let server_addr = simulation::addr::SocketAddress::new(simulation::addr::IpAddress::localhost(), 9092);
    let mut pair = SocketPair::new(server_addr);
    assert_eq!(pair.server_local_addr(), server_addr);
    assert_eq!(pair.server_peer_addr().port, 0);
    let mut buf = [0u8; 16];
    for _ in 0..100 {
        // client sends "ping\n" into its pipe; the server reads it from there
        assert_eq!(pair.client.poll_write(0, &mut faults, b"ping\n"), Poll::Ready(Ok(5)));
        assert_eq!(pair.client.poll_read(0, &mut faults, &mut buf), Poll::Ready(5));
        assert_eq!(&buf[..5], b"ping\n");
        // server answers "pong\n" into its pipe; the client reads it from there
        assert_eq!(pair.server.poll_write(0, &mut faults, b"pong\n"), Poll::Ready(Ok(5)));
        assert_eq!(pair.server.poll_read(0, &mut faults, &mut buf), Poll::Ready(5));
        assert_eq!(&buf[..5], b"pong\n");
    }
    pair.shutdown();
    assert_eq!(pair.client.poll_flush(), Err(IoErrorKind::BrokenPipe));
    assert_eq!(pair.server.poll_read(0, &mut faults, &mut buf), Poll::Ready(0));
}

#[test]
fn empty_write_succeeds_and_buffers_nothing() {
    let mut pipe = Pipe::new();
    assert_eq!(pipe.poll_write(&[]), Poll::Ready(Ok(0)));
    let mut dst = [0u8; 4];
    assert_eq!(pipe.poll_read(&mut dst), Poll::Pending);

    let mut faulty = FaultyPipe::new();
    let mut faults = noop_faults();
    assert_eq!(faulty.poll_write(0, &mut faults, &[]), Poll::Ready(Ok(0)));
    assert_eq!(faulty.poll_read(0, &mut faults, &mut dst), Poll::Pending);
}
