use simulation::pipe::Pipe;
use simulation::poll::{IoErrorKind, Poll};
use simulation::stream_fault::{clog_connection_sides, connection_is_clogged, unclog_connection_sides, StreamFaultState};

const SECOND: u128 = 1_000_000_000;

/// A faulty stream in these tests: fault state in front of a pipe. Wakers are numbers.
struct Faulty {
    faults: StreamFaultState<u32>,
    incoming: Pipe,
    outgoing: Pipe,
}

impl Faulty {
    fn read(&mut self, now: u128, buf: &mut [u8]) -> Poll<Result<usize, IoErrorKind>> {
        match self.faults.poll_receive_delay(now, 1) {
            Poll::Pending => Poll::Pending,
            Poll::Ready(Err(e)) => Poll::Ready(Err(e)),
            Poll::Ready(Ok(())) => match self.incoming.poll_read(buf) {
                Poll::Ready(n) => Poll::Ready(Ok(n)),
                Poll::Pending => Poll::Pending,
            },
        }
    }

    fn write(&mut self, now: u128, data: &[u8]) -> Poll<Result<usize, IoErrorKind>> {
        match self.faults.poll_send_delay(now, 2) {
            Poll::Pending => Poll::Pending,
            Poll::Ready(Err(e)) => Poll::Ready(Err(e)),
            Poll::Ready(Ok(())) => self.outgoing.poll_write(data),
        }
    }
}

fn client_at(now: u128) -> Faulty {
    Faulty { faults: StreamFaultState::wrap(now), incoming: Pipe::new(), outgoing: Pipe::new() }
}

#[test]
fn faults() {
    let start_time = 0u128;
    let mut client = client_at(start_time);
    client.faults.set_receive_latency(10 * SECOND);
    let mut buf = [0u8; 32];
    // the first poll passes the latency gate but finds nothing yet
    assert_eq!(client.read(start_time, &mut buf), Poll::Pending);
    // the server sends a message
    assert_eq!(client.incoming.poll_write(b"Hello Future!\n"), Poll::Ready(Ok(14)));
    // the next read has to wait out the receive latency
    assert_eq!(client.read(start_time, &mut buf), Poll::Pending);
    let now = start_time + 10 * SECOND;
    assert_eq!(client.read(now, &mut buf), Poll::Ready(Ok(14)));
    assert_eq!(&buf[..14], b"Hello Future!\n");
    let elapsed = now - start_time;
    assert!(elapsed >= 10 * SECOND);
    client.faults.disconnect();
    let result = client.read(now + 20 * SECOND, &mut buf);
    assert!(matches!(result, Poll::Ready(Err(_))), "expected final stream item to cause a disconnect");
}

#[test]
fn clogging() {
    let mut client = client_at(0);
    assert_eq!(client.faults.clog_receives(), None);
    assert_eq!(client.faults.clog_sends(), None);
    assert!(client.faults.is_fully_clogged());
    assert_eq!(client.write(0, b"ping\n"), Poll::Pending, "expected clogged socket to be pending");
    assert_eq!(client.faults.unclog_sends(), Some(2), "unclogging hands back the parked sender's waker");
    assert_eq!(client.write(0, b"ping\n"), Poll::Ready(Ok(5)), "expected socket send to be ready after unclogging sends");

    // the server answers
    assert_eq!(client.incoming.poll_write(b"Hello Future!\n"), Poll::Ready(Ok(14)));
    let mut buf = [0u8; 32];
    assert_eq!(client.read(0, &mut buf), Poll::Pending, "expected clogged socket to be pending");
    assert_eq!(client.faults.unclog_receives(), Some(1));
    assert!(!client.faults.is_fully_clogged());
    assert_eq!(client.read(0, &mut buf), Poll::Ready(Ok(14)));
    assert_eq!(&buf[..14], b"Hello Future!\n");
}

#[test]
fn inactive_faults() {
    let mut client = client_at(0);
    assert_eq!(client.incoming.poll_write(b"Hello Future!\n"), Poll::Ready(Ok(14)));
    let mut buf = [0u8; 32];
    assert_eq!(client.read(0, &mut buf), Poll::Ready(Ok(14)));
    assert_eq!(&buf[..14], b"Hello Future!\n");
}

#[test]
fn disconnect_unblocks() {
    let mut client = client_at(0);
    let mut buf = [0u8; 32];
    // nothing to read yet
    assert_eq!(client.read(0, &mut buf), Poll::Pending);
    client.faults.disconnect();
    let result = client.read(0, &mut buf);
    assert_eq!(result, Poll::Ready(Err(IoErrorKind::BrokenPipe)), "expected future to resolve in disconnect error");
}

#[test]
fn send_latency_spaces_sends() {
    let mut s: StreamFaultState<u32> = StreamFaultState::wrap(100);
    s.set_send_latency(50);
    assert_eq!(s.poll_send_delay(100, 0), Poll::Ready(Ok(())));
    assert_eq!(s.poll_send_delay(149, 0), Poll::Pending);
    assert_eq!(s.poll_send_delay(150, 0), Poll::Ready(Ok(())));
    assert_eq!(s.poll_send_delay(199, 0), Poll::Pending);
}

#[test]
fn connection_sides_clog_together() {
    let mut client: StreamFaultState<u32> = StreamFaultState::wrap(0);
    let mut server: StreamFaultState<u32> = StreamFaultState::wrap(0);
    assert!(!connection_is_clogged(&client, &server));
    assert_eq!(clog_connection_sides(&mut client, &mut server), (None, None, None, None));
    assert!(connection_is_clogged(&client, &server));
    assert_eq!(client.poll_receive_delay(0, 7), Poll::Pending);
    assert_eq!(unclog_connection_sides(&mut client, &mut server), (None, Some(7), None, None));
    assert!(!connection_is_clogged(&client, &server));
}

#[test]
fn disconnected_stream_refuses_every_operation() {
    let mut client = client_at(0);
    assert_eq!(client.incoming.poll_write(b"line\n"), Poll::Ready(Ok(5)));
    client.faults.disconnect();
    let mut buf = [0u8; 8];
    for now in [0, SECOND, 100 * SECOND].iter() {
        assert_eq!(client.read(*now, &mut buf), Poll::Ready(Err(IoErrorKind::BrokenPipe)));
        assert_eq!(client.write(*now, b"x"), Poll::Ready(Err(IoErrorKind::BrokenPipe)));
    }
    // clogging a disconnected stream does not bring it back
    let _ = client.faults.clog_sends();
    let _ = client.faults.clog_receives();
    assert_eq!(client.read(200 * SECOND, &mut buf), Poll::Ready(Err(IoErrorKind::BrokenPipe)));
    assert_eq!(client.write(200 * SECOND, b"x"), Poll::Ready(Err(IoErrorKind::BrokenPipe)));
    // the bytes waiting in the pipe were never read
    assert_eq!(client.incoming.poll_read(&mut buf), Poll::Ready(5));
}

#[test]
fn clog_then_unclog_restores_both_sides() {
    let mut client: StreamFaultState<u32> = StreamFaultState::wrap(0);
    let mut server: StreamFaultState<u32> = StreamFaultState::wrap(0);
    client.set_send_latency(SECOND);
    let _ = clog_connection_sides(&mut client, &mut server);
    assert!(connection_is_clogged(&client, &server));
    assert_eq!(client.poll_send_delay(0, 7), Poll::Pending);
    let wakers = unclog_connection_sides(&mut client, &mut server);
    assert_eq!(wakers, (Some(7), None, None, None), "the parked send is handed back to be woken");
    assert!(!client.is_fully_clogged() && !server.is_fully_clogged());
    // the send latency survived the round trip
    assert_eq!(client.poll_send_delay(0, 1), Poll::Ready(Ok(())));
    assert_eq!(client.poll_send_delay(SECOND / 2, 1), Poll::Pending);
    assert_eq!(client.poll_send_delay(SECOND, 1), Poll::Ready(Ok(())));
}
