use rand::distributions::Bernoulli;
use simulation::addr::IpAddress;
use simulation::clock::MockClock;
use simulation::poll::Poll;
use simulation::random::DeterministicRandom;
use simulation::swizzle::{CloggedConnection, SwizzleAction, SwizzleClogInjector, Swizzler};

/// Runs a swizzler to completion, advancing mock time to each pending deadline.
fn run_to_completion(swizzler: &mut Swizzler, random: &mut DeterministicRandom, clock: &mut MockClock) -> Vec<SwizzleAction> {
    let mut results = vec![];
    loop {
        match swizzler.poll_next(clock.now(), random) {
            Poll::Ready(Some(action)) => results.push(action),
            Poll::Ready(None) => return results,
            Poll::Pending => {
                let deadline = swizzler.pending_deadline().expect("a pending swizzler waits for a deadline");
                assert!(deadline > clock.now());
                clock.advance(deadline - clock.now());
            }
        }
    }
}

#[test]
fn swizzle_clog_generator() {
    let mut random = DeterministicRandom::new();
    let mut clock = MockClock::new();
    let conn1 = CloggedConnection::new(IpAddress::v4(10, 0, 0, 1), IpAddress::v4(10, 0, 0, 2));
    let conn2 = CloggedConnection::new(IpAddress::v4(10, 0, 0, 2), IpAddress::v4(10, 0, 0, 3));
    let conn3 = CloggedConnection::new(IpAddress::v4(10, 0, 0, 3), IpAddress::v4(10, 0, 0, 1));

    let mut swizzler = Swizzler::new(vec![conn1, conn2, conn3]);
    let results = run_to_completion(&mut swizzler, &mut random, &mut clock);
    assert_eq!(results.len(), 6, "expected 6 actions from 3 connections, clog and unclog");
    assert_eq!(
        vec![
            SwizzleAction::Clog(conn1),
            SwizzleAction::Clog(conn2),
            SwizzleAction::Clog(conn3),
            SwizzleAction::Unclog(conn3),
            SwizzleAction::Unclog(conn2),
            SwizzleAction::Unclog(conn1)
        ],
        results
    );
}

#[test]
fn swizzle_of_nothing_ends_without_actions() {
    let mut random = DeterministicRandom::new_with_seed(7);
    let mut clock = MockClock::new();
    let mut swizzler = Swizzler::new(vec![]);
    let results = run_to_completion(&mut swizzler, &mut random, &mut clock);
    assert!(results.is_empty());
    // a finished swizzler keeps answering that it is done
    assert_eq!(swizzler.poll_next(clock.now(), &mut random), Poll::Ready(None));
}

#[test]
fn swizzle_waits_before_starting_and_between_steps() {
    let mut random = DeterministicRandom::new_with_seed(3);
    let conn = CloggedConnection::new(IpAddress::v4(10, 0, 0, 1), IpAddress::v4(10, 0, 0, 2));
    let mut swizzler = Swizzler::new(vec![conn]);
    let start = 1_000u128;
    match swizzler.poll_next(start, &mut random) {
        Poll::Pending => {
            let deadline = swizzler.pending_deadline().unwrap();
            assert!(deadline > start && deadline < start + 120_000_000_000);
        }
        Poll::Ready(_) => {
            // a zero-length start pause: the first action is the clog
        }
    }
    let mut clock = MockClock::new();
    clock.advance(start);
    let results = run_to_completion(&mut swizzler, &mut random, &mut clock);
    assert_eq!(results.last(), Some(&SwizzleAction::Unclog(conn)));
}

#[test]
fn swizzle_injector_picks_only_after_start() {
    let mut random = DeterministicRandom::new();
    let always = Bernoulli::new(1.0).unwrap();
    let never = Bernoulli::new(0.0).unwrap();
    let conns = vec![
        CloggedConnection::new(IpAddress::v4(10, 0, 0, 1), IpAddress::v4(10, 0, 0, 2)),
        CloggedConnection::new(IpAddress::v4(10, 0, 0, 2), IpAddress::v4(10, 0, 0, 3)),
    ];
    let mut injector = SwizzleClogInjector::new();
    injector.ensure_swizzle_collection(&conns, &mut random, &always);
    assert!(injector.picked().is_empty(), "nothing is picked before the swizzle starts");
    assert!(!injector.fault_started(&mut random, &never));
    assert!(injector.fault_started(&mut random, &always));
    assert!(injector.fault_started(&mut random, &never), "a started swizzle stays started");
    let none = Bernoulli::new(0.0).unwrap();
    injector.ensure_swizzle_collection(&conns, &mut random, &none);
    assert!(injector.picked().is_empty());
}

#[test]
fn swizzle_injector_collects_picked_connections_once() {
    let mut random = DeterministicRandom::new();
    let always = Bernoulli::new(1.0).unwrap();
    let conns = vec![
        CloggedConnection::new(IpAddress::v4(10, 0, 0, 1), IpAddress::v4(10, 0, 0, 2)),
        CloggedConnection::new(IpAddress::v4(10, 0, 0, 2), IpAddress::v4(10, 0, 0, 3)),
    ];
    let mut injector = SwizzleClogInjector::new();
    assert!(injector.fault_started(&mut random, &always));
    injector.ensure_swizzle_collection(&conns, &mut random, &always);
    assert_eq!(injector.picked(), &conns);
    let more = vec![CloggedConnection::new(IpAddress::v4(10, 0, 0, 9), IpAddress::v4(10, 0, 0, 8))];
    injector.ensure_swizzle_collection(&more, &mut random, &always);
    assert_eq!(injector.picked(), &conns, "a non-empty selection is kept");
}

#[test]
fn swizzle_completes_within_its_pause_bounds() {
    let n: u128 = 4;
    for seed in 0..20u64 {
        let mut random = DeterministicRandom::new_with_seed(seed);
        let mut clock = MockClock::new();
        let conns: Vec<CloggedConnection> = (0..n as u8)
            .map(|i| CloggedConnection::new(IpAddress::v4(10, 0, 0, i), IpAddress::v4(10, 0, 1, i)))
            .collect();
        let mut swizzler = Swizzler::new(conns);
        let results = run_to_completion(&mut swizzler, &mut random, &mut clock);
        assert_eq!(results.len() as u128, 2 * n);
        // start pause < 120 s, unswizzle pause < 120 s, 2(n + 1) progression pauses < 10 s
        assert!(clock.now() < 240_000_000_000 + 20_000_000_000 * (n + 1));
    }
}
