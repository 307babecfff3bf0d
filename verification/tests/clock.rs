use simulation::clock::MockClock;

const SECOND: u128 = 1_000_000_000;

/// Parks the mock runtime until the earliest of `deadlines`: time jumps straight to it.
fn park_until_next(clock: &mut MockClock, deadlines: &[u128]) -> u128 {
    let next = *deadlines.iter().filter(|d| **d >= clock.now()).min().unwrap();
    let remaining = next - clock.now();
    assert_eq!(clock.park_timeout(remaining), 0);
    clock.now()
}

fn delays_scenario() {
    let mut clock = MockClock::new();
    let start_time = clock.now();
    let deadline = clock.deadline_from(30 * SECOND);
    park_until_next(&mut clock, &[deadline]);
    let end_time = clock.now();
    assert!(end_time > start_time);
    assert_eq!(end_time - 30 * SECOND, start_time)
}

fn ordering_scenario() {
    let mut clock = MockClock::new();
    let delay1 = clock.deadline_from(10 * SECOND);
    let delay2 = clock.deadline_from(30 * SECOND);
    let completed_at1 = park_until_next(&mut clock, &[delay1, delay2]);
    let completed_at2 = park_until_next(&mut clock, &[delay2]);
    assert!(completed_at1 < completed_at2)
}

#[test]
fn mod_delays() {
    delays_scenario();
}

#[test]
fn deterministic_delays() {
    delays_scenario();
}

#[test]
fn mod_ordering() {
    ordering_scenario();
}

#[test]
fn deterministic_ordering() {
    ordering_scenario();
}

#[test]
fn clock_advances_additively() {
    let mut clock = MockClock::new();
    assert_eq!(clock.now(), 0);
    clock.advance(5);
    clock.advance(7);
    assert_eq!(clock.now(), 12);
    assert_eq!(clock.deadline_from(3), 15);
    assert_eq!(clock.now(), 12, "computing a deadline does not move time");
}
