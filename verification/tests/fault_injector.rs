use rand::distributions::Bernoulli;
use simulation::fault::{FaultConfig, FaultInjector, DEFAULT_LISTENER_DELAY_MAX, DEFAULT_SOCKET_DELAY_MAX};
use simulation::random::{random_delay_deadline, DeterministicRandom};

fn config(p: f64) -> FaultConfig {
    let b = Bernoulli::new(p).unwrap();
    FaultConfig::with_probabilities(b, b, b, b)
}

#[test]
fn noop_injector_never_faults() {
    let mut f = FaultInjector::new_noop(config(1.0));
    for now in 0..100u128 {
        assert_eq!(f.listener_delay(now), None);
        assert_eq!(f.socket_read_delay(now), None);
        assert_eq!(f.socket_write_delay(now), None);
        assert_eq!(f.pick_rand_connection_disconnect(0, 10), None);
    }
}

#[test]
fn certain_faults_fall_in_their_ranges() {
    let mut f = FaultInjector::new(42, config(1.0));
    let now = 1_000u128;
    let d = f.listener_delay(now).unwrap();
    assert!(now <= d && d < now + DEFAULT_LISTENER_DELAY_MAX as u128);
    let d = f.socket_read_delay(now).unwrap();
    assert!(now <= d && d < now + DEFAULT_SOCKET_DELAY_MAX as u128);
    let d = f.socket_write_delay(now).unwrap();
    assert!(now <= d && d < now + DEFAULT_SOCKET_DELAY_MAX as u128);
    let i = f.pick_rand_connection_disconnect(3, 5).unwrap();
    assert!(3 <= i && i < 5);
}

#[test]
fn impossible_faults_never_happen() {
    let mut f = FaultInjector::new(42, config(0.0));
    for now in 0..100u128 {
        assert_eq!(f.socket_read_delay(now), None);
    }
}

#[test]
fn same_seed_same_faults() {
    let mut a = FaultInjector::new(9, config(0.5));
    let mut b = FaultInjector::new(9, config(0.5));
    for now in 0..50u128 {
        assert_eq!(a.socket_read_delay(now), b.socket_read_delay(now));
    }
}

#[test]
fn random_delays_are_whole_milliseconds_in_range() {
    let mut r = DeterministicRandom::new_with_seed(5);
    for _ in 0..20 {
        let d = random_delay_deadline(&mut r, 7, 100, 5000);
        let ms = (d - 7) / 1_000_000;
        assert_eq!((d - 7) % 1_000_000, 0);
        assert!(100 <= ms && ms < 5000);
    }
    let mut r = DeterministicRandom::new();
    let x = r.gen_duration(10, 20);
    assert!(10 <= x && x < 20);
    let i = r.gen_index(0, 3);
    assert!(i < 3);
}

#[test]
fn delay_deadline_adds_the_drawn_duration() {
    assert_eq!(simulation::fault::delay_deadline(5, Some(7)), Some(12));
    assert_eq!(simulation::fault::delay_deadline(5, None), None);
    assert_eq!(simulation::fault::delay_deadline(0, Some(0)), Some(0));
}
