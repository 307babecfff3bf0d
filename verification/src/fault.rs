//! Probabilistic injection of delay and disconnect faults.
//!
//! A `FaultInjector` is either real, drawing from a seeded random source, or a no-op
//! that never injects anything. Delays are returned as deadlines in mock time.
use crate::clock::MAX_DURATION_NANOS;
use crate::random::{DeterministicRandom, Draw};
use rand::distributions::Bernoulli;
use vstd::prelude::*;

verus! {

/// A half-open range `[start, end)` of durations, in nanoseconds.
#[derive(Clone, Copy, Debug, PartialEq, Eq, Structural)]
pub struct DurationRange {
    pub start: u64,
    pub end: u64,
}

impl DurationRange {
    pub fn new(start: u64, end: u64) -> (r: DurationRange)
        ensures
            r.start == start,
            r.end == end,
    {
        DurationRange { start, end }
    }

    pub open spec fn nonempty(self) -> bool {
        self.start < self.end
    }
}

/// Default upper bound (exclusive) of a new-connection delay: 10 s, in nanoseconds.
pub const DEFAULT_LISTENER_DELAY_MAX: u64 = 10_000_000_000;

/// Default upper bound (exclusive) of a socket read or write delay: 5 s, in nanoseconds.
pub const DEFAULT_SOCKET_DELAY_MAX: u64 = 5_000_000_000;

/// Fault configuration: for each kind of delay, the range its length is drawn from and
/// the probability that it is injected; and the probability of a disconnect.
#[derive(Debug)]
pub struct FaultConfig {
    pub listener_connection_delay: DurationRange,
    pub listener_connection_delay_prob: Bernoulli,
    pub socket_read_delay: DurationRange,
    pub socket_read_delay_prob: Bernoulli,
    pub socket_write_delay: DurationRange,
    pub socket_write_delay_prob: Bernoulli,
    pub disconnect_prob: Bernoulli,
}

impl FaultConfig {
    /// Every delay range is non-empty, so that a delay can always be drawn from it.
    pub open spec fn wf(&self) -> bool {
        &&& self.listener_connection_delay.nonempty()
        &&& self.socket_read_delay.nonempty()
        &&& self.socket_write_delay.nonempty()
    }

    /// The default delay ranges, 0 to 10 s for new connections and 0 to 5 s for socket reads
    /// and writes, with the given probabilities.
    pub fn with_probabilities(
        listener_connection_delay_prob: Bernoulli,
        socket_read_delay_prob: Bernoulli,
        socket_write_delay_prob: Bernoulli,
        disconnect_prob: Bernoulli,
    ) -> (c: FaultConfig)
        ensures
            c.wf(),
            c.listener_connection_delay == (DurationRange { start: 0, end: DEFAULT_LISTENER_DELAY_MAX }),
            c.socket_read_delay == (DurationRange { start: 0, end: DEFAULT_SOCKET_DELAY_MAX }),
            c.socket_write_delay == (DurationRange { start: 0, end: DEFAULT_SOCKET_DELAY_MAX }),
            c.listener_connection_delay_prob == listener_connection_delay_prob,
            c.socket_read_delay_prob == socket_read_delay_prob,
            c.socket_write_delay_prob == socket_write_delay_prob,
            c.disconnect_prob == disconnect_prob,
    {
        FaultConfig {
            listener_connection_delay: DurationRange::new(0, DEFAULT_LISTENER_DELAY_MAX),
            listener_connection_delay_prob,
            socket_read_delay: DurationRange::new(0, DEFAULT_SOCKET_DELAY_MAX),
            socket_read_delay_prob,
            socket_write_delay: DurationRange::new(0, DEFAULT_SOCKET_DELAY_MAX),
            socket_write_delay_prob,
            disconnect_prob,
        }
    }
}

/// The draws that rolling for a delay at `now` makes, given the resulting `delay`: a coin
/// flip with `probability` that comes up exactly when there is a delay and then, for a
/// delay ending at `x`, the duration `x - now` drawn from `range`. A no-op injector draws
/// nothing.
pub open spec fn delay_roll(noop: bool, probability: Bernoulli, range: DurationRange, now: u128, delay: Option<u128>) -> Seq<Draw> {
    if noop {
        Seq::empty()
    } else {
        match delay {
            Some(x) => seq![Draw::Bernoulli(probability, true), Draw::Duration(range.start, range.end, (x - now) as u64)],
            None => seq![Draw::Bernoulli(probability, false)],
        }
    }
}

/// The draws that rolling for an index makes, given the resulting `index`: a coin flip
/// with `probability` that comes up exactly when there is an index and then that index,
/// drawn from `[low, high)`. A no-op injector draws nothing.
pub open spec fn index_roll(noop: bool, probability: Bernoulli, low: usize, high: usize, index: Option<usize>) -> Seq<Draw> {
    if noop {
        Seq::empty()
    } else {
        match index {
            Some(i) => seq![Draw::Bernoulli(probability, true), Draw::Index(low, high, i)],
            None => seq![Draw::Bernoulli(probability, false)],
        }
    }
}

/// A fired delay is the drawn duration: when rolling at `now` logged `delay_roll` and gave
/// a deadline `x` within `range` of `now`, the log ends with a duration drawn from `range`
/// and `x` is `now` plus exactly that duration, after a coin flip that came up; with no
/// deadline, the only draw is a coin flip that did not come up.
pub proof fn lemma_delay_is_drawn_duration(
    before: Seq<Draw>,
    after: Seq<Draw>,
    probability: Bernoulli,
    range: DurationRange,
    now: u128,
    delay: Option<u128>,
)
    requires
        after == before + delay_roll(false, probability, range, now, delay),
        range.end <= u64::MAX,
        delay matches Some(x) ==> now + range.start <= x < now + range.end,
    ensures
        delay is None ==> after == before.push(Draw::Bernoulli(probability, false)),
        delay matches Some(x) ==> {
            &&& after.len() == before.len() + 2
            &&& after[before.len() as int] == Draw::Bernoulli(probability, true)
            &&& after.last() matches Draw::Duration(lo, hi, v)
                && lo == range.start && hi == range.end && range.start <= v < range.end && x == now + v
        },
{
    if delay is None {
        assert(after =~= before.push(Draw::Bernoulli(probability, false)));
    }
}

/// The deadline of a delay decided at `now`: `now` plus the drawn duration, when one was
/// drawn; no delay otherwise.
pub fn delay_deadline(now: u128, drawn: Option<u64>) -> (d: Option<u128>)
    requires
        now <= MAX_DURATION_NANOS,
    ensures
        d == match drawn {
            Some(duration) => Some((now + duration) as u128),
            None => None::<u128>,
        },
{
    match drawn {
        Some(duration) => Some(now + duration as u128),
        None => None,
    }
}

/// The source of faults: a seeded random generator, or nothing.
pub enum FaultSource {
    Real { random: DeterministicRandom },
    Noop,
}

/// A fault injector.
pub struct FaultInjector {
    config: FaultConfig,
    source: FaultSource,
}

impl FaultInjector {
    pub closed spec fn is_noop(&self) -> bool {
        self.source is Noop
    }

    pub closed spec fn config(&self) -> &FaultConfig {
        &self.config
    }

    /// The draws made so far from the injector's generator; none for a no-op injector.
    pub closed spec fn draws(&self) -> Seq<Draw> {
        match self.source {
            FaultSource::Real { random } => random.draws(),
            FaultSource::Noop => Seq::empty(),
        }
    }

    /// The seed of the injector's generator; `None` for a no-op injector.
    pub closed spec fn seed(&self) -> Option<u64> {
        match self.source {
            FaultSource::Real { random } => Some(random.seed()),
            FaultSource::Noop => None,
        }
    }

    pub closed spec fn wf(&self) -> bool {
        self.config.wf()
    }

    /// An injector that never injects a fault.
    pub fn new_noop(config: FaultConfig) -> (f: FaultInjector)
        requires
            config.wf(),
        ensures
            f.wf(),
            f.is_noop(),
            *f.config() == config,
            f.seed() is None,
            f.draws() == Seq::<Draw>::empty(),
    {
        FaultInjector { config, source: FaultSource::Noop }
    }

    /// An injector whose decisions are drawn from a generator seeded with `seed`.
    pub fn new(seed: u64, config: FaultConfig) -> (f: FaultInjector)
        requires
            config.wf(),
        ensures
            f.wf(),
            !f.is_noop(),
            *f.config() == config,
            f.seed() == Some(seed),
            f.draws() == Seq::<Draw>::empty(),
    {
        FaultInjector { config, source: FaultSource::Real { random: DeterministicRandom::new_with_seed(seed) } }
    }

    /// Whether to inject a fault: a coin flip with `probability`; never, for a no-op
    /// injector.
    fn should_fault(&mut self, probability: Bernoulli) -> (b: bool)
        ensures
            old(self).is_noop() ==> !b,
            final(self).is_noop() == old(self).is_noop(),
            final(self).config == old(self).config,
            final(self).seed() == old(self).seed(),
            final(self).draws() == old(self).draws() + (if old(self).is_noop() {
                Seq::<Draw>::empty()
            } else {
                seq![Draw::Bernoulli(probability, b)]
            }),
    {
        match &mut self.source {
            FaultSource::Real { random } => random.should_fault(&probability),
            FaultSource::Noop => false,
        }
    }

    /// With the given probability, a delay whose length is drawn from `range`, returned as
    /// its deadline `now + length`.
    fn maybe_new_delay(&mut self, probability: Bernoulli, range: DurationRange, now: u128) -> (d: Option<u128>)
        requires
            range.nonempty(),
            now <= MAX_DURATION_NANOS,
        ensures
            old(self).is_noop() ==> d is None,
            d matches Some(deadline) ==> now + range.start <= deadline < now + range.end,
            final(self).is_noop() == old(self).is_noop(),
            final(self).config == old(self).config,
            final(self).seed() == old(self).seed(),
            final(self).draws() == old(self).draws() + delay_roll(old(self).is_noop(), probability, range, now, d),
    {
        let drawn = if self.should_fault(probability) {
            match &mut self.source {
                FaultSource::Real { random } => Some(random.gen_duration(range.start, range.end)),
                FaultSource::Noop => None,
            }
        } else {
            None
        };
        proof {
            let d = match drawn { Some(v) => Some((now + v) as u128), None => None::<u128> };
            assert(self.draws() =~= old(self).draws() + delay_roll(old(self).is_noop(), probability, range, now, d));
        }
        delay_deadline(now, drawn)
    }

    /// With the given probability, an index drawn from `[low, high)`.
    fn random_idx(&mut self, probability: Bernoulli, low: usize, high: usize) -> (i: Option<usize>)
        requires
            low < high,
        ensures
            old(self).is_noop() ==> i is None,
            i matches Some(idx) ==> low <= idx < high,
            final(self).is_noop() == old(self).is_noop(),
            final(self).config == old(self).config,
            final(self).seed() == old(self).seed(),
            final(self).draws() == old(self).draws() + index_roll(old(self).is_noop(), probability, low, high, i),
    {
        let i = if self.should_fault(probability) {
            match &mut self.source {
                FaultSource::Real { random } => Some(random.gen_index(low, high)),
                FaultSource::Noop => None,
            }
        } else {
            None
        };
        proof {
            assert(self.draws() =~= old(self).draws() + index_roll(old(self).is_noop(), probability, low, high, i));
        }
        i
    }

    /// Possibly a delay for a new connection on a listener, as a deadline: a coin flip with
    /// the listener delay probability and, when it comes up, a length from the listener
    /// delay range.
    pub fn listener_delay(&mut self, now: u128) -> (d: Option<u128>)
        requires
            old(self).wf(),
            now <= MAX_DURATION_NANOS,
        ensures
            final(self).wf(),
            old(self).is_noop() ==> d is None,
            d matches Some(deadline) ==> now + old(self).config().listener_connection_delay.start <= deadline
                < now + old(self).config().listener_connection_delay.end,
            final(self).is_noop() == old(self).is_noop(),
            final(self).config() == old(self).config(),
            final(self).seed() == old(self).seed(),
            final(self).draws() == old(self).draws() + delay_roll(old(self).is_noop(),
                old(self).config().listener_connection_delay_prob, old(self).config().listener_connection_delay, now, d),
    {
        let prob = self.config.listener_connection_delay_prob;
        let range = self.config.listener_connection_delay;
        self.maybe_new_delay(prob, range, now)
    }

    /// Possibly a delay for a socket read, as a deadline: a coin flip with the socket read
    /// delay probability and, when it comes up, a length from the socket read delay range.
    pub fn socket_read_delay(&mut self, now: u128) -> (d: Option<u128>)
        requires
            old(self).wf(),
            now <= MAX_DURATION_NANOS,
        ensures
            final(self).wf(),
            old(self).is_noop() ==> d is None,
            d matches Some(deadline) ==> now + old(self).config().socket_read_delay.start <= deadline
                < now + old(self).config().socket_read_delay.end,
            final(self).is_noop() == old(self).is_noop(),
            final(self).config() == old(self).config(),
            final(self).seed() == old(self).seed(),
            final(self).draws() == old(self).draws() + delay_roll(old(self).is_noop(),
                old(self).config().socket_read_delay_prob, old(self).config().socket_read_delay, now, d),
    {
        let prob = self.config.socket_read_delay_prob;
        let range = self.config.socket_read_delay;
        self.maybe_new_delay(prob, range, now)
    }

    /// Possibly a delay for a socket write, as a deadline: a coin flip with the socket write
    /// delay probability and, when it comes up, a length from the socket write delay range.
    pub fn socket_write_delay(&mut self, now: u128) -> (d: Option<u128>)
        requires
            old(self).wf(),
            now <= MAX_DURATION_NANOS,
        ensures
            final(self).wf(),
            old(self).is_noop() ==> d is None,
            d matches Some(deadline) ==> now + old(self).config().socket_write_delay.start <= deadline
                < now + old(self).config().socket_write_delay.end,
            final(self).is_noop() == old(self).is_noop(),
            final(self).config() == old(self).config(),
            final(self).seed() == old(self).seed(),
            final(self).draws() == old(self).draws() + delay_roll(old(self).is_noop(),
                old(self).config().socket_write_delay_prob, old(self).config().socket_write_delay, now, d),
    {
        let prob = self.config.socket_write_delay_prob;
        let range = self.config.socket_write_delay;
        self.maybe_new_delay(prob, range, now)
    }

    /// Possibly the index, in `[low, high)`, of a connection to disconnect: a coin flip with
    /// the disconnect probability and, when it comes up, an index from `[low, high)`.
    pub fn pick_rand_connection_disconnect(&mut self, low: usize, high: usize) -> (i: Option<usize>)
        requires
            old(self).wf(),
            low < high,
        ensures
            final(self).wf(),
            old(self).is_noop() ==> i is None,
            i matches Some(idx) ==> low <= idx < high,
            final(self).is_noop() == old(self).is_noop(),
            final(self).config() == old(self).config(),
            final(self).seed() == old(self).seed(),
            final(self).draws() == old(self).draws() + index_roll(old(self).is_noop(), old(self).config().disconnect_prob,
                low, high, i),
    {
        let prob = self.config.disconnect_prob;
        self.random_idx(prob, low, high)
    }
}

} // verus!
