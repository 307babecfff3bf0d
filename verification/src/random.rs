//! A deterministic source of randomness, seeded once, backed by `rand`'s `SmallRng`.
use rand::distributions::Bernoulli;
use rand::rngs::SmallRng;
use rand::Rng;
use vstd::prelude::*;

verus! {

#[verifier::external_type_specification]
#[verifier::external_body]
pub struct ExSmallRng(SmallRng);

#[verifier::external_type_specification]
#[verifier::external_body]
pub struct ExBernoulli(Bernoulli);

/// `rand::SeedableRng::seed_from_u64` for `SmallRng`. Nothing is claimed of the
/// generator's state.
#[verifier::external_body]
fn small_rng_from_seed(seed: u64) -> SmallRng {
    rand::SeedableRng::seed_from_u64(seed)
}

/// `Rng::gen_range` on `std::time::Duration` bounds, given and returned in nanoseconds.
/// `rand` documents that it panics unless `low < high` and that the result lies in
/// `[low, high)`; nothing more is claimed.
#[verifier::external_body]
fn small_rng_gen_duration(rng: &mut SmallRng, low: u64, high: u64) -> (r: u64)
    requires
        low < high,
    ensures
        low <= r < high,
{
    rng.gen_range(std::time::Duration::from_nanos(low), std::time::Duration::from_nanos(high)).as_nanos() as u64
}

/// `Rng::gen_range` on `usize` bounds: panics unless `low < high`; the result lies in
/// `[low, high)`.
#[verifier::external_body]
fn small_rng_gen_usize(rng: &mut SmallRng, low: usize, high: usize) -> (r: usize)
    requires
        low < high,
    ensures
        low <= r < high,
{
    rng.gen_range(low, high)
}

/// `Rng::gen_range` on `u128` bounds: panics unless `low < high`; the result lies in
/// `[low, high)`.
#[verifier::external_body]
fn small_rng_gen_u128(rng: &mut SmallRng, low: u128, high: u128) -> (r: u128)
    requires
        low < high,
    ensures
        low <= r < high,
{
    rng.gen_range(low, high)
}

/// `Rng::sample` with a `Bernoulli` distribution: a coin flip whose outcome depends on
/// the generator's state; nothing is claimed of it.
#[verifier::external_body]
fn small_rng_sample_bernoulli(rng: &mut SmallRng, dist: &Bernoulli) -> bool {
    rng.sample(*dist)
}

/// A draw made from a generator: the distribution it was made from, and its value.
pub enum Draw {
    /// A coin flip with the given distribution, and how it came up.
    Bernoulli(Bernoulli, bool),
    /// A duration, in nanoseconds, from `[low, high)`: `Duration(low, high, value)`.
    Duration(u64, u64, u64),
    /// An index from `[low, high)`: `Index(low, high, value)`.
    Index(usize, usize, usize),
    /// A number of milliseconds from `[low, high)`: `Millis(low, high, value)`.
    Millis(u128, u128, u128),
    /// The generator itself was handed out, for draws of kinds not modelled here.
    Direct,
}

/// A deterministic random number generator: the same seed yields the same stream. It
/// keeps, as ghost state, the seed it was made with and the log of the draws made from it.
pub struct DeterministicRandom {
    rng: SmallRng,
    seed: Ghost<u64>,
    draws: Ghost<Seq<Draw>>,
}

impl DeterministicRandom {
    /// The underlying generator's state.
    pub closed spec fn generator(&self) -> SmallRng {
        self.rng
    }

    /// The seed this generator was made with.
    pub closed spec fn seed(&self) -> u64 {
        self.seed@
    }

    /// The draws made so far, in order, each with the distribution it was made from and
    /// the value it gave.
    pub closed spec fn draws(&self) -> Seq<Draw> {
        self.draws@
    }

    /// A generator seeded with zero.
    pub fn new() -> (r: DeterministicRandom)
        ensures
            r.seed() == 0,
            r.draws() == Seq::<Draw>::empty(),
    {
        DeterministicRandom::new_with_seed(0)
    }

    /// A generator seeded with `seed`.
    pub fn new_with_seed(seed: u64) -> (r: DeterministicRandom)
        ensures
            r.seed() == seed,
            r.draws() == Seq::<Draw>::empty(),
    {
        DeterministicRandom { rng: small_rng_from_seed(seed), seed: Ghost(seed), draws: Ghost(Seq::empty()) }
    }

    /// Decides whether a fault happens: a coin flip with the distribution `probability`.
    pub fn should_fault(&mut self, probability: &Bernoulli) -> (b: bool)
        ensures
            final(self).seed() == old(self).seed(),
            final(self).draws() == old(self).draws().push(Draw::Bernoulli(*probability, b)),
    {
        let b = small_rng_sample_bernoulli(&mut self.rng, probability);
        self.draws = Ghost(self.draws@.push(Draw::Bernoulli(*probability, b)));
        b
    }

    /// A duration, in nanoseconds, drawn from `[low, high)`.
    pub fn gen_duration(&mut self, low: u64, high: u64) -> (r: u64)
        requires
            low < high,
        ensures
            low <= r < high,
            final(self).seed() == old(self).seed(),
            final(self).draws() == old(self).draws().push(Draw::Duration(low, high, r)),
    {
        let r = small_rng_gen_duration(&mut self.rng, low, high);
        self.draws = Ghost(self.draws@.push(Draw::Duration(low, high, r)));
        r
    }

    /// An index drawn from `[low, high)`.
    pub fn gen_index(&mut self, low: usize, high: usize) -> (r: usize)
        requires
            low < high,
        ensures
            low <= r < high,
            final(self).seed() == old(self).seed(),
            final(self).draws() == old(self).draws().push(Draw::Index(low, high, r)),
    {
        let r = small_rng_gen_usize(&mut self.rng, low, high);
        self.draws = Ghost(self.draws@.push(Draw::Index(low, high, r)));
        r
    }

    /// The underlying generator, for draws of kinds that this crate does not model; the
    /// hand-out is logged as a direct draw.
    pub fn rng_mut(&mut self) -> (r: &mut SmallRng)
        ensures
            *r == old(self).generator(),
            final(self).generator() == *final(r),
            final(self).seed() == old(self).seed(),
            final(self).draws() == old(self).draws().push(Draw::Direct),
    {
        self.draws = Ghost(self.draws@.push(Draw::Direct));
        &mut self.rng
    }

    /// A number of milliseconds drawn from `[low, high)`.
    pub fn gen_millis(&mut self, low: u128, high: u128) -> (r: u128)
        requires
            low < high,
        ensures
            low <= r < high,
            final(self).seed() == old(self).seed(),
            final(self).draws() == old(self).draws().push(Draw::Millis(low, high, r)),
    {
        let r = small_rng_gen_u128(&mut self.rng, low, high);
        self.draws = Ghost(self.draws@.push(Draw::Millis(low, high, r)));
        r
    }
}

/// Nanoseconds in a millisecond.
pub const NANOS_PER_MILLI: u128 = 1_000_000;

/// The length, in nanoseconds, of a delay of `ms` milliseconds once truncated to 64 bits.
pub open spec fn truncated_millis_nanos(ms: u128) -> int {
    (ms as u64) * NANOS_PER_MILLI
}

/// The deadline of a random delay: a whole number of milliseconds is drawn from
/// `[from_ms, to_ms)`, truncated to 64 bits as a millisecond count, and added to `now`.
pub fn random_delay_deadline(random: &mut DeterministicRandom, now: u128, from_ms: u128, to_ms: u128) -> (d: u128)
    requires
        from_ms < to_ms,
        now <= crate::clock::MAX_DURATION_NANOS,
    ensures
        exists|ms: u128| from_ms <= ms < to_ms && d == now + #[trigger] truncated_millis_nanos(ms),
        final(random).seed() == old(random).seed(),
        final(random).draws().len() == old(random).draws().len() + 1,
        final(random).draws().drop_last() == old(random).draws(),
        final(random).draws().last() matches Draw::Millis(lo, hi, ms)
            && lo == from_ms && hi == to_ms && d == now + truncated_millis_nanos(ms),
{
    let ms = random.gen_millis(from_ms, to_ms);
    let truncated = ms as u64;
    assert(truncated * NANOS_PER_MILLI <= 18446744073709551615u128 * 1000000) by (nonlinear_arith)
        requires truncated <= 18446744073709551615u64;
    let d = now + (truncated as u128) * NANOS_PER_MILLI;
    assert(from_ms <= ms < to_ms && d == now + truncated_millis_nanos(ms));
    d
}

} // verus!
