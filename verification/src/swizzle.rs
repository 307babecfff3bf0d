//! The "swizzle clog" network fault generator popularized by FoundationDB.
//!
//! Connections are clogged one after another, in the order given, with a random pause
//! before each step. Once all are clogged, and after a longer random pause, they are
//! unclogged one after another in the reverse order.
use crate::addr::IpAddress;
use crate::clock::MAX_DURATION_NANOS;
use crate::poll::Poll;
use crate::random::{DeterministicRandom, Draw};
use rand::distributions::Bernoulli;
use vstd::prelude::*;

verus! {

/// Upper bound (exclusive), in nanoseconds, of the random pause before swizzling starts: 120 s.
pub const SWIZZLE_START_DELAY_MAX: u64 = 120_000_000_000;

/// Upper bound (exclusive), in nanoseconds, of the random pause between two clogging
/// actions: 10 s.
pub const SWIZZLE_PROGRESSION_INTERVAL_MAX: u64 = 10_000_000_000;

/// Upper bound (exclusive), in nanoseconds, of the random pause between clogging the last
/// connection and unclogging the first: 120 s.
pub const SWIZZLE_UNSWIZZLE_PAUSE_MAX: u64 = 120_000_000_000;

/// Traffic from one IP address to another which is, or is to be, clogged.
#[derive(Clone, Copy, Debug, PartialEq, Eq, Structural)]
pub struct CloggedConnection {
    pub source: IpAddress,
    pub dest: IpAddress,
}

impl CloggedConnection {
    pub fn new(source: IpAddress, dest: IpAddress) -> (c: CloggedConnection)
        ensures
            c.source == source,
            c.dest == dest,
    {
        CloggedConnection { source, dest }
    }

    pub fn source(&self) -> (ip: IpAddress)
        ensures
            ip == self.source,
    {
        self.source
    }

    pub fn dest(&self) -> (ip: IpAddress)
        ensures
            ip == self.dest,
    {
        self.dest
    }
}

/// An action that the swizzler asks the network to perform.
#[derive(Clone, Copy, Debug, PartialEq, Eq, Structural)]
pub enum SwizzleAction {
    Clog(CloggedConnection),
    Unclog(CloggedConnection),
}

/// Progress of a swizzle: `Idle` -> `Clog` -> `ReverseIdle` -> `Unclog`.
#[derive(Clone, Copy, Debug, PartialEq, Eq, Structural)]
pub enum SwizzleState {
    /// Waiting for the start pause to elapse.
    Idle,
    /// Clogging the remaining connections one by one.
    Clog,
    /// Everything is clogged; waiting for the unswizzle pause.
    ReverseIdle,
    /// Unclogging the clogged connections in reverse order.
    Unclog,
}

pub open spec fn clog_actions(s: Seq<CloggedConnection>) -> Seq<SwizzleAction> {
    s.map_values(|c: CloggedConnection| SwizzleAction::Clog(c))
}

pub open spec fn unclog_actions(s: Seq<CloggedConnection>) -> Seq<SwizzleAction> {
    s.map_values(|c: CloggedConnection| SwizzleAction::Unclog(c))
}

/// The complete sequence of actions of a swizzle over `conns`: each connection clogged
/// in order, then each unclogged in reverse order.
pub open spec fn swizzle_trace(conns: Seq<CloggedConnection>) -> Seq<SwizzleAction> {
    clog_actions(conns) + unclog_actions(conns.reverse())
}

/// Upper bound (exclusive), relative to the time it is drawn, of the pause that a
/// swizzler in stage `s` waits out: the start pause while idle, the unswizzle pause once
/// everything is clogged, and a progression pause while clogging or unclogging.
pub open spec fn pause_bound(s: SwizzleState) -> int {
    pause_max(s) as int
}

/// The same bound as a `u64`, as handed to the generator.
pub open spec fn pause_max(s: SwizzleState) -> u64 {
    match s {
        SwizzleState::Idle => SWIZZLE_START_DELAY_MAX,
        SwizzleState::Clog => SWIZZLE_PROGRESSION_INTERVAL_MAX,
        SwizzleState::ReverseIdle => SWIZZLE_UNSWIZZLE_PAUSE_MAX,
        SwizzleState::Unclog => SWIZZLE_PROGRESSION_INTERVAL_MAX,
    }
}

/// The draw that starts a pause of stage `s` lasting `v`: a duration from
/// `[0, pause_bound(s))`.
pub open spec fn pause_draw(s: SwizzleState, v: u64) -> Draw {
    Draw::Duration(0, pause_max(s), v)
}

/// Whether `d` is the draw of some swizzle pause: a duration drawn from `[0, m)` for one
/// of the three pause bounds `m`.
pub open spec fn is_pause_draw(d: Draw) -> bool {
    d matches Draw::Duration(lo, hi, v) && lo == 0 && v < hi && (hi == SWIZZLE_START_DELAY_MAX
        || hi == SWIZZLE_PROGRESSION_INTERVAL_MAX || hi == SWIZZLE_UNSWIZZLE_PAUSE_MAX)
}

/// A swizzle pause lasts exactly the duration drawn for it: when the last draw is the
/// pause draw of `stage` for a pause ending at `pending`, within the bound of the stage
/// from `now` (as `Swizzler::poll_next` ensures of every pause it starts), that draw is a
/// duration from `[0, pause_bound(stage))` and `pending` is `now` plus exactly it.
pub proof fn lemma_pause_is_drawn_duration(draws: Seq<Draw>, stage: SwizzleState, now: u128, pending: u128)
    requires
        draws.len() > 0,
        draws.last() == pause_draw(stage, (pending - now) as u64),
        now <= pending < now + pause_bound(stage),
    ensures
        draws.last() matches Draw::Duration(lo, hi, v) && lo == 0 && hi as int == pause_bound(stage) && v < hi
            && pending == now + v,
{
}

/// Whether `after` is `before` followed by pause draws only.
pub open spec fn added_pause_draws(before: Seq<Draw>, after: Seq<Draw>) -> bool {
    &&& before.len() <= after.len()
    &&& after.subrange(0, before.len() as int) == before
    &&& forall|i: int| before.len() <= i < after.len() ==> is_pause_draw(#[trigger] after[i])
}

proof fn lemma_no_pause_draws(a: Seq<Draw>)
    ensures
        added_pause_draws(a, a),
{
    assert(a.subrange(0, a.len() as int) =~= a);
}

proof fn lemma_pause_draws_extend(a: Seq<Draw>, b: Seq<Draw>, x: Draw)
    requires
        added_pause_draws(a, b),
        is_pause_draw(x),
    ensures
        added_pause_draws(a, b.push(x)),
{
    assert(b.push(x).subrange(0, a.len() as int) =~= b.subrange(0, a.len() as int));
}

/// The longest total of the pauses that a swizzler over `n` connections in stage `stage`,
/// having emitted `e` actions, has still to draw; `drawn` tells whether the pause of an
/// idle swizzler has been drawn already.
pub open spec fn remaining_pauses(stage: SwizzleState, drawn: bool, n: int, e: int) -> int {
    let p = SWIZZLE_PROGRESSION_INTERVAL_MAX as int;
    let u = SWIZZLE_UNSWIZZLE_PAUSE_MAX as int;
    match stage {
        SwizzleState::Idle => (if drawn { 0 } else { SWIZZLE_START_DELAY_MAX as int }) + u + (2 * n + 2) * p,
        SwizzleState::Clog => (n - e) * p + u + (n + 1) * p,
        SwizzleState::ReverseIdle => (n + 1) * p,
        SwizzleState::Unclog => (2 * n - e) * p,
    }
}

/// The time at which a pause ending at `pause` (if any) is over, seen at `now`.
pub open spec fn pause_end(pause: Option<u128>, now: u128) -> int {
    match pause {
        Some(d) => if now < d { d as int } else { now as int },
        None => now as int,
    }
}

/// Whether no pause holds a swizzler back at `now`: there is none, or it has elapsed.
pub open spec fn pause_elapsed(pause: Option<u128>, now: u128) -> bool {
    pause is None || pause->0 <= now
}

/// Whether `sub` is made of elements of `s` taken in their order in `s`: there are
/// strictly increasing positions `idx` in `s` at which `s` holds the elements of `sub`.
pub open spec fn is_ordered_selection(sub: Seq<CloggedConnection>, s: Seq<CloggedConnection>) -> bool {
    exists|idx: Seq<int>| #[trigger] selection_positions(sub, s, idx)
}

/// `idx` lists, for each element of `sub`, its position in `s`, strictly increasing.
pub open spec fn selection_positions(sub: Seq<CloggedConnection>, s: Seq<CloggedConnection>, idx: Seq<int>) -> bool {
    &&& idx.len() == sub.len()
    &&& forall|a: int, b: int| 0 <= a < b < idx.len() ==> idx[a] < idx[b]
    &&& forall|a: int| 0 <= a < idx.len() ==> 0 <= #[trigger] idx[a] < s.len() && sub[a] == s[idx[a]]
}

/// Coin flips with the distribution `p` that came up as `coins` says.
pub open spec fn coin_flips(p: Bernoulli, coins: Seq<bool>) -> Seq<Draw> {
    Seq::new(coins.len(), |i: int| Draw::Bernoulli(p, coins[i]))
}

/// How a coin-flip draw came up (`false` for a draw of any other kind).
pub open spec fn coin_value(d: Draw) -> bool {
    match d {
        Draw::Bernoulli(_, b) => b,
        _ => false,
    }
}

/// How the coins flipped between the draw logs `before` and `after` came up.
pub open spec fn coins_between(before: Seq<Draw>, after: Seq<Draw>) -> Seq<bool> {
    after.subrange(before.len() as int, after.len() as int).map_values(|d: Draw| coin_value(d))
}

/// The elements of `s` whose coin in `coins` came up, in order.
pub open spec fn picked_by(s: Seq<CloggedConnection>, coins: Seq<bool>) -> Seq<CloggedConnection>
    decreases coins.len(),
{
    if coins.len() == 0 {
        Seq::empty()
    } else {
        let rest = picked_by(s.drop_last(), coins.drop_last());
        if coins.last() { rest.push(s.last()) } else { rest }
    }
}

/// How many of `coins` came up.
pub open spec fn true_count(coins: Seq<bool>) -> nat
    decreases coins.len(),
{
    if coins.len() == 0 {
        0
    } else {
        true_count(coins.drop_last()) + if coins.last() { 1nat } else { 0nat }
    }
}

/// Picking by coins keeps exactly the elements whose coin came up, in order: as many as
/// came up, and the element at position `i` with a coin that came up stands right after
/// the picks of the coins before it.
pub proof fn lemma_picked_by_follows_coins(s: Seq<CloggedConnection>, coins: Seq<bool>)
    requires
        s.len() == coins.len(),
    ensures
        picked_by(s, coins).len() == true_count(coins),
        forall|i: int| 0 <= i < coins.len() && #[trigger] coins[i] ==>
            picked_by(s, coins)[true_count(coins.take(i)) as int] == s[i],
    decreases coins.len(),
{
    if coins.len() > 0 {
        let s2 = s.drop_last();
        let c2 = coins.drop_last();
        lemma_picked_by_follows_coins(s2, c2);
        let n = coins.len() - 1;
        assert forall|i: int| 0 <= i < coins.len() && #[trigger] coins[i] implies
            picked_by(s, coins)[true_count(coins.take(i)) as int] == s[i] by {
            if i < n {
                assert(coins.take(i) =~= c2.take(i));
                assert(c2[i] == coins[i]);
                lemma_true_count_prefix(c2, i);
            } else {
                assert(coins.take(i) =~= c2);
            }
        }
    }
}

proof fn lemma_true_count_prefix(coins: Seq<bool>, i: int)
    requires
        0 <= i < coins.len(),
        coins[i],
    ensures
        true_count(coins.take(i)) < true_count(coins),
    decreases coins.len(),
{
    let n = coins.len() - 1;
    if i < n {
        lemma_true_count_prefix(coins.drop_last(), i);
        assert(coins.drop_last().take(i) =~= coins.take(i));
    } else {
        assert(coins.take(i) =~= coins.drop_last());
    }
}

pub open spec fn state_rank(s: SwizzleState) -> int {
    match s {
        SwizzleState::Idle => 3,
        SwizzleState::Clog => 2,
        SwizzleState::ReverseIdle => 1,
        SwizzleState::Unclog => 0,
    }
}

/// `v` in reverse order.
fn reversed(v: Vec<CloggedConnection>) -> (r: Vec<CloggedConnection>)
    ensures
        r@ == v@.reverse(),
{
    let ghost orig = v@;
    let mut src = v;
    let mut out: Vec<CloggedConnection> = Vec::new();
    while src.len() > 0
        invariant
            orig == src@ + out@.reverse(),
        decreases src.len(),
    {
        let ghost before = src@;
        let c = src.pop().unwrap();
        proof {
            assert(before == src@.push(c));
            assert(out@.push(c).reverse() =~= seq![c] + out@.reverse());
            assert(orig =~= src@ + out@.push(c).reverse());
        }
        out.push(c);
    }
    proof {
        assert(orig =~= out@.reverse());
        assert(out@ =~= orig.reverse());
    }
    out
}

/// The swizzle clog generator.
pub struct Swizzler {
    state: SwizzleState,
    /// Deadline of the outstanding pause, if any.
    delay: Option<u128>,
    to_clog: Vec<CloggedConnection>,
    clogged: Vec<CloggedConnection>,
    connections: Ghost<Seq<CloggedConnection>>,
    emitted: Ghost<Seq<SwizzleAction>>,
}

impl Swizzler {
    /// The connections that this swizzler was created with, in order.
    pub closed spec fn connections(&self) -> Seq<CloggedConnection> {
        self.connections@
    }

    /// The actions emitted so far, in order.
    pub closed spec fn emitted(&self) -> Seq<SwizzleAction> {
        self.emitted@
    }

    /// The deadline of the outstanding pause, if any.
    pub closed spec fn pending_until(&self) -> Option<u128> {
        self.delay
    }

    pub closed spec fn stage(&self) -> SwizzleState {
        self.state
    }

    /// The latest time, seen at `now`, by which this swizzler finishes when it is polled at
    /// the end of each of its pauses: the end of the current pause (or `now`), plus the
    /// longest pauses it has still to draw.
    pub open spec fn finish_bound(&self, now: u128) -> int {
        pause_end(self.pending_until(), now) + remaining_pauses(self.stage(), self.pending_until() is Some,
            self.connections().len() as int, self.emitted().len() as int)
    }

    pub closed spec fn wf(&self) -> bool {
        let conns = self.connections@;
        let n = conns.len();
        match self.state {
            SwizzleState::Idle => {
                &&& self.to_clog@ == conns
                &&& self.clogged@.len() == 0
                &&& self.emitted@.len() == 0
            },
            SwizzleState::Clog => {
                &&& self.clogged@ + self.to_clog@ == conns
                &&& self.emitted@ == clog_actions(self.clogged@)
            },
            SwizzleState::ReverseIdle => {
                &&& self.to_clog@.len() == 0
                &&& self.clogged@ == conns.reverse()
                &&& self.emitted@ == clog_actions(conns)
            },
            SwizzleState::Unclog => {
                let k = n - self.clogged@.len();
                &&& self.to_clog@.len() == 0
                &&& self.clogged@.len() <= n
                &&& self.clogged@ == conns.reverse().skip(k)
                &&& self.emitted@ == clog_actions(conns) + unclog_actions(conns.reverse().take(k))
            },
        }
    }

    /// A swizzler over `connections`, idle and with no pause outstanding.
    pub fn new(connections: Vec<CloggedConnection>) -> (s: Swizzler)
        ensures
            s.wf(),
            s.connections() == connections@,
            s.emitted() == Seq::<SwizzleAction>::empty(),
            s.stage() == SwizzleState::Idle,
            s.pending_until() is None,
    {
        let ghost conns = connections@;
        Swizzler {
            state: SwizzleState::Idle,
            delay: None,
            to_clog: connections,
            clogged: Vec::new(),
            connections: Ghost(conns),
            emitted: Ghost(Seq::empty()),
        }
    }

    /// The deadline of the outstanding pause, if any.
    pub fn pending_deadline(&self) -> (d: Option<u128>)
        ensures
            d == self.pending_until(),
    {
        self.delay
    }

    /// Starts a pause of a random length in `[0, max)` unless one is already outstanding.
    fn ensure_delay(&mut self, max: u64, now: u128, random: &mut DeterministicRandom)
        requires
            0 < max,
            now <= MAX_DURATION_NANOS,
        ensures
            final(self).delay is Some,
            old(self).delay is Some ==> final(self).delay == old(self).delay,
            old(self).delay is None ==> now <= final(self).delay->0 < now + max,
            final(random).seed() == old(random).seed(),
            old(self).delay is Some ==> final(random).draws() == old(random).draws(),
            old(self).delay is None ==> final(random).draws() == old(random).draws().push(
                Draw::Duration(0, max, (final(self).delay->0 - now) as u64)),
            final(self).state == old(self).state,
            final(self).to_clog == old(self).to_clog,
            final(self).clogged == old(self).clogged,
            final(self).connections == old(self).connections,
            final(self).emitted == old(self).emitted,
    {
        if self.delay.is_none() {
            let duration = random.gen_duration(0, max);
            self.delay = Some(now + duration as u128);
        }
    }

    /// Whether the outstanding pause, if any, has elapsed at `now`; an elapsed pause is
    /// removed.
    fn poll_delay(&mut self, now: u128) -> (ready: bool)
        ensures
            ready <==> (old(self).delay is None || old(self).delay->0 <= now),
            ready ==> final(self).delay is None,
            !ready ==> final(self).delay == old(self).delay,
            final(self).state == old(self).state,
            final(self).to_clog == old(self).to_clog,
            final(self).clogged == old(self).clogged,
            final(self).connections == old(self).connections,
            final(self).emitted == old(self).emitted,
    {
        match self.delay {
            Some(deadline) => {
                if deadline <= now {
                    self.delay = None;
                    true
                } else {
                    false
                }
            },
            None => true,
        }
    }

    /// Reverses the clogged list in place.
    fn reverse_clogged(&mut self)
        ensures
            final(self).clogged@ == old(self).clogged@.reverse(),
            final(self).state == old(self).state,
            final(self).delay == old(self).delay,
            final(self).to_clog == old(self).to_clog,
            final(self).connections == old(self).connections,
            final(self).emitted == old(self).emitted,
    {
        let mut taken: Vec<CloggedConnection> = Vec::new();
        std::mem::swap(&mut taken, &mut self.clogged);
        self.clogged = reversed(taken);
    }

    /// Polls for the next action. `now` is the current mock time; `random` supplies the
    /// pause lengths.
    ///
    /// Every action returned is the next one of `swizzle_trace(connections)`; `Ready(None)`
    /// comes once the whole trace has been returned; `Pending` leaves a pause outstanding
    /// whose deadline lies after `now`.
    ///
    /// Progress: once no pause holds it back, a swizzler that is clogging or unclogging
    /// returns its next action (or `None` at the end), and it is `Pending` only on a pause
    /// it has just drawn on entering a stage (or the first start pause), each new pause
    /// ending before `now + pause_bound(stage)`.
    pub fn poll_next(&mut self, now: u128, random: &mut DeterministicRandom) -> (r: Poll<Option<SwizzleAction>>)
        requires
            old(self).wf(),
            now <= MAX_DURATION_NANOS,
        ensures
            final(self).wf(),
            final(self).connections() == old(self).connections(),
            state_rank(final(self).stage()) <= state_rank(old(self).stage()),
            (old(self).pending_until() matches Some(d) && now < d) ==> {
                &&& r is Pending
                &&& final(self).pending_until() == old(self).pending_until()
                &&& final(self).stage() == old(self).stage()
                &&& final(random).draws() == old(random).draws()
            },
            final(random).seed() == old(random).seed(),
            added_pause_draws(old(random).draws(), final(random).draws()),
            (r matches Poll::Ready(Some(_))) || (r is Pending && pause_elapsed(old(self).pending_until(), now)) ==>
                final(random).draws().len() > old(random).draws().len()
                && final(random).draws().last() == pause_draw(final(self).stage(), (final(self).pending_until()->0 - now) as u64),
            final(self).finish_bound(now) <= old(self).finish_bound(now),
            pause_elapsed(old(self).pending_until(), now) && old(self).stage() == SwizzleState::Clog
                && old(self).emitted().len() < old(self).connections().len() ==> r matches Poll::Ready(Some(_)),
            pause_elapsed(old(self).pending_until(), now) && old(self).stage() == SwizzleState::Unclog ==> r is Ready,
            r is Pending && pause_elapsed(old(self).pending_until(), now) ==> {
                &&& (final(self).stage() == SwizzleState::Idle && old(self).pending_until() is None)
                    || state_rank(final(self).stage()) < state_rank(old(self).stage())
                &&& final(self).pending_until()->0 < now + pause_bound(final(self).stage())
            },
            r matches Poll::Ready(Some(_)) ==> (final(self).pending_until() matches Some(d)
                && now <= d < now + SWIZZLE_PROGRESSION_INTERVAL_MAX),
            r matches Poll::Ready(None) ==> final(self).pending_until() is None,
            match r {
                Poll::Ready(Some(a)) => final(self).emitted() == old(self).emitted().push(a),
                Poll::Ready(None) => {
                    &&& final(self).emitted() == old(self).emitted()
                    &&& final(self).emitted() == swizzle_trace(old(self).connections())
                },
                Poll::Pending => {
                    &&& final(self).emitted() == old(self).emitted()
                    &&& final(self).pending_until() is Some
                    &&& now < final(self).pending_until()->0
                },
            },
    {
        let ghost conns = self.connections@;
        let ghost n = conns.len();
        let ghost start_emitted = self.emitted@;
        proof {
            lemma_no_pause_draws(old(random).draws());
        }
        loop
            invariant
                self.wf(),
                self.connections@ == conns,
                conns == old(self).connections@,
                n == conns.len(),
                self.emitted@ == start_emitted,
                start_emitted == old(self).emitted@,
                state_rank(self.state) <= state_rank(old(self).state),
                self.state == old(self).state ==> self.delay == old(self).delay,
                self.state != old(self).state ==> (self.delay matches Some(d) && now <= d < now + pause_bound(self.state)),
                (old(self).delay matches Some(d) && now < d) ==> self.delay == old(self).delay && self.state == old(self).state,
                now <= MAX_DURATION_NANOS,
                random.seed() == old(random).seed(),
                added_pause_draws(old(random).draws(), random.draws()),
                self.state == old(self).state ==> random.draws() == old(random).draws(),
                self.state != old(self).state ==> random.draws().len() > old(random).draws().len()
                    && random.draws().last() == pause_draw(self.state, (self.delay->0 - now) as u64),
                self.finish_bound(now) <= old(self).finish_bound(now),
            decreases state_rank(self.state),
        {
            match self.state {
                SwizzleState::Idle => {
                    let ghost draws_before = random.draws();
                    self.ensure_delay(SWIZZLE_START_DELAY_MAX, now, random);
                    proof {
                        if random.draws() != draws_before {
                            lemma_pause_draws_extend(old(random).draws(), draws_before, random.draws().last());
                        }
                    }
                    if !self.poll_delay(now) {
                        return Poll::Pending;
                    }
                    let ghost draws_before = random.draws();
                    self.ensure_delay(SWIZZLE_PROGRESSION_INTERVAL_MAX, now, random);
                    proof {
                        if random.draws() != draws_before {
                            lemma_pause_draws_extend(old(random).draws(), draws_before, random.draws().last());
                        }
                    }
                    self.state = SwizzleState::Clog;
                    proof {
                        assert(self.clogged@ + self.to_clog@ =~= conns);
                        assert(clog_actions(self.clogged@) =~= self.emitted@);
                    }
                },
                SwizzleState::Clog => {
                    if self.to_clog.len() == 0 {
                        if !self.poll_delay(now) {
                            return Poll::Pending;
                        }
                        let ghost draws_before = random.draws();
                        self.ensure_delay(SWIZZLE_UNSWIZZLE_PAUSE_MAX, now, random);
                        proof {
                            if random.draws() != draws_before {
                                lemma_pause_draws_extend(old(random).draws(), draws_before, random.draws().last());
                            }
                        }
                        proof {
                            assert(self.clogged@ =~= conns);
                        }
                        self.reverse_clogged();
                        self.state = SwizzleState::ReverseIdle;
                    } else {
                        if !self.poll_delay(now) {
                            return Poll::Pending;
                        }
                        let ghost before_clogged = self.clogged@;
                        let ghost before_to_clog = self.to_clog@;
                        let next = self.to_clog.remove(0);
                        self.clogged.push(next);
                        let ghost draws_before = random.draws();
                        self.ensure_delay(SWIZZLE_PROGRESSION_INTERVAL_MAX, now, random);
                        proof {
                            if random.draws() != draws_before {
                                lemma_pause_draws_extend(old(random).draws(), draws_before, random.draws().last());
                            }
                        }
                        let action = SwizzleAction::Clog(next);
                        proof {
                            assert(before_to_clog =~= seq![next] + self.to_clog@);
                            assert(self.clogged@ + self.to_clog@ =~= before_clogged + before_to_clog);
                            assert(clog_actions(self.clogged@) =~= clog_actions(before_clogged).push(action));
                        }
                        self.emitted = Ghost(self.emitted@.push(action));
                        return Poll::Ready(Some(action));
                    }
                },
                SwizzleState::ReverseIdle => {
                    if !self.poll_delay(now) {
                        return Poll::Pending;
                    }
                    let ghost draws_before = random.draws();
                    self.ensure_delay(SWIZZLE_PROGRESSION_INTERVAL_MAX, now, random);
                    proof {
                        if random.draws() != draws_before {
                            lemma_pause_draws_extend(old(random).draws(), draws_before, random.draws().last());
                        }
                    }
                    self.state = SwizzleState::Unclog;
                    proof {
                        assert(conns.reverse().len() == n);
                        assert(conns.reverse().skip(0) =~= conns.reverse());
                        assert(unclog_actions(conns.reverse().take(0)) =~= Seq::<SwizzleAction>::empty());
                        assert(clog_actions(conns) + unclog_actions(conns.reverse().take(0)) =~= clog_actions(conns));
                    }
                },
                SwizzleState::Unclog => {
                    let ghost rev = conns.reverse();
                    let ghost k = n - self.clogged@.len();
                    if self.clogged.len() == 0 {
                        if !self.poll_delay(now) {
                            return Poll::Pending;
                        }
                        proof {
                            assert(rev.len() == n);
                            assert(rev.take(k) =~= rev);
                        }
                        return Poll::Ready(None);
                    } else {
                        if !self.poll_delay(now) {
                            return Poll::Pending;
                        }
                        let ghost before_clogged = self.clogged@;
                        let next = self.clogged.remove(0);
                        let ghost draws_before = random.draws();
                        self.ensure_delay(SWIZZLE_PROGRESSION_INTERVAL_MAX, now, random);
                        proof {
                            if random.draws() != draws_before {
                                lemma_pause_draws_extend(old(random).draws(), draws_before, random.draws().last());
                            }
                        }
                        let action = SwizzleAction::Unclog(next);
                        proof {
                            assert(rev.len() == n);
                            assert(next == rev[k]);
                            assert(self.clogged@ =~= rev.skip(k + 1));
                            assert(rev.take(k + 1) =~= rev.take(k).push(next));
                            assert(unclog_actions(rev.take(k + 1)) =~= unclog_actions(rev.take(k)).push(action));
                            assert(clog_actions(conns) + unclog_actions(rev.take(k + 1))
                                =~= (clog_actions(conns) + unclog_actions(rev.take(k))).push(action));
                        }
                        self.emitted = Ghost(self.emitted@.push(action));
                        return Poll::Ready(Some(action));
                    }
                },
            }
        }
    }
}

/// The dice rolls that start a swizzle: whether it has started, and which connections it
/// picked, in the order of the network's connection list.
pub struct SwizzleClogInjector {
    started: bool,
    position: usize,
    to_swizzle: Vec<CloggedConnection>,
}

impl SwizzleClogInjector {
    pub closed spec fn started(&self) -> bool {
        self.started
    }

    pub closed spec fn to_swizzle(&self) -> Seq<CloggedConnection> {
        self.to_swizzle@
    }

    pub closed spec fn position(&self) -> usize {
        self.position
    }

    /// Not started, nothing picked.
    pub fn new() -> (s: SwizzleClogInjector)
        ensures
            !s.started(),
            s.to_swizzle() == Seq::<CloggedConnection>::empty(),
            s.position() == 0,
    {
        SwizzleClogInjector { started: false, position: 0, to_swizzle: Vec::new() }
    }

    /// The connections picked for swizzling, in order.
    pub fn picked(&self) -> (p: &Vec<CloggedConnection>)
        ensures
            p@ == self.to_swizzle(),
    {
        &self.to_swizzle
    }

    /// Whether the swizzle has started; if not, rolls with `start_probability` to start it.
    /// Once started, it stays started and rolls no more.
    pub fn fault_started(&mut self, random: &mut DeterministicRandom, start_probability: &Bernoulli) -> (b: bool)
        ensures
            old(self).started() ==> b,
            final(self).started() == b,
            final(random).seed() == old(random).seed(),
            old(self).started() ==> final(random).draws() == old(random).draws(),
            !old(self).started() ==> final(random).draws() == old(random).draws().push(Draw::Bernoulli(*start_probability, b)),
            final(self).to_swizzle() == old(self).to_swizzle(),
            final(self).position() == old(self).position(),
    {
        if self.started {
            return true;
        }
        if random.should_fault(start_probability) {
            self.started = true;
            return true;
        }
        false
    }

    /// Once started and while nothing is picked, picks each of `connections` (source and
    /// destination IP) with `select_probability`, keeping their order.
    pub fn ensure_swizzle_collection(
        &mut self,
        connections: &Vec<CloggedConnection>,
        random: &mut DeterministicRandom,
        select_probability: &Bernoulli,
    )
        ensures
            final(self).started() == old(self).started(),
            final(random).seed() == old(random).seed(),
            !(old(self).to_swizzle().len() == 0 && old(self).started()) ==>
                final(self).to_swizzle() == old(self).to_swizzle() && final(self).position() == old(self).position()
                && final(random).draws() == old(random).draws(),
            old(self).to_swizzle().len() == 0 && old(self).started() ==> {
                let coins = coins_between(old(random).draws(), final(random).draws());
                &&& coins.len() == connections@.len()
                &&& final(random).draws() == old(random).draws() + coin_flips(*select_probability, coins)
                &&& final(self).to_swizzle() == picked_by(connections@, coins)
                &&& final(self).to_swizzle().len() == true_count(coins)
                &&& forall|i: int| 0 <= i < connections@.len() && #[trigger] coins[i] ==>
                    final(self).to_swizzle()[true_count(coins.take(i)) as int] == connections@[i]
            },
            old(self).to_swizzle().len() == 0 && old(self).started() ==> {
                &&& final(self).position() == final(self).to_swizzle().len()
                &&& final(self).to_swizzle().len() <= connections@.len()
                &&& forall|j: int| 0 <= j < final(self).to_swizzle().len() ==> connections@.contains(#[trigger] final(self).to_swizzle()[j])
                &&& is_ordered_selection(final(self).to_swizzle(), connections@)
            },
    {
        if self.to_swizzle.len() == 0 && self.started {
            let mut picked: Vec<CloggedConnection> = Vec::new();
            let mut i: usize = 0;
            let ghost mut idx: Seq<int> = Seq::empty();
            let ghost mut coins: Seq<bool> = Seq::empty();
            proof {
                assert(coin_flips(*select_probability, coins) =~= Seq::<Draw>::empty());
                assert(old(random).draws() + Seq::<Draw>::empty() =~= old(random).draws());
                assert(connections@.take(0) =~= Seq::<CloggedConnection>::empty());
            }
            while i < connections.len()
                invariant
                    i <= connections@.len(),
                    picked@.len() <= i,
                    forall|j: int| 0 <= j < picked@.len() ==> connections@.contains(#[trigger] picked@[j]),
                    selection_positions(picked@, connections@, idx),
                    forall|a: int| 0 <= a < idx.len() ==> #[trigger] idx[a] < i,
                    random.seed() == old(random).seed(),
                    coins.len() == i,
                    random.draws() == old(random).draws() + coin_flips(*select_probability, coins),
                    picked@ == picked_by(connections@.take(i as int), coins),
                decreases connections.len() - i,
            {
                let ghost before_picked = picked@;
                let pick = random.should_fault(select_probability);
                proof {
                    let old_coins = coins;
                    coins = coins.push(pick);
                    assert(coin_flips(*select_probability, coins) =~= coin_flips(*select_probability, old_coins).push(Draw::Bernoulli(*select_probability, pick)));
                    assert(random.draws() =~= old(random).draws() + coin_flips(*select_probability, coins));
                    assert(connections@.take(i + 1).drop_last() =~= connections@.take(i as int));
                    assert(coins.drop_last() =~= old_coins);
                }
                if pick {
                    let c = connections[i];
                    let ghost before = picked@;
                    picked.push(c);
                    proof {
                        let old_idx = idx;
                        idx = idx.push(i as int);
                        assert forall|a: int| 0 <= a < idx.len() implies 0 <= #[trigger] idx[a] < connections@.len()
                            && picked@[a] == connections@[idx[a]] by {
                            if a < old_idx.len() {
                                assert(idx[a] == old_idx[a]);
                                assert(picked@[a] == before[a]);
                            }
                        }
                        assert forall|a: int, b: int| 0 <= a < b < idx.len() implies idx[a] < idx[b] by {
                            if b < old_idx.len() {
                                assert(idx[a] == old_idx[a] && idx[b] == old_idx[b]);
                            } else {
                                assert(idx[a] == old_idx[a]);
                                assert(old_idx[a] < i);
                            }
                        }
                        assert(connections@[i as int] == c);
                    }
                }
                i = i + 1;
            }
            assert(selection_positions(picked@, connections@, idx));
            proof {
                let after = random.draws();
                assert(after.subrange(old(random).draws().len() as int, after.len() as int)
                    =~= coin_flips(*select_probability, coins));
                assert(coins_between(old(random).draws(), after) =~= coins);
                assert(connections@.take(connections@.len() as int) =~= connections@);
                lemma_picked_by_follows_coins(connections@, coins);
            }
            self.position = picked.len();
            self.to_swizzle = picked;
        }
    }
}

/// A complete swizzle over `conns` clogs every connection in the order given and then
/// unclogs every connection in the reverse order: `2 * n` actions in all.
pub proof fn lemma_swizzle_trace_shape(conns: Seq<CloggedConnection>)
    ensures
        swizzle_trace(conns).len() == 2 * conns.len(),
        forall|i: int| 0 <= i < conns.len() ==> #[trigger] swizzle_trace(conns)[i] == SwizzleAction::Clog(conns[i]),
        forall|i: int| 0 <= i < conns.len() ==>
            #[trigger] swizzle_trace(conns)[conns.len() + i] == SwizzleAction::Unclog(conns[conns.len() - 1 - i]),
{
}

/// Whatever a swizzler has emitted so far is a prefix of its complete trace: actions come
/// out in exactly the trace's order, none skipped and none repeated.
pub proof fn lemma_emitted_is_trace_prefix(s: &Swizzler)
    requires
        s.wf(),
    ensures
        s.emitted().len() <= swizzle_trace(s.connections()).len(),
        s.emitted() == swizzle_trace(s.connections()).take(s.emitted().len() as int),
{
    let conns = s.connections();
    let n = conns.len();
    let t = swizzle_trace(conns);
    match s.stage() {
        SwizzleState::Idle => {
            assert(s.emitted() =~= t.take(0));
        },
        SwizzleState::Clog => {
            let c = s.clogged@;
            assert(c == conns.take(c.len() as int)) by {
                assert(conns =~= c + s.to_clog@);
                assert(conns.take(c.len() as int) =~= c);
            }
            assert(s.emitted() =~= t.take(c.len() as int));
        },
        SwizzleState::ReverseIdle => {
            assert(s.emitted() =~= t.take(n as int));
        },
        SwizzleState::Unclog => {
            let k = n - s.clogged@.len();
            assert(s.emitted() =~= t.take(n + k));
        },
    }
}

/// A well-formed swizzler has emitted no more actions than its stage allows, so its
/// remaining pauses add up to a non-negative time.
proof fn lemma_remaining_pauses_nonnegative(s: &Swizzler)
    requires
        s.wf(),
    ensures
        remaining_pauses(s.stage(), s.pending_until() is Some, s.connections().len() as int, s.emitted().len() as int) >= 0,
{
    let conns = s.connections();
    let n = conns.len();
    match s.stage() {
        SwizzleState::Clog => {
            assert(s.emitted().len() == s.clogged@.len());
            assert((s.clogged@ + s.to_clog@).len() == n);
        },
        SwizzleState::Unclog => {
            let k = n - s.clogged@.len();
            assert(conns.reverse().take(k).len() == k);
            assert(s.emitted().len() == n + k);
        },
        _ => {},
    }
}

/// Waiting no longer than the end of the current pause leaves the finish bound unchanged.
proof fn lemma_finish_bound_while_waiting(s: &Swizzler, t1: u128, t2: u128)
    requires
        t1 <= t2,
        t2 <= pause_end(s.pending_until(), t1),
    ensures
        s.finish_bound(t2) == s.finish_bound(t1),
{
}

/// A swizzle over `n` connections that starts at `times[0]` and is then polled at the end
/// of each of its pauses finishes in bounded time: every poll happens by
/// `times[0] + 120 s + 120 s + (2n + 2) * 10 s` (the start pause, the unswizzle pause, and
/// the progression pauses). `states[j]` is the swizzler before the poll at `times[j]` and
/// `states[j + 1]` after it; each poll keeps the finish bound from growing, as
/// `Swizzler::poll_next` ensures, and between polls mock time moves on at most to the end
/// of the swizzler's pause.
pub proof fn lemma_swizzle_time_budget(states: Seq<Swizzler>, times: Seq<u128>)
    requires
        times.len() > 0,
        states.len() == times.len() + 1,
        states[0].stage() == SwizzleState::Idle,
        states[0].pending_until() is None,
        forall|j: int| 0 <= j < states.len() ==> (#[trigger] states[j]).wf(),
        forall|j: int| 0 <= j < times.len() ==>
            states[j + 1].finish_bound(times[j]) <= (#[trigger] states[j]).finish_bound(times[j]),
        forall|j: int| 0 <= j < times.len() - 1 ==>
            times[j] <= #[trigger] times[j + 1] && times[j + 1] <= pause_end(states[j + 1].pending_until(), times[j]),
    ensures
        forall|j: int| 0 <= j < times.len() ==> #[trigger] times[j] <= times[0] + SWIZZLE_START_DELAY_MAX
            + SWIZZLE_UNSWIZZLE_PAUSE_MAX + (2 * states[0].connections().len() + 2) * SWIZZLE_PROGRESSION_INTERVAL_MAX,
{
    assert forall|j: int| 0 <= j < times.len() implies #[trigger] times[j] <= times[0] + SWIZZLE_START_DELAY_MAX
        + SWIZZLE_UNSWIZZLE_PAUSE_MAX + (2 * states[0].connections().len() + 2) * SWIZZLE_PROGRESSION_INTERVAL_MAX by {
        lemma_finish_bound_chain(states, times, j);
        lemma_remaining_pauses_nonnegative(&states[j]);
    }
}

proof fn lemma_finish_bound_chain(states: Seq<Swizzler>, times: Seq<u128>, k: int)
    requires
        times.len() > 0,
        states.len() == times.len() + 1,
        0 <= k < times.len(),
        forall|j: int| 0 <= j < times.len() ==>
            states[j + 1].finish_bound(times[j]) <= (#[trigger] states[j]).finish_bound(times[j]),
        forall|j: int| 0 <= j < times.len() - 1 ==>
            times[j] <= #[trigger] times[j + 1] && times[j + 1] <= pause_end(states[j + 1].pending_until(), times[j]),
    ensures
        states[k].finish_bound(times[k]) <= states[0].finish_bound(times[0]),
    decreases k,
{
    if k > 0 {
        lemma_finish_bound_chain(states, times, k - 1);
        assert(states[k - 1].finish_bound(times[k - 1]) >= states[k].finish_bound(times[k - 1]));
        assert(times[k - 1] <= times[k]);
        lemma_finish_bound_while_waiting(&states[k], times[k - 1], times[k]);
    }
}

} // verus!
