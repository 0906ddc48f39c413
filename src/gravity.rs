//! The cadence of the custom gravity pass: real time accumulates, and a pass
//! fires each time a full period has gone by, the remainder carried forward.
//! Time is counted in whole microseconds.
use vstd::prelude::*;
use vstd::arithmetic::div_mod::lemma_fundamental_div_mod;
use vstd::arithmetic::div_mod::lemma_fundamental_div_mod_converse;

verus! {

/// The period of the gravity pass, in microseconds.
pub const GRAVITY_PERIOD_US: u64 = 250_000;

/// One frame of the clock: from the carried time `acc` and the frame's
/// duration `dt`, the new carried time and whether a pass fires.
pub open spec fn clock_step(acc: nat, dt: nat) -> (nat, bool) {
    if acc + dt >= GRAVITY_PERIOD_US {
        ((acc + dt - GRAVITY_PERIOD_US) as nat, true)
    } else {
        (acc + dt, false)
    }
}

/// The time carried after a sequence of frames, starting from `acc`.
pub open spec fn clock_run(acc: nat, dts: Seq<u64>) -> nat
    decreases dts.len(),
{
    if dts.len() == 0 {
        acc
    } else {
        clock_step(clock_run(acc, dts.drop_last()), dts.last() as nat).0
    }
}

/// Whether the pass fires on frame `k` of a sequence started from `acc`.
pub open spec fn fires_on(acc: nat, dts: Seq<u64>, k: int) -> bool {
    clock_step(clock_run(acc, dts.take(k)), dts[k] as nat).1
}

/// How many passes fire over a sequence of frames started from an empty
/// accumulator.
pub open spec fn fire_count(dts: Seq<u64>) -> nat
    decreases dts.len(),
{
    if dts.len() == 0 {
        0
    } else {
        fire_count(dts.drop_last()) + (if clock_step(clock_run(0, dts.drop_last()), dts.last() as nat).1 {
            1nat
        } else {
            0nat
        })
    }
}

/// The sum of a sequence of durations.
pub open spec fn total(dts: Seq<u64>) -> nat
    decreases dts.len(),
{
    if dts.len() == 0 {
        0
    } else {
        total(dts.drop_last()) + dts.last() as nat
    }
}

/// The time accumulator that decides when the gravity pass runs.
pub struct GravityClock {
    pub elapsed_us: u64,
}

impl GravityClock {
    pub fn new() -> (r: GravityClock)
        ensures
            r.elapsed_us == 0,
    {
        GravityClock { elapsed_us: 0 }
    }

    /// Adds one frame's duration; returns whether a pass is due now. At most
    /// one pass fires per call, and one period is taken off when it does.
    pub fn advance(&mut self, dt_us: u64) -> (fired: bool)
        requires
            old(self).elapsed_us + dt_us <= u64::MAX,
        ensures
            (final(self).elapsed_us as nat, fired) == clock_step(old(self).elapsed_us as nat, dt_us as nat),
    {
        self.elapsed_us = self.elapsed_us + dt_us;
        if self.elapsed_us >= GRAVITY_PERIOD_US {
            self.elapsed_us = self.elapsed_us - GRAVITY_PERIOD_US;
            true
        } else {
            false
        }
    }
}

proof fn lemma_step_from_remainder(s: nat, d: nat)
    requires
        d <= GRAVITY_PERIOD_US,
    ensures
        clock_step(s % (GRAVITY_PERIOD_US as nat), d).0 == (s + d) % (GRAVITY_PERIOD_US as nat),
        (s + d) / (GRAVITY_PERIOD_US as nat) == s / (GRAVITY_PERIOD_US as nat)
            + (if clock_step(s % (GRAVITY_PERIOD_US as nat), d).1 { 1int } else { 0int }),
{
    let p = GRAVITY_PERIOD_US as int;
    lemma_fundamental_div_mod(s as int, p);
    let q = (s as int) / p;
    let r = (s as int) % p;
    if r + d >= p {
        lemma_fundamental_div_mod_converse((s + d) as int, p, q + 1, r + d - p);
    } else {
        lemma_fundamental_div_mod_converse((s + d) as int, p, q, r + d);
    }
}

proof fn lemma_run_is_remainder(dts: Seq<u64>)
    requires
        forall|i: int| 0 <= i < dts.len() ==> dts[i] <= GRAVITY_PERIOD_US,
    ensures
        clock_run(0, dts) == total(dts) % (GRAVITY_PERIOD_US as nat),
    decreases dts.len(),
{
    if dts.len() == 0 {
    } else {
        let front = dts.drop_last();
        lemma_run_is_remainder(front);
        lemma_step_from_remainder(total(front), dts.last() as nat);
    }
}

proof fn lemma_count_is_quotient(dts: Seq<u64>)
    requires
        forall|i: int| 0 <= i < dts.len() ==> dts[i] <= GRAVITY_PERIOD_US,
    ensures
        fire_count(dts) == total(dts) / (GRAVITY_PERIOD_US as nat),
    decreases dts.len(),
{
    if dts.len() > 0 {
        let front = dts.drop_last();
        lemma_count_is_quotient(front);
        lemma_run_is_remainder(front);
        lemma_step_from_remainder(total(front), dts.last() as nat);
    }
}

/// Starting from an empty accumulator, with no frame longer than the period,
/// the pass fires on exactly the frames where the cumulative elapsed time
/// crosses a multiple of the period, once per crossing; the time carried is
/// the cumulative time modulo the period; so the number of passes is the
/// cumulative time divided by the period, rounded down.
pub proof fn lemma_gravity_fires_once_per_crossing(dts: Seq<u64>)
    requires
        forall|i: int| 0 <= i < dts.len() ==> dts[i] <= GRAVITY_PERIOD_US,
    ensures
        clock_run(0, dts) == total(dts) % (GRAVITY_PERIOD_US as nat),
        fire_count(dts) == total(dts) / (GRAVITY_PERIOD_US as nat),
        forall|k: int| 0 <= k < dts.len() ==> #[trigger] total(dts.take(k + 1)) / (GRAVITY_PERIOD_US as nat)
            == total(dts.take(k)) / (GRAVITY_PERIOD_US as nat) + (if fires_on(0, dts, k) { 1int } else { 0int }),
{
    lemma_run_is_remainder(dts);
    lemma_count_is_quotient(dts);
    assert forall|k: int| 0 <= k < dts.len() implies #[trigger] total(dts.take(k + 1)) / (GRAVITY_PERIOD_US as nat)
        == total(dts.take(k)) / (GRAVITY_PERIOD_US as nat) + (if fires_on(0, dts, k) { 1int } else { 0int }) by {
        let pre = dts.take(k);
        assert(dts.take(k + 1).drop_last() =~= pre);
        lemma_run_is_remainder(pre);
        lemma_step_from_remainder(total(pre), dts[k] as nat);
    }
}

} // verus!
