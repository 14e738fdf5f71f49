//! The dual-motor pulse interleaving schedule.
//!
//! A move hands the two motors signed step deltas and runs until both
//! axes have issued their full step counts.  The faster axis pulses on
//! every tick; the slower one pulses on a proportional subset, driven
//! by an exact fractional accumulator, so that both axes finish on the
//! same tick.  The schedule computed here is replayed against the motor
//! lines one tick at a time, sleeping one pulse period between ticks.

use vstd::prelude::*;
use crate::fixed::{abs_int, clamp_int, abs_i64, clamp_i64, MICRO};

verus! {

/// Largest per-move step magnitude a pulse plan accepts.
pub const PULSE_PLAN_LIMIT: i64 = 10_000_000;

/// One tick of the schedule: whether each motor pulses during it.
#[derive(Clone, Copy, PartialEq, Eq, Structural, Debug)]
pub struct PulseTick {
    pub pulse_primary: bool,
    pub pulse_secondary: bool,
}

/// Number of ticks that pulse the primary motor.
pub open spec fn count_primary_pulses(ticks: Seq<PulseTick>) -> int
    decreases ticks.len(),
{
    if ticks.len() == 0 {
        0
    } else {
        count_primary_pulses(ticks.drop_last()) + if ticks.last().pulse_primary {
            1int
        } else {
            0int
        }
    }
}

/// Number of ticks that pulse the secondary motor.
pub open spec fn count_secondary_pulses(ticks: Seq<PulseTick>) -> int
    decreases ticks.len(),
{
    if ticks.len() == 0 {
        0
    } else {
        count_secondary_pulses(ticks.drop_last()) + if ticks.last().pulse_secondary {
            1int
        } else {
            0int
        }
    }
}

/// A complete move: the direction each motor turns, and the tick-by-tick
/// pulse schedule.
pub struct PulsePlan {
    pub primary_forward: bool,
    pub secondary_forward: bool,
    pub ticks: Vec<PulseTick>,
}

/// The pulse count an exact fractional accumulator yields.
///
/// With the accumulator held at `a == t * p - s * q` inside `[0, q)`,
/// the axis has pulsed `floor(t * m / mx)` times after `t` ticks —
/// whether it is a slower axis (rate `m / mx`, so `q == mx` and
/// `p == m`) or the fastest one (rate one, so `p == q` and `m == mx`).
proof fn lemma_accumulator_quota(t: int, s: int, a: int, p: int, q: int, m: int, mx: int)
    requires
        a == t * p - s * q,
        0 <= a < q,
        1 <= mx,
        (q == mx && p == m) || (p == q && m == mx && 1 <= q),
    ensures
        s == (t * m) / mx,
{
    if q == mx && p == m {
        assert(t * m == mx * s + a) by (nonlinear_arith)
            requires
                a == t * p - s * q,
                q == mx,
                p == m,
        ;
        crate::fixed::lemma_div_value(t * m, mx, s, a);
    } else {
        assert(s == t) by (nonlinear_arith)
            requires
                a == t * p - s * q,
                0 <= a < q,
                p == q,
                1 <= q,
        ;
        assert(t * m == mx * t + 0) by (nonlinear_arith)
            requires
                m == mx,
        ;
        crate::fixed::lemma_div_value(t * m, mx, t, 0);
    }
}

/// One tick before the longest axis finishes, a slower axis has issued
/// all but one of its pulses.
proof fn lemma_quota_before_last(m: int, mx: int)
    requires
        1 <= m <= mx,
    ensures
        ((mx - 1) * m) / mx == m - 1,
{
    assert((mx - 1) * m == mx * (m - 1) + (mx - m)) by (nonlinear_arith);
    crate::fixed::lemma_div_value((mx - 1) * m, mx, m - 1, mx - m);
}

/// Compute the interleaved pulse schedule for a move of `primary_steps`
/// and `secondary_steps` (signed).
///
/// The primary motor turns forward on a nonnegative delta; the secondary
/// motor's direction line is inverted relative to its delta's sign — a
/// mechanical wiring convention.  The schedule runs until both axes have
/// issued their full step counts: it is `max(|primary|, |secondary|)`
/// ticks long, pulses each axis exactly its own magnitude of times at
/// its proportional rate — after `k` ticks an axis of magnitude `m` has
/// pulsed `floor(k * m / max)` times — and any axis with steps left to
/// issue pulses on the final tick.  An axis whose delta is zero never
/// pulses, and two zero deltas yield an empty schedule.
pub fn plan_pulses(primary_steps: i64, secondary_steps: i64) -> (r: PulsePlan)
    requires
        abs_int(primary_steps as int) <= PULSE_PLAN_LIMIT,
        abs_int(secondary_steps as int) <= PULSE_PLAN_LIMIT,
    ensures
        r.primary_forward <==> primary_steps >= 0,
        r.secondary_forward <==> secondary_steps < 0,
        ({
            let m0 = abs_int(primary_steps as int);
            let m1 = abs_int(secondary_steps as int);
            let mx = if m0 >= m1 {
                m0
            } else {
                m1
            };
            &&& r.ticks@.len() == mx
            &&& count_primary_pulses(r.ticks@) == m0
            &&& count_secondary_pulses(r.ticks@) == m1
            &&& (1 <= m0 ==> r.ticks@.last().pulse_primary)
            &&& (1 <= m1 ==> r.ticks@.last().pulse_secondary)
            &&& (1 <= mx ==> (forall|k: int|
                0 <= k <= mx ==> #[trigger] count_primary_pulses(r.ticks@.take(k)) == (k * m0)
                    / mx))
            &&& (1 <= mx ==> (forall|k: int|
                0 <= k <= mx ==> #[trigger] count_secondary_pulses(r.ticks@.take(k)) == (k
                    * m1) / mx))
        }),
{
    let m0: i64 = abs_i64(primary_steps);
    let m1: i64 = abs_i64(secondary_steps);
    let primary_forward: bool = primary_steps >= 0;
    let secondary_forward: bool = secondary_steps < 0;
    let mut ticks: Vec<PulseTick> = Vec::new();
    if m0 == 0 && m1 == 0 {
        return PulsePlan { primary_forward, secondary_forward, ticks };
    }
    // Each axis's pulse rate as an exact fraction of a pulse per tick:
    // min(m0 / max(m1, 1), 1) for the primary and min(m1 / max(m0, 1),
    // 1) for the secondary.
    let q0: i64 = if m1 >= 1 {
        m1
    } else {
        1
    };
    let p0: i64 = if m0 < q0 {
        m0
    } else {
        q0
    };
    let q1: i64 = if m0 >= 1 {
        m0
    } else {
        1
    };
    let p1: i64 = if m1 < q1 {
        m1
    } else {
        q1
    };
    let max_steps: i64 = if m0 >= m1 {
        m0
    } else {
        m1
    };
    let ghost mx: int = max_steps as int;
    let mut a0: i64 = 0;
    let mut a1: i64 = 0;
    let mut s0: i64 = 0;
    let mut s1: i64 = 0;
    let mut t: i64 = 0;
    proof {
        assert((q0 == mx && p0 == m0) || (p0 == q0 && m0 == mx && 1 <= q0));
        assert((q1 == mx && p1 == m1) || (p1 == q1 && m1 == mx && 1 <= q1));
        assert(ticks@.take(0) =~= Seq::<PulseTick>::empty());
        crate::fixed::lemma_div_value(0, mx, 0, 0);
    }
    while s0 < m0 || s1 < m1
        invariant
            0 <= m0 <= PULSE_PLAN_LIMIT,
            0 <= m1 <= PULSE_PLAN_LIMIT,
            1 <= max_steps,
            mx == max_steps as int,
            max_steps == (if m0 >= m1 {
                m0
            } else {
                m1
            }),
            (q0 == mx && p0 == m0) || (p0 == q0 && m0 == mx && 1 <= q0),
            (q1 == mx && p1 == m1) || (p1 == q1 && m1 == mx && 1 <= q1),
            0 <= p0 <= q0 <= max_steps,
            0 <= p1 <= q1 <= max_steps,
            0 <= s0 <= m0,
            0 <= s1 <= m1,
            0 <= t <= max_steps,
            a0 == t * p0 - s0 * q0,
            0 <= a0 < q0,
            a1 == t * p1 - s1 * q1,
            0 <= a1 < q1,
            ticks@.len() == t,
            count_primary_pulses(ticks@) == s0,
            count_secondary_pulses(ticks@) == s1,
            forall|k: int|
                0 <= k <= t ==> #[trigger] count_primary_pulses(ticks@.take(k)) == (k * m0)
                    / mx,
            forall|k: int|
                0 <= k <= t ==> #[trigger] count_secondary_pulses(ticks@.take(k)) == (k * m1)
                    / mx,
            1 <= m0 && t >= 1 && s0 == m0 ==> ticks@.last().pulse_primary,
            1 <= m1 && t >= 1 && s1 == m1 ==> ticks@.last().pulse_secondary,
        decreases max_steps - t,
    {
        proof {
            lemma_accumulator_quota(
                t as int,
                s0 as int,
                a0 as int,
                p0 as int,
                q0 as int,
                m0 as int,
                mx,
            );
            lemma_accumulator_quota(
                t as int,
                s1 as int,
                a1 as int,
                p1 as int,
                q1 as int,
                m1 as int,
                mx,
            );
            // with an axis still unfinished, the tick counter is short
            // of the longest axis
            if t == max_steps {
                crate::fixed::lemma_div_value(mx * m0 as int, mx, m0 as int, 0);
                crate::fixed::lemma_div_value(mx * m1 as int, mx, m1 as int, 0);
                assert((t as int) * (m0 as int) == mx * (m0 as int)) by (nonlinear_arith)
                    requires
                        t as int == mx,
                ;
                assert((t as int) * (m1 as int) == mx * (m1 as int)) by (nonlinear_arith)
                    requires
                        t as int == mx,
                ;
                assert(false);
            }
            // a pulsing axis still has a step left to issue
            if 1 <= m0 {
                assert((t as int) * (m0 as int) <= (mx - 1) * (m0 as int)) by (nonlinear_arith)
                    requires
                        t as int <= mx - 1,
                        0 <= m0 as int,
                ;
                vstd::arithmetic::div_mod::lemma_div_is_ordered(
                    (t as int) * (m0 as int),
                    (mx - 1) * (m0 as int),
                    mx,
                );
                lemma_quota_before_last(m0 as int, mx);
                assert(s0 <= m0 - 1);
            }
            if 1 <= m1 {
                assert((t as int) * (m1 as int) <= (mx - 1) * (m1 as int)) by (nonlinear_arith)
                    requires
                        t as int <= mx - 1,
                        0 <= m1 as int,
                ;
                vstd::arithmetic::div_mod::lemma_div_is_ordered(
                    (t as int) * (m1 as int),
                    (mx - 1) * (m1 as int),
                    mx,
                );
                lemma_quota_before_last(m1 as int, mx);
                assert(s1 <= m1 - 1);
            }
        }
        let ghost prev_ticks = ticks@;
        a0 = a0 + p0;
        a1 = a1 + p1;
        let mut tick = PulseTick { pulse_primary: false, pulse_secondary: false };
        if a0 >= q0 {
            tick.pulse_primary = true;
            s0 = s0 + 1;
            a0 = a0 - q0;
        }
        if a1 >= q1 {
            tick.pulse_secondary = true;
            s1 = s1 + 1;
            a1 = a1 - q1;
        }
        t = t + 1;
        ticks.push(tick);
        proof {
            assert(ticks@.drop_last() =~= prev_ticks);
            assert(ticks@.last() == tick);
            assert(a0 == t * p0 - s0 * q0) by (nonlinear_arith)
                requires
                    a0 == (t - 1) * p0 - (s0 - (if tick.pulse_primary {
                        1int
                    } else {
                        0int
                    })) * q0 + p0 - (if tick.pulse_primary {
                        q0 as int
                    } else {
                        0int
                    }),
            ;
            assert(a1 == t * p1 - s1 * q1) by (nonlinear_arith)
                requires
                    a1 == (t - 1) * p1 - (s1 - (if tick.pulse_secondary {
                        1int
                    } else {
                        0int
                    })) * q1 + p1 - (if tick.pulse_secondary {
                        q1 as int
                    } else {
                        0int
                    }),
            ;
            lemma_accumulator_quota(
                t as int,
                s0 as int,
                a0 as int,
                p0 as int,
                q0 as int,
                m0 as int,
                mx,
            );
            lemma_accumulator_quota(
                t as int,
                s1 as int,
                a1 as int,
                p1 as int,
                q1 as int,
                m1 as int,
                mx,
            );
            assert(ticks@.take(t as int) =~= ticks@);
            assert forall|k: int| 0 <= k <= t implies #[trigger] count_primary_pulses(
                ticks@.take(k),
            ) == (k * m0) / mx by {
                if k <= t - 1 {
                    assert(ticks@.take(k) =~= prev_ticks.take(k));
                } else {
                    assert(ticks@.take(k) =~= ticks@);
                }
            }
            assert forall|k: int| 0 <= k <= t implies #[trigger] count_secondary_pulses(
                ticks@.take(k),
            ) == (k * m1) / mx by {
                if k <= t - 1 {
                    assert(ticks@.take(k) =~= prev_ticks.take(k));
                } else {
                    assert(ticks@.take(k) =~= ticks@);
                }
            }
        }
    }
    proof {
        assert(s0 == m0 && s1 == m1);
        // the fastest axis pulsed on every tick, so the schedule is
        // exactly the longest magnitude
        if m0 >= m1 {
            assert(p0 == q0);
            assert(t == s0) by (nonlinear_arith)
                requires
                    a0 == t * p0 - s0 * q0,
                    0 <= a0 < q0,
                    p0 == q0,
                    1 <= q0,
            ;
        } else {
            assert(p1 == q1);
            assert(t == s1) by (nonlinear_arith)
                requires
                    a1 == t * p1 - s1 * q1,
                    0 <= a1 < q1,
                    p1 == q1,
                    1 <= q1,
            ;
        }
        assert(t == max_steps);
    }
    PulsePlan { primary_forward, secondary_forward, ticks }
}

/// Microseconds to wait after a tick, as a function of the frame's speed
/// (micro speed units): a linear inverse of the speed clamped into
/// `[1, 100]` units, with a floor that respects the motors' minimum
/// pulse width.
pub open spec fn spec_pulse_period_micros(speed: int) -> int {
    (100 * MICRO as int - clamp_int(speed, MICRO as int, 100 * MICRO as int)) / 10_000 + 250
}

/// Pulse period for a frame speed, in microseconds.  Between 250 and
/// 10150 microseconds, and never increasing in the speed.
pub fn pulse_period_micros(speed: i64) -> (r: i64)
    ensures
        r == spec_pulse_period_micros(speed as int),
        250 <= r <= 10_150,
{
    let clamped: i64 = clamp_i64(speed, MICRO, 100 * MICRO);
    let span: u64 = (100 * MICRO - clamped) as u64;
    proof {
        vstd::arithmetic::div_mod::lemma_div_is_ordered(0, span as int, 10_000);
        vstd::arithmetic::div_mod::lemma_div_is_ordered(span as int, 99_000_000, 10_000);
        crate::fixed::lemma_div_value(0, 10_000, 0, 0);
        crate::fixed::lemma_div_value(99_000_000, 10_000, 9_900, 0);
    }
    (span / 10_000) as i64 + 250
}

/// A faster frame never waits longer between pulses.
pub proof fn lemma_pulse_period_monotone(slower: int, faster: int)
    requires
        slower <= faster,
    ensures
        spec_pulse_period_micros(slower) >= spec_pulse_period_micros(faster),
{
    let lo = MICRO as int;
    let hi = 100 * MICRO as int;
    vstd::arithmetic::div_mod::lemma_div_is_ordered(
        100 * MICRO as int - clamp_int(faster, lo, hi),
        100 * MICRO as int - clamp_int(slower, lo, hi),
        10_000,
    );
}

} // verus!
