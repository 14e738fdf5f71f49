//! The look-ahead trajectory planner.
//!
//! The planner keeps a FIFO of *checkpoints* — queued target points with
//! their pre-computed segment geometry — and a *current frame*, the last
//! emitted trajectory sample.  Each call to [`MotionController::next_frame`]
//! advances one step along the front segment: it accelerates toward
//! `max_speed`, and decelerates in time to reach `min_speed` exactly at
//! the next directional inflection point (or at the end of the queue).

use vstd::prelude::*;
use std::collections::VecDeque;
use crate::coordinate::{PolarCoordinate, COORD_LIMIT, DISTANCE_LIMIT};
use crate::motion_frame::MotionFrame;
use crate::fixed::{
    abs_int,
    ceil_div_int,
    round_div_int,
    clamp_int,
    sat_add_int,
    ceil_div_i64,
    clamp_i64,
    sat_add_i64,
    mul_div_round_i64,
    MICRO,
};

verus! {

/// Upper bound on `max_acceleration` (micro speed units per unit of path).
pub const ACCEL_LIMIT: i64 = 1_000_000_000;

/// Upper bound on `max_speed` (micro speed units).
pub const SPEED_LIMIT: i64 = 1_000_000_000;

/// Upper bound on `step_distance` (micro-units of path per frame).
pub const STEP_DISTANCE_LIMIT: i64 = 1_000_000_000;

/// Upper bound on the cumulative path length a checkpoint may carry.
pub const ABS_DISTANCE_LIMIT: i64 = 4_000_000_000_000_000;

/// Look-ahead slack: the queue stops accepting once the distance still to
/// travel past the slowdown point reaches half a unit.
pub const READY_SLACK: i64 = 500_000;

/// An enqueued target with its pre-computed segment geometry.
///
/// `vector` points from the previous target to `position`; `steps` is the
/// number of frames the segment takes; `step_size` is the effective path
/// length of each of those frames.
#[derive(Clone, Copy, PartialEq, Eq, Structural, Debug)]
pub struct Checkpoint {
    pub position: PolarCoordinate,
    pub vector: PolarCoordinate,
    pub absolute_distance: i64,
    pub steps: i64,
    pub step_size: i64,
}

/// Planner configuration, immutable after construction.
#[derive(Clone, Copy, PartialEq, Eq, Structural, Debug)]
pub struct MotionControllerConfig {
    pub home_position: PolarCoordinate,
    pub max_acceleration: i64,
    pub max_speed: i64,
    pub min_speed: i64,
    pub step_distance: i64,
}

impl MotionControllerConfig {
    /// A usable configuration: positive resolution and acceleration, an
    /// ordered speed band, and everything small enough that the planner's
    /// arithmetic stays within `i64`.
    pub open spec fn wf(self) -> bool {
        &&& self.home_position.bounded(COORD_LIMIT as int)
        &&& 1 <= self.max_acceleration <= ACCEL_LIMIT
        &&& 0 <= self.min_speed
        &&& self.min_speed <= self.max_speed
        &&& self.max_speed <= SPEED_LIMIT
        &&& 1 <= self.step_distance <= STEP_DISTANCE_LIMIT
    }
}

/// Size and range facts every stored checkpoint satisfies on its own.
pub open spec fn checkpoint_local_wf(cp: Checkpoint, config: MotionControllerConfig) -> bool {
    &&& cp.position.bounded(COORD_LIMIT as int)
    &&& cp.vector.bounded(2 * COORD_LIMIT as int)
    &&& 1 <= cp.steps
    &&& 1 <= cp.step_size <= config.step_distance
    &&& 0 <= cp.absolute_distance <= ABS_DISTANCE_LIMIT
}

/// How a checkpoint relates to the point the segment starts from: its
/// vector, cumulative distance, step count and step size are all derived
/// from the previous position and cumulative distance.
pub open spec fn checkpoint_links(
    prev_position: PolarCoordinate,
    prev_absolute_distance: int,
    cp: Checkpoint,
    config: MotionControllerConfig,
) -> bool {
    let d = prev_position.spec_distance(cp.position);
    &&& cp.position != prev_position
    &&& 1 <= d
    &&& cp.vector == cp.position.spec_subtract(prev_position)
    &&& cp.absolute_distance == prev_absolute_distance + d
    &&& cp.steps == ceil_div_int(d, config.step_distance as int)
    &&& cp.step_size == ceil_div_int(d, cp.steps as int)
}

/// Index of the first checkpoint at or after `i` whose vector's
/// component-wise sign differs from `start_dir`; the queue's length when
/// none does.
pub open spec fn first_direction_change(
    cps: Seq<Checkpoint>,
    start_dir: PolarCoordinate,
    i: int,
) -> int
    decreases cps.len() - i,
{
    if i >= cps.len() {
        i
    } else if cps[i].vector.spec_direction() != start_dir {
        i
    } else {
        first_direction_change(cps, start_dir, i + 1)
    }
}

/// The scan stays within `[i, len]`.
pub proof fn lemma_first_direction_change_range(
    cps: Seq<Checkpoint>,
    start_dir: PolarCoordinate,
    i: int,
)
    requires
        0 <= i <= cps.len(),
    ensures
        i <= first_direction_change(cps, start_dir, i) <= cps.len(),
    decreases cps.len() - i,
{
    if i < cps.len() && cps[i].vector.spec_direction() == start_dir {
        lemma_first_direction_change_range(cps, start_dir, i + 1);
    }
}

/// The cumulative distance of the last checkpoint that still moves in
/// the same component-wise direction as the front of the queue: the
/// point at which the arm must have slowed to a stop.
pub open spec fn spec_next_stop_distance(cps: Seq<Checkpoint>) -> int
    recommends
        1 <= cps.len(),
{
    let start_dir = cps[0].vector.spec_direction();
    cps[first_direction_change(cps, start_dir, 0) - 1].absolute_distance as int
}

/// A queued segment is traversed in exactly `cp.steps` frames.
///
/// Each frame along the segment adds `cp.step_size` to the cumulative
/// distance (see `next_frame`), and the checkpoint is consumed once that
/// distance reaches `cp.absolute_distance`.  Starting aligned at the
/// segment's beginning, the first `cp.steps - 1` frames fall short of the
/// checkpoint and the `cp.steps`-th reaches it.
pub proof fn lemma_segment_frame_count(
    prev_position: PolarCoordinate,
    prev_absolute_distance: int,
    cp: Checkpoint,
    config: MotionControllerConfig,
    k: int,
)
    requires
        config.wf(),
        checkpoint_links(prev_position, prev_absolute_distance, cp, config),
        0 <= k,
    ensures
        k < cp.steps ==> prev_absolute_distance + k * cp.step_size < cp.absolute_distance,
        k >= cp.steps ==> prev_absolute_distance + k * cp.step_size >= cp.absolute_distance,
{
    let d = prev_position.spec_distance(cp.position);
    let sd = config.step_distance as int;
    let steps = cp.steps as int;
    let ss = cp.step_size as int;
    crate::fixed::lemma_ceil_div_int_bounds(d, sd);
    crate::fixed::lemma_ceil_div_int_bounds(d, steps);
    assert(ss <= sd) by (nonlinear_arith)
        requires
            1 <= steps,
            1 <= sd,
            1 <= d,
            steps * sd >= d,
            steps * (ss - 1) < d,
    ;
    if k < steps {
        assert(k * ss < d) by (nonlinear_arith)
            requires
                0 <= k,
                k <= steps - 1,
                1 <= ss <= sd,
                steps * sd >= d,
                (steps - 1) * sd < d,
            ;
    } else {
        assert(k * ss >= d) by (nonlinear_arith)
            requires
                k >= steps,
                1 <= ss,
                steps * ss >= d,
            ;
    }
}

/// Cumulative distances increase strictly along the FIFO: each queued
/// checkpoint lies farther along the path than every one before it.
pub proof fn lemma_fifo_distances_increase(mc: MotionController, i: int, j: int)
    requires
        mc.wf(),
        0 <= i < j < mc.checkpoints@.len(),
    ensures
        mc.checkpoints@[i].absolute_distance < mc.checkpoints@[j].absolute_distance,
    decreases j - i,
{
    if i + 1 < j {
        lemma_fifo_distances_increase(mc, i + 1, j);
    }
}

/// Once the slowdown point lies at or behind the current frame and the
/// speed is still above `min_speed`, the next emitted frame's speed
/// strictly decreases — and never falls below `min_speed`.
///
/// The premise `MICRO <= max_acceleration * step_size` says that one
/// step of braking removes at least one micro-unit of speed; with a
/// coarser configuration the computed speed change rounds to zero and
/// the speed merely holds.
pub proof fn lemma_decelerates_past_slowdown(
    config: MotionControllerConfig,
    f: MotionFrame,
    cp: Checkpoint,
    slowdown: int,
)
    requires
        config.wf(),
        checkpoint_local_wf(cp, config),
        frame_wf(f, config),
        slowdown <= f.absolute_distance,
        config.min_speed < f.speed,
        MICRO <= config.max_acceleration * cp.step_size,
    ensures
        spec_next_speed(config, f, cp, slowdown) < f.speed,
        config.min_speed <= spec_next_speed(config, f, cp, slowdown),
{
    let p = config.max_acceleration * cp.step_size;
    let delta = round_div_int(p, MICRO as int);
    assert(p <= 1_000_000_000_000_000_000) by (nonlinear_arith)
        requires
            p == config.max_acceleration * cp.step_size,
            1 <= config.max_acceleration <= 1_000_000_000,
            1 <= cp.step_size <= 1_000_000_000,
    ;
    vstd::arithmetic::div_mod::lemma_div_is_ordered(MICRO as int, p + (MICRO as int) / 2, MICRO as int);
    assert((MICRO as int) / (MICRO as int) == 1) by {
        crate::fixed::lemma_div_value(MICRO as int, MICRO as int, 1, 0);
    }
    assert(1 <= delta);
}

/// The braking ramp has the configured length, to within one step.
///
/// Deceleration begins on the first frame at or past the slowdown
/// point.  For such a frame, the path still to travel before the stop
/// point equals `(speed / max_acceleration) * step_distance` — the
/// planner's braking-ramp formula — short by less than one step.
pub proof fn lemma_braking_ramp_length(mc: MotionController, step_size: int)
    requires
        mc.wf(),
        1 <= mc.checkpoints@.len(),
        1 <= step_size,
        // the frame that just crossed the slowdown point
        mc.spec_next_slowdown_distance() <= mc.spec_effective_frame().absolute_distance,
        mc.spec_effective_frame().absolute_distance < mc.spec_next_slowdown_distance()
            + step_size,
    ensures
        ({
            let ramp = round_div_int(
                mc.spec_current_speed() * mc.config.step_distance,
                mc.config.max_acceleration as int,
            );
            let remaining = spec_next_stop_distance(mc.checkpoints@) - mc.spec_effective_frame()
                .absolute_distance;
            ramp - step_size < remaining <= ramp
        }),
{
}

/// Range facts the stored current frame satisfies.
pub open spec fn frame_wf(f: MotionFrame, config: MotionControllerConfig) -> bool {
    &&& 0 <= f.speed <= config.max_speed
    &&& 0 <= f.relative_distance <= config.step_distance
    &&& 0 <= f.absolute_distance
}

/// A frame position advanced by one scaled vector, each component
/// saturating at the representable range.
pub open spec fn spec_advanced_position(
    p: PolarCoordinate,
    sv: PolarCoordinate,
) -> PolarCoordinate {
    PolarCoordinate {
        theta: sat_add_int(p.theta as int, sv.theta as int) as i64,
        rho: sat_add_int(p.rho as int, sv.rho as int) as i64,
    }
}

/// The speed of the next frame: accelerate toward the slowdown point or
/// decelerate past it, hold inside the coasting window — where less than
/// one step of runway remains before the slowdown point — and clamp into
/// the configured band.
pub open spec fn spec_next_speed(
    config: MotionControllerConfig,
    f: MotionFrame,
    cp: Checkpoint,
    slowdown: int,
) -> int {
    let delta = round_div_int(config.max_acceleration * cp.step_size, MICRO as int);
    let raw = if slowdown > f.absolute_distance {
        f.speed + delta
    } else {
        f.speed - delta
    };
    let held = if f.absolute_distance < slowdown && slowdown < f.absolute_distance
        + cp.step_size {
        f.speed as int
    } else {
        raw
    };
    clamp_int(held, config.min_speed as int, config.max_speed as int)
}

/// The look-ahead trajectory planner.
pub struct MotionController {
    pub checkpoints: VecDeque<Checkpoint>,
    pub current_frame: Option<MotionFrame>,
    pub config: MotionControllerConfig,
}

impl MotionController {
    /// The planner's invariant: a usable configuration, every checkpoint
    /// well formed, consecutive checkpoints correctly chained, and the
    /// current frame (once seeded) within the configured ranges.
    pub open spec fn wf(self) -> bool {
        &&& self.config.wf()
        &&& forall|i: int|
            0 <= i < self.checkpoints@.len() ==> checkpoint_local_wf(
                #[trigger] self.checkpoints@[i],
                self.config,
            )
        &&& forall|i: int|
            1 <= i < self.checkpoints@.len() ==> checkpoint_links(
                self.checkpoints@[i - 1].position,
                self.checkpoints@[i - 1].absolute_distance as int,
                #[trigger] self.checkpoints@[i],
                self.config,
            )
        &&& match self.current_frame {
            Some(f) => frame_wf(f, self.config),
            None => true,
        }
    }

    /// The point a newly enqueued segment would start from: the last
    /// queued target, or the home position when the queue is empty.
    pub open spec fn spec_tail_position(self) -> PolarCoordinate {
        if self.checkpoints@.len() == 0 {
            self.config.home_position
        } else {
            self.checkpoints@.last().position
        }
    }

    /// The cumulative distance a newly enqueued segment would start from.
    pub open spec fn spec_tail_abs(self) -> int {
        if self.checkpoints@.len() == 0 {
            0
        } else {
            self.checkpoints@.last().absolute_distance as int
        }
    }

    /// The checkpoint that enqueueing `position` appends.
    pub open spec fn spec_new_checkpoint(self, position: PolarCoordinate) -> Checkpoint {
        let prev_position = self.spec_tail_position();
        let d = prev_position.spec_distance(position);
        let steps = ceil_div_int(d, self.config.step_distance as int);
        Checkpoint {
            position,
            vector: position.spec_subtract(prev_position),
            absolute_distance: (self.spec_tail_abs() + d) as i64,
            steps: steps as i64,
            step_size: ceil_div_int(d, steps) as i64,
        }
    }

    /// The speed of the last emitted frame, or zero before the first.
    pub open spec fn spec_current_speed(self) -> int {
        match self.current_frame {
            None => 0,
            Some(f) => f.speed as int,
        }
    }

    /// The cumulative distance at which the planner must begin
    /// decelerating: the next stop point, minus the length of the braking
    /// ramp `(speed / max_acceleration) * step_distance`.
    pub open spec fn spec_next_slowdown_distance(self) -> int {
        spec_next_stop_distance(self.checkpoints@) - round_div_int(
            self.spec_current_speed() * self.config.step_distance,
            self.config.max_acceleration as int,
        )
    }

    /// The frame the planner currently stands on: the stored frame, or
    /// the seed frame — at rest at the home position — before the first
    /// emission.
    pub open spec fn spec_effective_frame(self) -> MotionFrame {
        match self.current_frame {
            Some(f) => f,
            None => MotionFrame {
                position: self.config.home_position,
                speed: 0,
                relative_distance: 0,
                absolute_distance: 0,
            },
        }
    }

    /// The frame the next call to `next_frame` emits when the queue is
    /// non-empty: one step along the front segment's vector, with the
    /// speed accelerated, held or decelerated against the slowdown point
    /// and clamped into the configured band.
    pub open spec fn spec_next_frame(self) -> MotionFrame
        recommends
            1 <= self.checkpoints@.len(),
    {
        let f = self.spec_effective_frame();
        let cp = self.checkpoints@[0];
        let slowdown = self.spec_next_slowdown_distance();
        let sv = cp.vector.spec_scale(1, cp.steps as int);
        MotionFrame {
            position: spec_advanced_position(f.position, sv),
            speed: spec_next_speed(self.config, f, cp, slowdown) as i64,
            relative_distance: cp.step_size,
            absolute_distance: sat_add_int(
                f.absolute_distance as int,
                cp.step_size as int,
            ) as i64,
        }
    }

    /// Emit the next planned frame.
    ///
    /// On the first call the current frame is seeded at the home position
    /// with speed zero.  While the queue is empty the stored frame is
    /// returned unchanged.  Otherwise the emitted frame advances one step
    /// along the front segment, and that checkpoint is consumed as soon
    /// as the cumulative distance reaches it.  Every frame emitted along
    /// a segment has its speed inside `[min_speed, max_speed]`, and the
    /// cumulative distance never decreases.
    pub fn next_frame(&mut self) -> (r: MotionFrame)
        requires
            old(self).wf(),
        ensures
            final(self).wf(),
            final(self).config == old(self).config,
            final(self).current_frame == Some(r),
            old(self).checkpoints@.len() == 0 ==> r == old(self).spec_effective_frame()
                && final(self).checkpoints@ == old(self).checkpoints@,
            old(self).checkpoints@.len() > 0 ==> r == old(self).spec_next_frame(),
            old(self).checkpoints@.len() > 0 ==> final(self).checkpoints@ == (
            if r.absolute_distance >= old(self).checkpoints@[0].absolute_distance {
                old(self).checkpoints@.drop_first()
            } else {
                old(self).checkpoints@
            }),
            old(self).checkpoints@.len() > 0 ==> old(self).config.min_speed <= r.speed
                && r.speed <= old(self).config.max_speed,
            r.absolute_distance >= old(self).spec_effective_frame().absolute_distance,
    {
        let current: MotionFrame = match self.current_frame {
            Some(f) => f,
            None => {
                let seed = MotionFrame {
                    position: self.config.home_position,
                    speed: 0,
                    relative_distance: 0,
                    absolute_distance: 0,
                };
                self.current_frame = Some(seed);
                seed
            },
        };
        let queue_len: usize = self.checkpoints.len();
        if queue_len == 0 {
            return current;
        }
        let cp: Checkpoint = self.checkpoints[0];
        let slowdown: i64 = self.next_slowdown_distance();
        proof {
            assert(self.spec_next_slowdown_distance() == old(self).spec_next_slowdown_distance());
            assert(abs_int(self.config.max_acceleration as int * cp.step_size as int)
                <= 1_000_000_000_000_000_000) by (nonlinear_arith)
                requires
                    1 <= self.config.max_acceleration <= 1_000_000_000,
                    1 <= cp.step_size <= 1_000_000_000,
            ;
        }
        let delta: i64 = mul_div_round_i64(self.config.max_acceleration, cp.step_size, MICRO);
        let mut speed: i64 = if slowdown > current.absolute_distance {
            current.speed + delta
        } else {
            current.speed - delta
        };
        let next_absolute: i64 = sat_add_i64(current.absolute_distance, cp.step_size);
        if slowdown > current.absolute_distance && slowdown < next_absolute {
            // too little runway to accelerate a full step, and too early
            // to decelerate: hold the current speed
            speed = current.speed;
        }
        let clamped: i64 = clamp_i64(speed, self.config.min_speed, self.config.max_speed);
        let scaled_vector: PolarCoordinate = cp.vector.scale(1, cp.steps);
        let next = MotionFrame {
            position: PolarCoordinate {
                theta: sat_add_i64(current.position.theta, scaled_vector.theta),
                rho: sat_add_i64(current.position.rho, scaled_vector.rho),
            },
            speed: clamped,
            relative_distance: cp.step_size,
            absolute_distance: next_absolute,
        };
        if next.absolute_distance >= cp.absolute_distance {
            let _ = self.checkpoints.pop_front();
            proof {
                let cps = self.checkpoints@;
                let old_cps = old(self).checkpoints@;
                assert(cps =~= old_cps.drop_first());
                assert forall|i: int| 1 <= i < cps.len() implies checkpoint_links(
                    cps[i - 1].position,
                    cps[i - 1].absolute_distance as int,
                    #[trigger] cps[i],
                    self.config,
                ) by {
                    assert(cps[i] == old_cps[i + 1]);
                    assert(cps[i - 1] == old_cps[i]);
                }
            }
        }
        self.current_frame = Some(next);
        next
    }

    /// A fresh planner: empty FIFO, no current frame.
    pub fn new(config: MotionControllerConfig) -> (r: MotionController)
        requires
            config.wf(),
        ensures
            r.wf(),
            r.checkpoints@.len() == 0,
            r.current_frame is None,
            r.config == config,
    {
        MotionController { checkpoints: VecDeque::new(), current_frame: None, config }
    }

    /// Scan the FIFO from the front for the first change of
    /// component-wise direction and return the cumulative distance of the
    /// checkpoint just before it (the tail's when no change occurs).
    fn next_stop_distance(&self) -> (r: i64)
        requires
            self.wf(),
            1 <= self.checkpoints@.len(),
        ensures
            r == spec_next_stop_distance(self.checkpoints@),
            0 <= r <= ABS_DISTANCE_LIMIT,
    {
        let ghost cps = self.checkpoints@;
        let len: usize = self.checkpoints.len();
        let start_direction: PolarCoordinate = self.checkpoints[0].vector.direction();
        let mut result: i64 = self.checkpoints[0].absolute_distance;
        let mut i: usize = 0;
        proof {
            lemma_first_direction_change_range(cps, start_direction, 0);
        }
        while i < len
            invariant
                self.wf(),
                cps == self.checkpoints@,
                len == cps.len(),
                1 <= len,
                0 <= i <= len,
                start_direction == cps[0].vector.spec_direction(),
                forall|j: int|
                    0 <= j < i ==> (#[trigger] cps[j]).vector.spec_direction() == start_direction,
                result == if i == 0 {
                    cps[0].absolute_distance
                } else {
                    cps[i - 1].absolute_distance
                },
                first_direction_change(cps, start_direction, 0) == first_direction_change(
                    cps,
                    start_direction,
                    i as int,
                ),
            decreases len - i,
        {
            let cp_direction: PolarCoordinate = self.checkpoints[i].vector.direction();
            if !start_direction.equals(&cp_direction) {
                proof {
                    assert(first_direction_change(cps, start_direction, i as int) == i);
                    assert(1 <= i);
                }
                return result;
            }
            result = self.checkpoints[i].absolute_distance;
            proof {
                assert(first_direction_change(cps, start_direction, i as int)
                    == first_direction_change(cps, start_direction, i + 1));
            }
            i = i + 1;
        }
        proof {
            assert(first_direction_change(cps, start_direction, len as int) == len);
        }
        result
    }

    /// The cumulative distance at which deceleration must begin so that
    /// the arm reaches a stop at the next direction change.
    fn next_slowdown_distance(&self) -> (r: i64)
        requires
            self.wf(),
            1 <= self.checkpoints@.len(),
        ensures
            r == self.spec_next_slowdown_distance(),
            r <= ABS_DISTANCE_LIMIT,
            -2_000_000_000_000_000_000 <= r,
    {
        let current_speed: i64 = match &self.current_frame {
            None => 0,
            Some(f) => f.speed,
        };
        let stop: i64 = self.next_stop_distance();
        proof {
            assert(abs_int(current_speed as int * self.config.step_distance as int)
                <= 1_000_000_000_000_000_000) by (nonlinear_arith)
                requires
                    0 <= current_speed <= 1_000_000_000,
                    1 <= self.config.step_distance <= 1_000_000_000,
            ;
        }
        let braking: i64 = mul_div_round_i64(
            current_speed,
            self.config.step_distance,
            self.config.max_acceleration,
        );
        stop - braking
    }

    /// Whether the look-ahead window still has room for another target:
    /// true when the queue is empty, or when less than half a unit of
    /// path remains between the slowdown point and the queued tail.
    pub fn is_queue_ready(&self) -> (r: bool)
        requires
            self.wf(),
        ensures
            r <==> (self.checkpoints@.len() == 0 || self.spec_tail_abs()
                < self.spec_next_slowdown_distance() + READY_SLACK),
    {
        let queue_len: usize = self.checkpoints.len();
        if queue_len == 0 {
            return true;
        }
        let last_absolute: i64 = self.checkpoints[queue_len - 1].absolute_distance;
        let slowdown: i64 = self.next_slowdown_distance();
        last_absolute - slowdown < READY_SLACK
    }

    /// Append a checkpoint for `position`, unless it equals the point the
    /// segment would start from — a duplicate target is silently ignored.
    ///
    /// The segment's step count is the distance divided by the configured
    /// step length, rounded up; its effective step size is the distance
    /// divided by that count, rounded up to the next micro-unit.
    pub fn queue_position(&mut self, position: PolarCoordinate)
        requires
            old(self).wf(),
            position.bounded(COORD_LIMIT as int),
            position == old(self).spec_tail_position() || 1 <= old(self).spec_tail_position()
                .spec_distance(position),
            position != old(self).spec_tail_position() ==> old(self).spec_tail_abs()
                + DISTANCE_LIMIT <= ABS_DISTANCE_LIMIT,
        ensures
            final(self).wf(),
            position == old(self).spec_tail_position() ==> *final(self) == *old(self),
            position != old(self).spec_tail_position() ==> final(self).checkpoints@ == old(
                self,
            ).checkpoints@.push(old(self).spec_new_checkpoint(position)),
            final(self).current_frame == old(self).current_frame,
            final(self).config == old(self).config,
    {
        let queue_len: usize = self.checkpoints.len();
        let prev_position: PolarCoordinate;
        let prev_absolute_distance: i64;
        if queue_len == 0 {
            prev_position = self.config.home_position;
            prev_absolute_distance = 0;
        } else {
            let tail = &self.checkpoints[queue_len - 1];
            prev_position = tail.position;
            prev_absolute_distance = tail.absolute_distance;
        }
        if prev_position.equals(&position) {
            return;
        }
        proof {
            crate::coordinate::lemma_distance_bounded(prev_position, position);
        }
        let distance: i64 = prev_position.distance(&position);
        let steps: i64 = ceil_div_i64(distance, self.config.step_distance);
        let step_size: i64 = ceil_div_i64(distance, steps);
        proof {
            let d = distance as int;
            let sd = self.config.step_distance as int;
            assert(step_size <= sd) by (nonlinear_arith)
                requires
                    1 <= steps,
                    1 <= sd,
                    1 <= d,
                    steps * sd >= d,
                    steps * (step_size - 1) < d,
            ;
        }
        let vector: PolarCoordinate = position.subtract(&prev_position);
        let cp = Checkpoint {
            position,
            vector,
            absolute_distance: prev_absolute_distance + distance,
            steps,
            step_size,
        };
        self.checkpoints.push_back(cp);
        proof {
            let cps = self.checkpoints@;
            let old_cps = old(self).checkpoints@;
            assert(cps == old_cps.push(cp));
            assert forall|i: int| 0 <= i < cps.len() implies checkpoint_local_wf(
                #[trigger] cps[i],
                self.config,
            ) by {
                if i < old_cps.len() {
                    assert(cps[i] == old_cps[i]);
                }
            }
            assert forall|i: int| 1 <= i < cps.len() implies checkpoint_links(
                cps[i - 1].position,
                cps[i - 1].absolute_distance as int,
                #[trigger] cps[i],
                self.config,
            ) by {
                if i < old_cps.len() {
                    assert(cps[i] == old_cps[i]);
                    assert(cps[i - 1] == old_cps[i - 1]);
                } else {
                    assert(cps[i] == cp);
                }
            }
        }
    }
}

} // verus!
