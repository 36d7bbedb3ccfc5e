//! The dual-rate scheduler. It keeps two cadences apart, one for redrawing and
//! one for advancing the simulation, and decides at each reading of the clock
//! which of them is due and, if none is, for how long the host may sleep.
//!
//! The scheduler never reads a clock and never sleeps: the host hands it the
//! time, in nanoseconds on a clock of its choice, and acts on the decision.

use vstd::prelude::*;

verus! {

/// The length of a second on the scheduler's clock.
pub const NANOS_PER_SECOND: u64 = 1_000_000_000;

/// What is due.
#[derive(Clone, Copy, Debug, PartialEq, Eq, Structural)]
pub enum FrameStepType {
    Render,
    Physics,
    RenderAndPhysics,
}

/// What the host is to do next.
#[derive(Clone, Copy, Debug, PartialEq, Eq, Structural)]
pub enum FrameDecision {
    /// Something is due now.
    Fire(FrameStepType),
    /// Nothing is due; the earliest deadline is this many nanoseconds away.
    Wait(u64),
}

/// The clock was read at a time before one of the scheduler's reference points.
#[derive(Clone, Copy, Debug, PartialEq, Eq, Structural)]
pub struct ClockError;

/// The scheduler as a mathematical value.
pub struct Schedule {
    pub render_rate: nat,
    pub physics_rate: nat,
    pub render_interval: nat,
    pub physics_interval: nat,
    pub last_render: nat,
    pub last_physics: nat,
}

/// The time between two fires at `rate` fires per second.
pub open spec fn interval_of(rate: nat) -> nat {
    NANOS_PER_SECOND as nat / rate
}

impl Schedule {
    /// A scheduler with the given rates that counts both cadences from `now`.
    pub open spec fn starting(render_rate: nat, physics_rate: nat, now: nat) -> Schedule {
        Schedule {
            render_rate,
            physics_rate,
            render_interval: interval_of(render_rate),
            physics_interval: interval_of(physics_rate),
            last_render: now,
            last_physics: now,
        }
    }

    /// Whether the redraw interval has passed at time `now`.
    pub open spec fn render_due(self, now: nat) -> bool {
        now - self.last_render >= self.render_interval
    }

    /// Whether the simulation interval has passed at time `now`.
    pub open spec fn physics_due(self, now: nat) -> bool {
        now - self.last_physics >= self.physics_interval
    }

    /// Whether the scheduler is on time at `now`: neither reference point
    /// lies ahead, and neither cadence is past its deadline.
    pub open spec fn on_time(self, now: nat) -> bool {
        &&& self.last_render <= now <= self.last_render + self.render_interval
        &&& self.last_physics <= now <= self.last_physics + self.physics_interval
    }

    /// Whether a step of the simulation fires when the scheduler is polled
    /// at `now`, alone or together with a redraw.
    pub open spec fn tick_fires(self, now: nat) -> bool {
        !self.clock_went_back(now) && self.physics_due(now)
    }

    /// Whether `now` lies before one of the two reference points.
    pub open spec fn clock_went_back(self, now: nat) -> bool {
        now < self.last_render || now < self.last_physics
    }

    /// How long it is from `now` until the earlier of the two deadlines.
    pub open spec fn remaining(self, now: nat) -> int {
        vstd::math::min(
            self.render_interval - (now - self.last_render),
            self.physics_interval - (now - self.last_physics),
        )
    }

    /// The decision at time `now`.
    pub open spec fn decision(self, now: nat) -> Result<FrameDecision, ClockError> {
        if self.clock_went_back(now) {
            Err(ClockError)
        } else if self.render_due(now) && self.physics_due(now) {
            Ok(FrameDecision::Fire(FrameStepType::RenderAndPhysics))
        } else if self.render_due(now) {
            Ok(FrameDecision::Fire(FrameStepType::Render))
        } else if self.physics_due(now) {
            Ok(FrameDecision::Fire(FrameStepType::Physics))
        } else {
            Ok(FrameDecision::Wait(self.remaining(now) as u64))
        }
    }

    /// The scheduler after the decision at time `now`: what fired has `now` as
    /// its new reference point, and nothing else changes.
    pub open spec fn after(self, now: nat) -> Schedule {
        if self.clock_went_back(now) {
            self
        } else {
            Schedule {
                last_render: if self.render_due(now) {
                    now
                } else {
                    self.last_render
                },
                last_physics: if self.physics_due(now) {
                    now
                } else {
                    self.last_physics
                },
                ..self
            }
        }
    }
}

/// The scheduler: two rates, the intervals that follow from them, and for
/// each cadence the time at which it last fired.
pub struct FrameLimiter {
    render_rate: u32,
    physical_rate: u32,
    render_interval: u64,
    physics_interval: u64,
    previous_render_time: u64,
    previous_physics_time: u64,
}

impl View for FrameLimiter {
    type V = Schedule;

    closed spec fn view(&self) -> Schedule {
        Schedule {
            render_rate: self.render_rate as nat,
            physics_rate: self.physical_rate as nat,
            render_interval: self.render_interval as nat,
            physics_interval: self.physics_interval as nat,
            last_render: self.previous_render_time as nat,
            last_physics: self.previous_physics_time as nat,
        }
    }
}

impl FrameLimiter {
    /// A scheduler that redraws `render_rate` times and advances the
    /// simulation `physics_rate` times per second, both counted from `now`.
    pub fn new(render_rate: u32, physics_rate: u32, now: u64) -> (limiter: FrameLimiter)
        requires
            render_rate > 0,
            physics_rate > 0,
        ensures
            limiter@ == Schedule::starting(render_rate as nat, physics_rate as nat, now as nat),
    {
        FrameLimiter {
            render_rate,
            physical_rate: physics_rate,
            render_interval: NANOS_PER_SECOND / render_rate as u64,
            physics_interval: NANOS_PER_SECOND / physics_rate as u64,
            previous_render_time: now,
            previous_physics_time: now,
        }
    }

    /// Decides what is due at time `now`. When both intervals have passed,
    /// both fire; when one has, it fires alone; when none has, the host is
    /// told to wait until the earlier deadline. Whatever fires takes `now` as
    /// its new reference point. A clock that went back changes nothing.
    pub fn poll(&mut self, now: u64) -> (decision: Result<FrameDecision, ClockError>)
        ensures
            decision == old(self)@.decision(now as nat),
            final(self)@ == old(self)@.after(now as nat),
    {
        if now < self.previous_render_time || now < self.previous_physics_time {
            return Err(ClockError);
        }
        let render_elapsed_time: u64 = now - self.previous_render_time;
        let physics_elapsed_time: u64 = now - self.previous_physics_time;
        let render_due = render_elapsed_time >= self.render_interval;
        let physics_due = physics_elapsed_time >= self.physics_interval;
        if render_due && physics_due {
            self.previous_render_time = now;
            self.previous_physics_time = now;
            Ok(FrameDecision::Fire(FrameStepType::RenderAndPhysics))
        } else if render_due {
            self.previous_render_time = now;
            Ok(FrameDecision::Fire(FrameStepType::Render))
        } else if physics_due {
            self.previous_physics_time = now;
            Ok(FrameDecision::Fire(FrameStepType::Physics))
        } else {
            let render_wait: u64 = self.render_interval - render_elapsed_time;
            let physics_wait: u64 = self.physics_interval - physics_elapsed_time;
            if render_wait < physics_wait {
                Ok(FrameDecision::Wait(render_wait))
            } else {
                Ok(FrameDecision::Wait(physics_wait))
            }
        }
    }

    /// Changes the redraw rate. The interval follows at once; the reference
    /// point stays, so the next decision holds the new interval against it.
    pub fn set_render_rate(&mut self, render_rate: u32)
        requires
            render_rate > 0,
        ensures
            final(self)@ == (Schedule {
                render_rate: render_rate as nat,
                render_interval: interval_of(render_rate as nat),
                ..old(self)@
            }),
    {
        self.render_rate = render_rate;
        self.render_interval = NANOS_PER_SECOND / render_rate as u64;
    }

    /// Changes the simulation rate. The interval follows at once; the
    /// reference point stays.
    pub fn set_physics_rate(&mut self, physics_rate: u32)
        requires
            physics_rate > 0,
        ensures
            final(self)@ == (Schedule {
                physics_rate: physics_rate as nat,
                physics_interval: interval_of(physics_rate as nat),
                ..old(self)@
            }),
    {
        self.physical_rate = physics_rate;
        self.physics_interval = NANOS_PER_SECOND / physics_rate as u64;
    }

    pub fn get_physics_rate(&self) -> (rate: u32)
        ensures
            rate == self@.physics_rate,
    {
        self.physical_rate
    }

    pub fn get_render_rate(&self) -> (rate: u32)
        ensures
            rate == self@.render_rate,
    {
        self.render_rate
    }

    /// The time between two redraws, in nanoseconds.
    pub fn get_render_interval(&self) -> (interval: u64)
        ensures
            interval == self@.render_interval,
    {
        self.render_interval
    }

    /// The time between two simulation steps, in nanoseconds.
    pub fn get_physics_interval(&self) -> (interval: u64)
        ensures
            interval == self@.physics_interval,
    {
        self.physics_interval
    }
}

/// A host that is told to wait and polls again after exactly that time finds
/// something due; had it polled at any moment before, it would have been told
/// to wait for the rest of that time. The scheduler never sends the host to
/// sleep past the earliest deadline, nor short of it.
pub proof fn lemma_wait_ends_at_deadline(schedule: Schedule, now: nat, wait: u64, early: nat)
    requires
        schedule.decision(now) == Ok::<FrameDecision, ClockError>(FrameDecision::Wait(wait)),
        schedule.render_interval <= u64::MAX,
        schedule.physics_interval <= u64::MAX,
        now <= early < now + wait,
    ensures
        wait > 0,
        schedule.after(now) == schedule,
        schedule.decision((now + wait) as nat) is Ok,
        schedule.decision((now + wait) as nat)->Ok_0 is Fire,
        schedule.decision(early) == Ok::<FrameDecision, ClockError>(
            FrameDecision::Wait((now + wait - early) as u64),
        ),
{
}

/// Whatever fires is not due again before its interval has passed: polled
/// again at `later`, less than the redraw interval after a redraw, the
/// scheduler does not redraw, and likewise for the simulation.
pub proof fn lemma_fire_resets_deadline(schedule: Schedule, now: nat, later: nat)
    requires
        !schedule.clock_went_back(now),
        now <= later,
    ensures
        schedule.render_due(now) && later - now < schedule.render_interval ==> !schedule.after(
            now,
        ).render_due(later),
        schedule.physics_due(now) && later - now < schedule.physics_interval ==> !schedule.after(
            now,
        ).physics_due(later),
{
}

/// A tick is never more than one redraw interval late, as long as the host
/// comes back to poll within one redraw interval: if the simulation was not
/// due when the host polled at `polled` and is due when it polls again at
/// `next`, no later than a redraw interval after, then the simulation fires
/// at `next`, and its deadline lies less than a redraw interval back.
pub proof fn lemma_tick_is_never_late(schedule: Schedule, polled: nat, next: nat)
    requires
        !schedule.clock_went_back(polled),
        polled <= next <= polled + schedule.render_interval,
        !schedule.after(polled).physics_due(polled),
        schedule.after(polled).physics_due(next),
    ensures
        schedule.after(polled).decision(next) is Ok,
        schedule.after(polled).decision(next)->Ok_0 == FrameDecision::Fire(FrameStepType::Physics)
            || schedule.after(polled).decision(next)->Ok_0 == FrameDecision::Fire(
            FrameStepType::RenderAndPhysics,
        ),
        next - (schedule.after(polled).last_physics + schedule.physics_interval)
            < schedule.render_interval,
{
}

/// One turn of a host loop on an ideal clock, on which a sleep takes exactly
/// as long as was asked and nothing else takes any time. The host polls at
/// `now`. Told to wait, it sleeps and the clock moves on by just that time;
/// otherwise what is due fires, and the clock stands. The result is the
/// scheduler and the time after the turn.
pub open spec fn ideal_turn(schedule: Schedule, now: nat) -> (Schedule, nat) {
    match schedule.decision(now) {
        Ok(FrameDecision::Wait(nanos)) => (schedule, (now + nanos) as nat),
        _ => (schedule.after(now), now),
    }
}

/// The scheduler and the time after `turns` turns of a host loop on an ideal
/// clock that starts at `now`.
pub open spec fn ideal_run(schedule: Schedule, now: nat, turns: nat) -> (Schedule, nat)
    decreases turns,
{
    if turns == 0 {
        (schedule, now)
    } else {
        let before = ideal_run(schedule, now, (turns - 1) as nat);
        ideal_turn(before.0, before.1)
    }
}

/// How many times the simulation has fired in the first `turns` turns of that
/// loop.
pub open spec fn ticks_fired(schedule: Schedule, now: nat, turns: nat) -> nat
    decreases turns,
{
    if turns == 0 {
        0
    } else {
        let before = ideal_run(schedule, now, (turns - 1) as nat);
        ticks_fired(schedule, now, (turns - 1) as nat) + (if before.0.tick_fires(before.1) {
            1nat
        } else {
            0nat
        })
    }
}

/// On an ideal clock the simulation ticks exactly on time, for as long as the
/// loop runs. Take a scheduler that is on time at `now`, as a new one is, and
/// let the host loop run for any number of turns. Then the scheduler is still
/// on time; the simulation has last fired exactly as many intervals after
/// its first reference point as it has fired times; and if it fires in the
/// next turn, it does so exactly one interval later. So the first tick comes
/// one interval after the start, every further one exactly one interval
/// after the one before, none late and none early; and at every moment the
/// number of ticks so far is the number of whole intervals that have passed,
/// or one less at the very moment at which a tick is due.
pub proof fn lemma_ticks_on_an_ideal_clock(schedule: Schedule, now: nat, turns: nat)
    requires
        schedule.on_time(now),
        schedule.render_interval <= u64::MAX,
        schedule.physics_interval <= u64::MAX,
    ensures
        ({
            let after = ideal_run(schedule, now, turns);
            let ticks = ticks_fired(schedule, now, turns);
            &&& after.0.on_time(after.1)
            &&& now <= after.1
            &&& after.0 == (Schedule {
                last_render: after.0.last_render,
                last_physics: after.0.last_physics,
                ..schedule
            })
            &&& after.0.last_physics == schedule.last_physics + ticks * schedule.physics_interval
            &&& after.0.tick_fires(after.1) ==> after.1 == schedule.last_physics + (ticks + 1)
                * schedule.physics_interval
            &&& schedule.last_physics + ticks * schedule.physics_interval <= after.1
                <= schedule.last_physics + (ticks + 1) * schedule.physics_interval
        }),
    decreases turns,
{
    let interval = schedule.physics_interval as int;
    if turns > 0 {
        lemma_ticks_on_an_ideal_clock(schedule, now, (turns - 1) as nat);
        let before = ideal_run(schedule, now, (turns - 1) as nat);
        let fired = ticks_fired(schedule, now, (turns - 1) as nat) as int;
        assert((fired + 1) * interval == fired * interval + interval) by (nonlinear_arith);
        assert((fired + 2) * interval == fired * interval + interval + interval)
            by (nonlinear_arith);
    } else {
        assert(0 * interval == 0) by (nonlinear_arith);
        assert((0 + 1) * interval == interval) by (nonlinear_arith);
    }
}

/// On an ideal clock time does not stand still: where both intervals are
/// longer than nothing, any two turns of the host loop take the clock
/// forward, since a turn in which something fires is followed by a turn in
/// which the host sleeps. So the loop reaches every moment.
pub proof fn lemma_ideal_clock_moves_on(schedule: Schedule, now: nat, turns: nat)
    requires
        schedule.on_time(now),
        0 < schedule.render_interval <= u64::MAX,
        0 < schedule.physics_interval <= u64::MAX,
    ensures
        ideal_run(schedule, now, turns).1 < ideal_run(schedule, now, (turns + 2) as nat).1,
{
    lemma_ticks_on_an_ideal_clock(schedule, now, turns);
    lemma_ticks_on_an_ideal_clock(schedule, now, (turns + 1) as nat);
    let first = ideal_run(schedule, now, turns);
    let second = ideal_run(schedule, now, (turns + 1) as nat);
    assert(second == ideal_turn(first.0, first.1));
    assert(ideal_run(schedule, now, (turns + 2) as nat) == ideal_turn(second.0, second.1));
}

/// A new scheduler is on time at the moment from which it counts, and its
/// intervals are no longer than a second.
pub proof fn lemma_new_scheduler_is_on_time(render_rate: nat, physics_rate: nat, now: nat)
    requires
        render_rate > 0,
        physics_rate > 0,
    ensures
        Schedule::starting(render_rate, physics_rate, now).on_time(now),
        Schedule::starting(render_rate, physics_rate, now).render_interval <= NANOS_PER_SECOND,
        Schedule::starting(render_rate, physics_rate, now).physics_interval <= NANOS_PER_SECOND,
{
    vstd::arithmetic::div_mod::lemma_div_is_ordered_by_denominator(
        NANOS_PER_SECOND as int,
        1,
        render_rate as int,
    );
    vstd::arithmetic::div_mod::lemma_div_is_ordered_by_denominator(
        NANOS_PER_SECOND as int,
        1,
        physics_rate as int,
    );
    vstd::arithmetic::div_mod::lemma_div_pos_is_pos(NANOS_PER_SECOND as int, render_rate as int);
    vstd::arithmetic::div_mod::lemma_div_pos_is_pos(NANOS_PER_SECOND as int, physics_rate as int);
}

} // verus!
