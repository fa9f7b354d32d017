use crate::brightness::spec_clamp;
use vstd::arithmetic::div_mod::lemma_mod_multiples_vanish;
use vstd::arithmetic::div_mod::lemma_small_mod;
use vstd::prelude::*;

verus! {

/// Longest time that the steps of a transition may take, in milliseconds.
pub const TRANSITION_MAX_MS: u64 = 200;

/// Pause after each step of a transition, in milliseconds.
pub const TRANSITION_STEP_MS: u64 = 1;

/// Pause of a tick on which nothing was written, in milliseconds.
pub const WAITING_SLEEP_MS: u64 = 100;

/// A transition goal: the brightness to arrive at, and the signed amount
/// by which each step moves toward it.
#[derive(Debug, PartialEq, Eq, Clone, Copy, Structural)]
pub struct Target {
    pub desired: u64,
    pub step: i64,
}

/// What the caller has to do after a tick.
#[derive(Debug, PartialEq, Eq, Clone, Copy, Structural)]
pub enum Action {
    /// The brightness was changed from outside: report the new value as a
    /// user edit.
    Publish(u64),
    /// Write the value to the actuator, hand what it accepted to
    /// `written`, and pause for `TRANSITION_STEP_MS`.
    Write(u64),
    /// Nothing to do: pause for `WAITING_SLEEP_MS`.
    Wait,
}

/// `value + step`, kept within the range of `u64`.
pub open spec fn spec_saturating_add_signed(value: u64, step: i64) -> u64 {
    if value + step < 0 {
        0
    } else if value + step > u64::MAX {
        u64::MAX
    } else {
        (value + step) as u64
    }
}

/// `value + step`, kept within the range of `u64`.
pub fn saturating_add_signed(value: u64, step: i64) -> (sum: u64)
    ensures
        sum == spec_saturating_add_signed(value, step),
{
    if step >= 0 {
        value.saturating_add(step as u64)
    } else if step == i64::MIN {
        value.saturating_sub(0x8000_0000_0000_0000)
    } else {
        value.saturating_sub((-step) as u64)
    }
}

/// The distance between two brightness values.
pub open spec fn spec_abs_diff(first: u64, second: u64) -> int {
    if first >= second {
        first - second
    } else {
        second - first
    }
}

/// The size of the steps of a transition from `current` to `desired`: the
/// distance divided by the number of steps that fit into
/// `TRANSITION_MAX_MS`, rounded up.
pub open spec fn spec_step_magnitude(current: u64, desired: u64) -> int {
    (spec_abs_diff(current, desired) + TRANSITION_MAX_MS - 1) / (TRANSITION_MAX_MS as int)
}

/// The step of a transition from `current` to `desired`: its magnitude,
/// with the sign of the direction.
pub open spec fn spec_step_size(current: u64, desired: u64) -> int {
    if desired >= current {
        spec_step_magnitude(current, desired)
    } else {
        -spec_step_magnitude(current, desired)
    }
}

impl Target {
    /// Whether `current` lies at or beyond `desired` in the direction of `step`.
    pub open spec fn spec_reached(&self, current: u64) -> bool {
        (self.step > 0 && current >= self.desired) || (self.step < 0 && current <= self.desired)
    }

    /// Whether `current` lies at or beyond `desired` in the direction of `step`.
    #[verifier::when_used_as_spec(spec_reached)]
    pub fn reached(&self, current: u64) -> (reached: bool)
        ensures
            reached == self.spec_reached(current),
    {
        (self.step > 0 && current >= self.desired) || (self.step < 0 && current <= self.desired)
    }

    /// The target of a transition from `current` to `desired`.
    pub open spec fn spec_toward(current: u64, desired: u64) -> Target {
        Target { desired, step: spec_step_size(current, desired) as i64 }
    }

    /// The target of a transition from `current` to `desired`.
    pub fn toward(current: u64, desired: u64) -> (target: Target)
        ensures
            target == Self::spec_toward(current, desired),
            target.step == spec_step_size(current, desired),
    {
        let step: i64 = if desired >= current {
            let distance: u64 = desired - current;
            (distance / TRANSITION_MAX_MS + if distance % TRANSITION_MAX_MS == 0 {
                0
            } else {
                1
            }) as i64
        } else {
            let distance: u64 = current - desired;
            -((distance / TRANSITION_MAX_MS + if distance % TRANSITION_MAX_MS == 0 {
                0
            } else {
                1
            }) as i64)
        };
        Target { desired, step }
    }

    /// How far `current` is from `desired`, against the direction of
    /// `step`; nothing once the target is reached.
    pub open spec fn spec_distance(&self, current: u64) -> nat {
        if self.step > 0 && current < self.desired {
            (self.desired - current) as nat
        } else if self.step < 0 && current > self.desired {
            (current - self.desired) as nat
        } else {
            0
        }
    }

    /// The number of writes that bring `current` to the target, where each
    /// is accepted as it was asked for.
    pub open spec fn spec_writes_left(&self, current: u64) -> nat
        decreases self.spec_distance(current),
    {
        if self.step == 0 || self.spec_reached(current) {
            0
        } else {
            1 + self.spec_writes_left(spec_saturating_add_signed(current, self.step))
        }
    }

    /// The number of writes that bring `current` to the target, where the
    /// actuator accepts of each value the nearest within `[min, max]`, and
    /// the target lies within these limits.
    pub open spec fn spec_writes_left_within(&self, current: u64, min: u64, max: u64) -> nat
        decreases self.spec_distance(current),
    {
        if self.step == 0 || self.spec_reached(current) || !(min <= self.desired <= max) {
            0
        } else {
            1 + self.spec_writes_left_within(
                spec_clamp(spec_saturating_add_signed(current, self.step), min, max),
                min,
                max,
            )
        }
    }

    /// The value of the last write of the transition from `current`, where
    /// each is accepted as it was asked for; `current` where none is left.
    pub open spec fn spec_arrival(&self, current: u64) -> u64
        decreases self.spec_distance(current),
    {
        if self.step == 0 || self.spec_reached(current) {
            current
        } else {
            self.spec_arrival(spec_saturating_add_signed(current, self.step))
        }
    }
}

/// The state of the brightness controller between two ticks.
#[derive(Debug, PartialEq, Eq, Clone, Copy, Structural)]
pub struct Controller {
    /// The brightness last read from, or accepted by, the actuator.
    pub current: Option<u64>,
    /// The transition in progress.
    pub target: Option<Target>,
}

impl Controller {
    /// A controller that has read nothing yet.
    pub fn new() -> (controller: Self)
        ensures
            controller.current is None,
            controller.target is None,
    {
        Self { current: None, target: None }
    }

    /// Whether `reading` differs from what the controller last knew, which
    /// makes it an edit by the user.
    pub open spec fn spec_user_edit(&self, reading: u64) -> bool {
        self.current != Some(reading)
    }

    /// Whether `reading` differs from what the controller last knew.
    #[verifier::when_used_as_spec(spec_user_edit)]
    pub fn user_edit(&self, reading: u64) -> (edit: bool)
        ensures
            edit == self.spec_user_edit(reading),
    {
        match self.current {
            Some(current) => current != reading,
            None => true,
        }
    }

    /// The state after a user edit to `new_brightness`.
    pub open spec fn spec_update_current(self, new_brightness: u64) -> Controller {
        Controller { current: Some(new_brightness), target: None }
    }

    /// Takes over a brightness that the user set; any transition ends.
    pub fn update_current(&mut self, new_brightness: u64)
        ensures
            *final(self) == old(self).spec_update_current(new_brightness),
    {
        self.current = Some(new_brightness);
        self.target = None;
    }

    /// The state after the predictor asked for `desired`.
    pub open spec fn spec_update_target(self, desired: u64) -> Controller {
        if self.target is Some && self.target->0.desired == desired {
            self
        } else if self.current is None || self.current == Some(desired) {
            self
        } else {
            Controller {
                current: self.current,
                target: Some(Target::spec_toward(self.current->0, desired)),
            }
        }
    }

    /// Takes over a prediction. A new transition starts unless `desired`
    /// is where the current one leads already, or is the current value.
    pub fn update_target(&mut self, desired: u64)
        requires
            old(self).current is Some,
        ensures
            *final(self) == old(self).spec_update_target(desired),
    {
        if let Some(target) = self.target {
            if target.desired == desired {
                return ;
            }
        }
        if let Some(current) = self.current {
            if desired != current {
                self.target = Some(Target::toward(current, desired));
            }
        }
    }

    /// The state after one step of the transition, and what it asks for.
    pub open spec fn spec_transition(self) -> (Controller, Action) {
        if self.target->0.spec_reached(self.current->0) {
            (Controller { current: self.current, target: None }, Action::Wait)
        } else {
            (self, Action::Write(spec_saturating_add_signed(self.current->0, self.target->0.step)))
        }
    }

    /// Continues the transition: ends it where the target is reached, and
    /// asks for the next value to be written where it is not.
    pub fn transition(&mut self) -> (action: Action)
        requires
            old(self).current is Some,
            old(self).target is Some,
        ensures
            (*final(self), action) == old(self).spec_transition(),
    {
        let target = self.target.unwrap();
        let current = self.current.unwrap();
        if target.reached(current) {
            self.target = None;
            Action::Wait
        } else {
            Action::Write(saturating_add_signed(current, target.step))
        }
    }

    /// Notes the value that the actuator accepted.
    pub fn written(&mut self, value: u64)
        ensures
            final(self).current == Some(value),
            final(self).target == old(self).target,
    {
        self.current = Some(value);
    }

    /// The state after a tick, and what the tick asks for.
    pub open spec fn spec_step(self, reading: Option<u64>, predicted: Option<u64>) -> (
        Controller,
        Action,
    ) {
        match reading {
            None => (self, Action::Wait),
            Some(brightness) => {
                if self.spec_user_edit(brightness) {
                    (self.spec_update_current(brightness), Action::Publish(brightness))
                } else {
                    let aimed = match predicted {
                        Some(desired) => self.spec_update_target(desired),
                        None => self,
                    };
                    if aimed.target is Some {
                        aimed.spec_transition()
                    } else {
                        (aimed, Action::Wait)
                    }
                }
            },
        }
    }

    /// One tick. `reading` is the brightness read from the actuator, or
    /// `None` where reading failed; `predicted` is the newest prediction
    /// that arrived since the last tick.
    ///
    /// A reading that differs from the known value is a user edit: it is
    /// taken over and published, the transition ends, and nothing is
    /// written on this tick, whatever was predicted.
    pub fn step(&mut self, reading: Option<u64>, predicted: Option<u64>) -> (action: Action)
        ensures
            (*final(self), action) == old(self).spec_step(reading, predicted),
            reading is Some && old(self).spec_user_edit(reading->0) ==> {
                &&& action == Action::Publish(reading->0)
                &&& final(self).target is None
                &&& final(self).current == reading
            },
    {
        match reading {
            None => Action::Wait,
            Some(brightness) => {
                if self.user_edit(brightness) {
                    self.update_current(brightness);
                    Action::Publish(brightness)
                } else {
                    if let Some(desired) = predicted {
                        self.update_target(desired);
                    }
                    if self.target.is_some() {
                        self.transition()
                    } else {
                        Action::Wait
                    }
                }
            },
        }
    }
}


proof fn lemma_step_size(current: u64, desired: u64)
    requires
        current != desired,
    ensures
        desired > current ==> {
            &&& 1 <= spec_step_size(current, desired) <= i64::MAX
            &&& desired - current <= TRANSITION_MAX_MS * spec_step_size(current, desired)
        },
        desired < current ==> {
            &&& i64::MIN < spec_step_size(current, desired) <= -1
            &&& current - desired <= TRANSITION_MAX_MS * -spec_step_size(current, desired)
        },
{
}

proof fn lemma_upward(target: Target, current: u64)
    requires
        target.step > 0,
        current <= target.desired,
    ensures
        target.spec_writes_left(current) * target.step < target.desired - current + target.step,
        target.spec_reached(target.spec_arrival(current)),
        target.spec_arrival(current) - target.desired < target.step,
        target.spec_arrival(current) == target.desired <==> (target.desired - current)
            % (target.step as int) == 0 || target.desired == u64::MAX,
    decreases target.spec_distance(current),
{
    let step = target.step as int;
    let distance = target.desired - current;
    if current == target.desired {
        assert(0int % step == 0) by {
            lemma_small_mod(0, step as nat);
        }
        assert(0 * step == 0);
    } else {
        let next = spec_saturating_add_signed(current, target.step);
        if next >= target.desired {
            assert(target.spec_writes_left(next) == 0);
            assert(target.spec_arrival(next) == next);
            assert(1 * step == step);
            if distance < step {
                lemma_small_mod(distance as nat, step as nat);
            } else {
                assert(distance == step);
                lemma_mod_multiples_vanish(1, 0, step);
                lemma_small_mod(0, step as nat);
            }
        } else {
            lemma_upward(target, next);
            let rest = target.spec_writes_left(next) as int;
            assert((1 + rest) * step == step + rest * step) by (nonlinear_arith);
            lemma_mod_multiples_vanish(-1, distance, step);
            assert(step * -1 + distance == target.desired - next);
        }
    }
}

proof fn lemma_downward(target: Target, current: u64)
    requires
        target.step < 0,
        current >= target.desired,
    ensures
        target.spec_writes_left(current) * -target.step < current - target.desired - target.step,
        target.spec_reached(target.spec_arrival(current)),
        target.desired - target.spec_arrival(current) < -target.step,
        target.spec_arrival(current) == target.desired <==> (current - target.desired) % (
        -target.step) == 0 || target.desired == 0,
    decreases target.spec_distance(current),
{
    let step = -(target.step as int);
    let distance = current - target.desired;
    if current == target.desired {
        assert(0int % step == 0) by {
            lemma_small_mod(0, step as nat);
        }
        assert(0 * step == 0);
    } else {
        let next = spec_saturating_add_signed(current, target.step);
        if next <= target.desired {
            assert(target.spec_writes_left(next) == 0);
            assert(target.spec_arrival(next) == next);
            assert(1 * step == step);
            if distance < step {
                lemma_small_mod(distance as nat, step as nat);
            } else {
                assert(distance == step);
                lemma_mod_multiples_vanish(1, 0, step);
                lemma_small_mod(0, step as nat);
            }
        } else {
            lemma_downward(target, next);
            let rest = target.spec_writes_left(next) as int;
            assert((1 + rest) * step == step + rest * step) by (nonlinear_arith);
            lemma_mod_multiples_vanish(-1, distance, step);
            assert(step * -1 + distance == next - target.desired);
        }
    }
}

proof fn lemma_upward_within(target: Target, current: u64, min: u64, max: u64)
    requires
        target.step > 0,
        current <= target.desired,
        min <= target.desired <= max,
    ensures
        target.spec_writes_left_within(current, min, max) * target.step < target.desired
            - current + target.step,
    decreases target.spec_distance(current),
{
    let step = target.step as int;
    if current == target.desired {
        assert(0 * step == 0);
    } else {
        let next = spec_clamp(spec_saturating_add_signed(current, target.step), min, max);
        if next >= target.desired {
            assert(target.spec_writes_left_within(next, min, max) == 0);
            assert(1 * step == step);
        } else {
            lemma_upward_within(target, next, min, max);
            let rest = target.spec_writes_left_within(next, min, max) as int;
            assert((1 + rest) * step == step + rest * step) by (nonlinear_arith);
        }
    }
}

proof fn lemma_downward_within(target: Target, current: u64, min: u64, max: u64)
    requires
        target.step < 0,
        current >= target.desired,
        min <= target.desired <= max,
    ensures
        target.spec_writes_left_within(current, min, max) * -target.step < current
            - target.desired - target.step,
    decreases target.spec_distance(current),
{
    let step = -(target.step as int);
    if current == target.desired {
        assert(0 * step == 0);
    } else {
        let next = spec_clamp(spec_saturating_add_signed(current, target.step), min, max);
        if next <= target.desired {
            assert(target.spec_writes_left_within(next, min, max) == 0);
            assert(1 * step == step);
        } else {
            lemma_downward_within(target, next, min, max);
            let rest = target.spec_writes_left_within(next, min, max) as int;
            assert((1 + rest) * step == step + rest * step) by (nonlinear_arith);
        }
    }
}

/// A transition to a brightness within the limits of the actuator takes
/// no longer than `TRANSITION_MAX_MS` for its writes and `WAITING_SLEEP_MS`
/// for the tick that ends it, where the actuator accepts of each value the
/// nearest within its limits.
pub proof fn lemma_transition_time_within(current: u64, desired: u64, min: u64, max: u64)
    requires
        current != desired,
        min <= desired <= max,
    ensures
        Target::spec_toward(current, desired).spec_writes_left_within(current, min, max)
            * TRANSITION_STEP_MS + WAITING_SLEEP_MS <= TRANSITION_MAX_MS + WAITING_SLEEP_MS,
{
    let target = Target::spec_toward(current, desired);
    let writes = target.spec_writes_left_within(current, min, max) as int;
    lemma_step_size(current, desired);
    if desired > current {
        lemma_upward_within(target, current, min, max);
        let step = target.step as int;
        assert(writes <= 200) by (nonlinear_arith)
            requires
                writes * step < desired - current + step,
                desired - current <= 200 * step,
                step >= 1,
        ;
    } else {
        lemma_downward_within(target, current, min, max);
        let step = -(target.step as int);
        assert(writes <= 200) by (nonlinear_arith)
            requires
                writes * step < current - desired + step,
                current - desired <= 200 * step,
                step >= 1,
        ;
    }
}

/// A transition takes no longer than `TRANSITION_MAX_MS` for its writes and
/// `WAITING_SLEEP_MS` for the tick that ends it, where the actuator accepts
/// each value as it is written.
pub proof fn lemma_transition_time(current: u64, desired: u64)
    requires
        current != desired,
    ensures
        Target::spec_toward(current, desired).spec_writes_left(current) * TRANSITION_STEP_MS
            + WAITING_SLEEP_MS <= TRANSITION_MAX_MS + WAITING_SLEEP_MS,
        Target::spec_toward(current, desired).spec_writes_left(current) >= 1,
{
    let target = Target::spec_toward(current, desired);
    let writes = target.spec_writes_left(current) as int;
    lemma_step_size(current, desired);
    if desired > current {
        lemma_upward(target, current);
        let step = target.step as int;
        assert(writes <= 200) by (nonlinear_arith)
            requires
                writes * step < desired - current + step,
                desired - current <= 200 * step,
                step >= 1,
        ;
    } else {
        lemma_downward(target, current);
        let step = -(target.step as int);
        assert(writes <= 200) by (nonlinear_arith)
            requires
                writes * step < current - desired + step,
                current - desired <= 200 * step,
                step >= 1,
        ;
    }
}

/// The last value that a transition writes lies at `desired` or past it,
/// by less than one step. It is `desired` itself exactly where the step
/// divides the distance, or `desired` is the end of the range of `u64` in
/// the transition's direction.
pub proof fn lemma_transition_arrival(current: u64, desired: u64)
    requires
        current != desired,
    ensures
        ({
            let target = Target::spec_toward(current, desired);
            let arrival = target.spec_arrival(current);
            &&& target.spec_reached(arrival)
            &&& spec_abs_diff(arrival, desired) < spec_step_magnitude(current, desired)
            &&& arrival == desired <==> {
                ||| spec_abs_diff(current, desired) % spec_step_magnitude(current, desired) == 0
                ||| desired > current && desired == u64::MAX
                ||| desired < current && desired == 0
            }
        }),
{
    let target = Target::spec_toward(current, desired);
    lemma_step_size(current, desired);
    if desired > current {
        lemma_upward(target, current);
    } else {
        lemma_downward(target, current);
    }
}

/// A transition whose step divides its distance never overshoots: its
/// last write is `desired`.
pub proof fn lemma_transition_exact(current: u64, desired: u64)
    requires
        current != desired,
        spec_abs_diff(current, desired) % spec_step_magnitude(current, desired) == 0,
    ensures
        Target::spec_toward(current, desired).spec_arrival(current) == desired,
{
    lemma_transition_arrival(current, desired);
}

} // verus!
