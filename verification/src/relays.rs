//! Environmental control: decides when the fans and misting pump run.
//!
//! The controller is pure logic: it reads sensor values and the current time
//! and produces a [`RelayOutputs`]. Driving the physical pins is the
//! firmware's job. Of the four sensors, channels 1 and 2 are the interior
//! probes for the left and right vivarium and are the only ones used for
//! control; channels 0 and 3 are display-only.
use crate::config::{MIN_LOCKOUT_MS, MIN_ON_FAN_MS, MIN_ON_PUMP_MS};
use crate::sensor::{Reading, SensorBank};
use crate::units::{HUMI_LOW_THRESH, HUMI_VALID_MIN, TEMP_DANGER, TEMP_FAN_THRESH};
use vstd::prelude::*;

verus! {

/// The state of one timed relay as plain values: whether it is energised, when
/// it was last switched on, and until when it is locked out after its last
/// switch-off.
pub struct RelayState {
    pub active: bool,
    pub turned_on_at: u32,
    pub lockout_until: u32,
}

/// `a - b`, or 0 where `b > a` (`u32::saturating_sub`).
pub open spec fn sat_sub(a: u32, b: u32) -> u32 {
    if a >= b {
        (a - b) as u32
    } else {
        0
    }
}

/// `a + b`, or `u32::MAX` where the sum does not fit (`u32::saturating_add`).
pub open spec fn sat_add(a: u32, b: u32) -> u32 {
    if a + b > u32::MAX {
        u32::MAX
    } else {
        (a + b) as u32
    }
}

/// A relay at boot: off, and with a lockout that expired `MIN_LOCKOUT_MS`
/// before `now` (or at time 0), so it is free to turn on at once.
pub open spec fn boot_relay(now: u32) -> RelayState {
    RelayState { active: false, turned_on_at: 0, lockout_until: sat_sub(now, MIN_LOCKOUT_MS) }
}

/// The post-off lockout window has elapsed at `now`.
pub open spec fn lockout_over(r: RelayState, now: u32) -> bool {
    now >= r.lockout_until
}

/// The relay has been on for at least `min_on_ms` at `now`.
pub open spec fn on_long_enough(r: RelayState, now: u32, min_on_ms: u32) -> bool {
    sat_sub(now, r.turned_on_at) >= min_on_ms
}

/// The relay after being switched on at `now`.
pub open spec fn switched_on(r: RelayState, now: u32) -> RelayState {
    RelayState { active: true, turned_on_at: now, lockout_until: r.lockout_until }
}

/// The relay after being switched off at `now`: locked out for
/// `MIN_LOCKOUT_MS` (up to the end of the clock).
pub open spec fn switched_off(r: RelayState, now: u32) -> RelayState {
    RelayState {
        active: false,
        turned_on_at: r.turned_on_at,
        lockout_until: sat_add(now, MIN_LOCKOUT_MS),
    }
}

/// One fan's next state: on above [`TEMP_FAN_THRESH`] once the lockout is
/// over, off at or below it once the minimum on-time has passed.
pub open spec fn fan_next(fan: RelayState, reading: Reading, now: u32) -> RelayState {
    let temp = reading.spec_temp_tenths_f();
    if temp > TEMP_FAN_THRESH && !fan.active && lockout_over(fan, now) {
        switched_on(fan, now)
    } else if temp <= TEMP_FAN_THRESH && fan.active && on_long_enough(fan, now, MIN_ON_FAN_MS) {
        switched_off(fan, now)
    } else {
        fan
    }
}

/// A humidity value counts for control only if the probe responded and the
/// value clears the implausibly-low floor.
pub open spec fn humi_usable(reading: Reading) -> bool {
    !(reading is Error) && reading.spec_humi_tenths() > HUMI_VALID_MIN
}

/// A side is too dry: its usable humidity is below [`HUMI_LOW_THRESH`].
pub open spec fn too_dry(reading: Reading) -> bool {
    reading.spec_humi_tenths() < HUMI_LOW_THRESH && humi_usable(reading)
}

/// A side is dangerously hot: above [`TEMP_DANGER`].
pub open spec fn too_hot(reading: Reading) -> bool {
    reading.spec_temp_tenths_f() > TEMP_DANGER
}

/// Both sides are safe: neither dangerously hot, and both with usable
/// humidity at or above the comfort threshold.
pub open spec fn comfortable(left: Reading, right: Reading) -> bool {
    &&& !too_hot(left)
    &&& !too_hot(right)
    &&& left.spec_humi_tenths() >= HUMI_LOW_THRESH && humi_usable(left)
    &&& right.spec_humi_tenths() >= HUMI_LOW_THRESH && humi_usable(right)
}

/// The pump after the "switch on" decision: on if it was off, its lockout is
/// over and either side is dangerously hot or too dry.
pub open spec fn pump_after_on_check(pump: RelayState, left: Reading, right: Reading, now: u32) -> RelayState {
    if !pump.active && lockout_over(pump, now) && (too_hot(left) || too_hot(right) || too_dry(left)
        || too_dry(right)) {
        switched_on(pump, now)
    } else {
        pump
    }
}

/// The pump's next state: after the "switch on" decision it goes off if both
/// sides are comfortable and it ran its minimum time, or at once if a control
/// probe failed.
pub open spec fn pump_next(pump: RelayState, left: Reading, right: Reading, now: u32) -> RelayState {
    let p = pump_after_on_check(pump, left, right, now);
    let off_normally = p.active && comfortable(left, right) && on_long_enough(
        p,
        now,
        MIN_ON_PUMP_MS,
    );
    let off_on_error = p.active && (left is Error || right is Error);
    if off_normally || off_on_error {
        switched_off(p, now)
    } else {
        p
    }
}

/// The state of the whole controller as plain values.
pub struct ControllerState {
    pub left_fan: RelayState,
    pub right_fan: RelayState,
    pub pump: RelayState,
}

/// One control step from the two interior probes (`left` is channel 1,
/// `right` channel 2).
pub open spec fn controller_next(s: ControllerState, left: Reading, right: Reading, now: u32) -> ControllerState {
    ControllerState {
        left_fan: fan_next(s.left_fan, left, now),
        right_fan: fan_next(s.right_fan, right, now),
        pump: pump_next(s.pump, left, right, now),
    }
}

/// A relay plus the timing state needed to avoid rapid on/off cycling.
///
/// Two guards protect the hardware:
/// - a minimum on-time, so a relay that just switched on stays on for a while;
/// - a post-off lockout, so a relay that just switched off cannot immediately
///   switch back on.
#[derive(Clone, Copy, Debug)]
pub struct TimedRelay {
    active: bool,
    turned_on_at: u32,
    lockout_until: u32,
}

impl View for TimedRelay {
    type V = RelayState;

    closed spec fn view(&self) -> RelayState {
        RelayState {
            active: self.active,
            turned_on_at: self.turned_on_at,
            lockout_until: self.lockout_until,
        }
    }
}

impl TimedRelay {
    /// Builds a relay whose lockout already expired at boot, so it is free to
    /// turn on as soon as conditions call for it.
    pub fn new_boot(now: u32) -> (r: Self)
        ensures
            r@ == boot_relay(now),
    {
        TimedRelay { active: false, turned_on_at: 0, lockout_until: now.saturating_sub(MIN_LOCKOUT_MS) }
    }

    /// Whether the relay is off.
    pub fn is_off(self) -> (b: bool)
        ensures
            b == !self@.active,
    {
        !self.active
    }

    /// Whether the relay is on.
    pub fn is_on(self) -> (b: bool)
        ensures
            b == self@.active,
    {
        self.active
    }

    /// True once the post-off lockout window has elapsed.
    pub fn lockout_done(self, now: u32) -> (b: bool)
        ensures
            b == lockout_over(self@, now),
    {
        now >= self.lockout_until
    }

    /// True once the relay has been on for at least `min_on_ms`.
    pub fn ran_long_enough(self, now: u32, min_on_ms: u32) -> (b: bool)
        ensures
            b == on_long_enough(self@, now, min_on_ms),
    {
        now.saturating_sub(self.turned_on_at) >= min_on_ms
    }

    /// Switches the relay on at `now`.
    pub fn turn_on(&mut self, now: u32)
        ensures
            final(self)@ == switched_on(old(self)@, now),
    {
        self.active = true;
        self.turned_on_at = now;
    }

    /// Switches the relay off at `now` and starts its lockout.
    pub fn turn_off(&mut self, now: u32)
        ensures
            final(self)@ == switched_off(old(self)@, now),
    {
        self.active = false;
        self.lockout_until = now.saturating_add(MIN_LOCKOUT_MS);
    }
}

/// Desired relay states for the current loop iteration.
#[derive(Clone, Copy, Debug, Default, PartialEq, Eq, Structural)]
pub struct RelayOutputs {
    pub left_fan: bool,
    pub right_fan: bool,
    pub pump: bool,
}

/// The fans and pump with their timing guards.
pub struct RelayController {
    left_fan: TimedRelay,
    right_fan: TimedRelay,
    pump: TimedRelay,
}

impl View for RelayController {
    type V = ControllerState;

    closed spec fn view(&self) -> ControllerState {
        ControllerState { left_fan: self.left_fan@, right_fan: self.right_fan@, pump: self.pump@ }
    }
}

impl RelayController {
    /// A controller at boot: every relay off, with its lockout pre-dated so
    /// that it may fire immediately.
    pub fn new_boot(now: u32) -> (c: Self)
        ensures
            c@ == (ControllerState {
                left_fan: boot_relay(now),
                right_fan: boot_relay(now),
                pump: boot_relay(now),
            }),
    {
        RelayController {
            left_fan: TimedRelay::new_boot(now),
            right_fan: TimedRelay::new_boot(now),
            pump: TimedRelay::new_boot(now),
        }
    }

    /// The relay states the controller currently wants.
    pub fn outputs(&self) -> (o: RelayOutputs)
        ensures
            o == (RelayOutputs {
                left_fan: self@.left_fan.active,
                right_fan: self@.right_fan.active,
                pump: self@.pump.active,
            }),
    {
        RelayOutputs {
            left_fan: self.left_fan.active,
            right_fan: self.right_fan.active,
            pump: self.pump.active,
        }
    }

    /// Recomputes every relay state from the latest readings.
    ///
    /// Each side has its own fan, driven purely by that side's temperature. The
    /// single shared pump mists whenever *either* side is dangerously hot or too
    /// dry, and only stops once *both* sides are comfortable again.
    pub fn update(&mut self, sensors: &SensorBank, now: u32)
        ensures
            final(self)@ == controller_next(old(self)@, sensors@[1], sensors@[2], now),
    {
        proof {
            sensors.lemma_len();
        }
        let readings = sensors.readings();
        let left = readings[1];
        let right = readings[2];

        // Fans: each side independently reacts to its own temperature.
        update_fan(&mut self.left_fan, left, now);
        update_fan(&mut self.right_fan, right, now);

        // Pump: turn on if either vivarium is dangerously hot or its (valid)
        // humidity has dropped below the comfort threshold.
        let left_humidity_low = left.humi_tenths() < HUMI_LOW_THRESH && humi_valid(left);
        let right_humidity_low = right.humi_tenths() < HUMI_LOW_THRESH && humi_valid(right);
        let any_temp_danger = left.temp_tenths_f() > TEMP_DANGER || right.temp_tenths_f()
            > TEMP_DANGER;

        if self.pump.is_off() && self.pump.lockout_done(now) && (any_temp_danger
            || left_humidity_low || right_humidity_low) {
            self.pump.turn_on(now);
        }

        // Pump turns off normally once both sides are safe (temp no longer in the
        // danger zone and humidity back above the comfort threshold) and the
        // minimum run time has elapsed...
        let both_sides_comfortable = left.temp_tenths_f() <= TEMP_DANGER && right.temp_tenths_f()
            <= TEMP_DANGER && left.humi_tenths() >= HUMI_LOW_THRESH && humi_valid(left)
            && right.humi_tenths() >= HUMI_LOW_THRESH && humi_valid(right);
        let turn_off_normally = self.pump.is_on() && both_sides_comfortable
            && self.pump.ran_long_enough(now, MIN_ON_PUMP_MS);

        // ...or immediately, ignoring the run time, if a control probe has failed
        // (we don't want to keep misting blind).
        let turn_off_on_error = self.pump.is_on() && (left.is_error() || right.is_error());

        if turn_off_normally || turn_off_on_error {
            self.pump.turn_off(now);
        }
    }
}

/// Drives a single fan from one probe's temperature.
///
/// Turns on above [`TEMP_FAN_THRESH`] (respecting the lockout) and back off once
/// the temperature is at or below the threshold and the minimum on-time has
/// passed. Short-cycling is prevented by the relay's own timing guards.
fn update_fan(fan: &mut TimedRelay, reading: Reading, now: u32)
    ensures
        final(fan)@ == fan_next(old(fan)@, reading, now),
{
    let temp = reading.temp_tenths_f();

    if temp > TEMP_FAN_THRESH && fan.is_off() && fan.lockout_done(now) {
        fan.turn_on(now);
    } else if temp <= TEMP_FAN_THRESH && fan.is_on() && fan.ran_long_enough(now, MIN_ON_FAN_MS) {
        fan.turn_off(now);
    }
}

/// A humidity reading is usable for control only if the probe responded and the
/// value clears the implausibly-low floor (guards against a sensor reading 0%).
fn humi_valid(reading: Reading) -> (b: bool)
    ensures
        b == humi_usable(reading),
{
    !reading.is_error() && reading.humi_tenths() > HUMI_VALID_MIN
}

/// An error reading never counts as dangerously hot or as too dry, so a
/// failed probe never calls for the fan or the pump on its own.
pub proof fn law_error_reading_calls_for_nothing()
    ensures
        !too_hot(Reading::Error),
        !too_dry(Reading::Error),
        Reading::Error.spec_temp_tenths_f() <= TEMP_FAN_THRESH,
{
}

/// At boot every relay is off and its lockout is already over, so it may
/// fire at once.
pub proof fn law_boot_relay_may_fire_at_once(now: u32)
    ensures
        !boot_relay(now).active,
        lockout_over(boot_relay(now), now),
{
}

/// Each fan follows its own side only: the left fan does not depend on the
/// right probe, nor the right fan on the left probe.
pub proof fn law_fans_follow_their_own_side(
    s: ControllerState,
    left1: Reading,
    right1: Reading,
    left2: Reading,
    right2: Reading,
    now: u32,
)
    ensures
        controller_next(s, left1, right1, now).left_fan == controller_next(s, left1, right2, now).left_fan,
        controller_next(s, left1, right1, now).right_fan == controller_next(s, left2, right1, now).right_fan,
{
}

/// A fan that is on stays on until it has run its minimum on-time.
pub proof fn law_fan_minimum_on_time(fan: RelayState, reading: Reading, now: u32)
    requires
        fan.active,
        !on_long_enough(fan, now, MIN_ON_FAN_MS),
    ensures
        fan_next(fan, reading, now) == fan,
{
}

/// A fan that is off stays off while its lockout lasts.
pub proof fn law_fan_lockout(fan: RelayState, reading: Reading, now: u32)
    requires
        !fan.active,
        !lockout_over(fan, now),
    ensures
        fan_next(fan, reading, now) == fan,
{
}

/// A fan switches on only above its threshold and with its lockout over, and
/// switches off only at or below it after its minimum on-time; switching off
/// starts a full lockout.
pub proof fn law_fan_switching_conditions(fan: RelayState, reading: Reading, now: u32)
    ensures
        !fan.active && fan_next(fan, reading, now).active ==> reading.spec_temp_tenths_f()
            > TEMP_FAN_THRESH && lockout_over(fan, now) && fan_next(fan, reading, now).turned_on_at
            == now,
        fan.active && !fan_next(fan, reading, now).active ==> reading.spec_temp_tenths_f()
            <= TEMP_FAN_THRESH && on_long_enough(fan, now, MIN_ON_FAN_MS) && fan_next(
            fan,
            reading,
            now,
        ).lockout_until == sat_add(now, MIN_LOCKOUT_MS),
{
}

/// The pump stays off while its lockout lasts.
pub proof fn law_pump_lockout(pump: RelayState, left: Reading, right: Reading, now: u32)
    requires
        !pump.active,
        !lockout_over(pump, now),
    ensures
        pump_next(pump, left, right, now) == pump,
{
}

/// A running pump keeps running until its minimum on-time has passed, unless a
/// control probe has failed.
pub proof fn law_pump_minimum_on_time(pump: RelayState, left: Reading, right: Reading, now: u32)
    requires
        pump.active,
        !on_long_enough(pump, now, MIN_ON_PUMP_MS),
        !(left is Error),
        !(right is Error),
    ensures
        pump_next(pump, left, right, now) == pump,
{
}

/// A fan that is off and free switches on as soon as its side is above the
/// threshold; a fan that is on and has run its minimum time switches off as
/// soon as its side is at or below it.
pub proof fn law_fan_reacts_to_its_side(fan: RelayState, reading: Reading, now: u32)
    ensures
        !fan.active && lockout_over(fan, now) && reading.spec_temp_tenths_f() > TEMP_FAN_THRESH
            ==> fan_next(fan, reading, now).active,
        fan.active && on_long_enough(fan, now, MIN_ON_FAN_MS) && reading.spec_temp_tenths_f()
            <= TEMP_FAN_THRESH ==> !fan_next(fan, reading, now).active,
{
}

/// The pump mists whenever either side is dangerously hot or too dry (its
/// lockout over and both control probes answering), and a running pump that
/// has run its minimum time stops once both sides are comfortable.
pub proof fn law_pump_reacts_to_either_side(pump: RelayState, left: Reading, right: Reading, now: u32)
    ensures
        !pump.active && lockout_over(pump, now) && (too_hot(left) || too_hot(right) || too_dry(left)
            || too_dry(right)) && !(left is Error) && !(right is Error) ==> pump_next(
            pump,
            left,
            right,
            now,
        ).active,
        pump.active && on_long_enough(pump, now, MIN_ON_PUMP_MS) && comfortable(left, right)
            ==> !pump_next(pump, left, right, now).active,
{
}

/// The pump never mists blind: whenever a control probe has failed, it is off
/// after the step.
pub proof fn law_pump_off_when_probe_fails(pump: RelayState, left: Reading, right: Reading, now: u32)
    requires
        left is Error || right is Error,
    ensures
        !pump_next(pump, left, right, now).active,
{
}

/// The pump starts only when a side is dangerously hot or too dry, and stops
/// only when both sides are comfortable or a control probe failed; stopping
/// starts a full lockout.
pub proof fn law_pump_switching_conditions(pump: RelayState, left: Reading, right: Reading, now: u32)
    ensures
        !pump.active && pump_next(pump, left, right, now).active ==> too_hot(left) || too_hot(right)
            || too_dry(left) || too_dry(right),
        pump.active && !pump_next(pump, left, right, now).active ==> (comfortable(left, right)
            && on_long_enough(pump, now, MIN_ON_PUMP_MS)) || left is Error || right is Error,
        !pump_next(pump, left, right, now).active && pump_next(pump, left, right, now)
            != pump ==> pump_next(pump, left, right, now).lockout_until == sat_add(
            now,
            MIN_LOCKOUT_MS,
        ),
{
}

/// No short cycling of a fan: once it switches off at `t1`, it stays off at
/// any later step before the lockout ends, whatever the readings (as long as
/// the lockout ends before the millisecond clock runs out).
pub proof fn law_fan_no_restart_within_lockout(
    fan: RelayState,
    r1: Reading,
    t1: u32,
    r2: Reading,
    t2: u32,
)
    requires
        fan.active,
        !fan_next(fan, r1, t1).active,
        t1 <= t2,
        t2 < t1 + MIN_LOCKOUT_MS,
        t1 + MIN_LOCKOUT_MS <= u32::MAX,
    ensures
        !fan_next(fan_next(fan, r1, t1), r2, t2).active,
{
}

/// No short cycling of a fan: once it switches on at `t1`, it is still on at
/// any later step before its minimum on-time ends, whatever the readings.
pub proof fn law_fan_no_stop_within_minimum_on_time(
    fan: RelayState,
    r1: Reading,
    t1: u32,
    r2: Reading,
    t2: u32,
)
    requires
        !fan.active,
        fan_next(fan, r1, t1).active,
        t1 <= t2,
        t2 < t1 + MIN_ON_FAN_MS,
    ensures
        fan_next(fan_next(fan, r1, t1), r2, t2).active,
{
}

/// No short cycling of the pump: once it switches off at `t1`, it stays off at
/// any later step before the lockout ends, whatever the readings (as long as
/// the lockout ends before the millisecond clock runs out).
pub proof fn law_pump_no_restart_within_lockout(
    pump: RelayState,
    l1: Reading,
    r1: Reading,
    t1: u32,
    l2: Reading,
    r2: Reading,
    t2: u32,
)
    requires
        pump.active,
        !pump_next(pump, l1, r1, t1).active,
        t1 <= t2,
        t2 < t1 + MIN_LOCKOUT_MS,
        t1 + MIN_LOCKOUT_MS <= u32::MAX,
    ensures
        !pump_next(pump_next(pump, l1, r1, t1), l2, r2, t2).active,
{
}

/// Once the pump has started at `t1`, it is still running at any later step
/// before its minimum on-time ends, unless a control probe fails.
pub proof fn law_pump_no_stop_within_minimum_on_time(
    pump: RelayState,
    l1: Reading,
    r1: Reading,
    t1: u32,
    l2: Reading,
    r2: Reading,
    t2: u32,
)
    requires
        !pump.active,
        pump_next(pump, l1, r1, t1).active,
        t1 <= t2,
        t2 < t1 + MIN_ON_PUMP_MS,
        !(l2 is Error),
        !(r2 is Error),
    ensures
        pump_next(pump_next(pump, l1, r1, t1), l2, r2, t2).active,
{
}

/// The controller after a whole chain of control steps, each given as the
/// left reading, the right reading and the time of the call, in order.
pub open spec fn controller_run(s: ControllerState, steps: Seq<(Reading, Reading, u32)>) -> ControllerState
    decreases steps.len(),
{
    if steps.len() == 0 {
        s
    } else {
        let last = steps.last();
        controller_next(controller_run(s, steps.drop_last()), last.0, last.1, last.2)
    }
}

/// One of the three relays of a controller: 0 the left fan, 1 the right fan,
/// 2 the pump.
pub open spec fn relay_of(s: ControllerState, which: int) -> RelayState {
    if which == 0 {
        s.left_fan
    } else if which == 1 {
        s.right_fan
    } else {
        s.pump
    }
}

/// The minimum on-time of relay `which`: the fans' or the pump's.
pub open spec fn min_on_of(which: int) -> u32 {
    if which == 2 {
        MIN_ON_PUMP_MS
    } else {
        MIN_ON_FAN_MS
    }
}

proof fn lemma_run_prefix(s: ControllerState, steps: Seq<(Reading, Reading, u32)>, j: int)
    requires
        0 < j <= steps.len(),
    ensures
        controller_run(s, steps.take(j)) == controller_next(
            controller_run(s, steps.take(j - 1)),
            steps[j - 1].0,
            steps[j - 1].1,
            steps[j - 1].2,
        ),
{
    assert(steps.take(j).drop_last() =~= steps.take(j - 1));
}

proof fn lemma_stays_locked_out(
    s: ControllerState,
    which: int,
    until: u32,
    steps: Seq<(Reading, Reading, u32)>,
    j: int,
)
    requires
        0 <= which < 3,
        0 <= j <= steps.len(),
        !relay_of(s, which).active,
        relay_of(s, which).lockout_until == until,
        forall|i: int| 0 <= i < steps.len() ==> (#[trigger] steps[i]).2 < until,
    ensures
        !relay_of(controller_run(s, steps.take(j)), which).active,
        relay_of(controller_run(s, steps.take(j)), which).lockout_until == until,
    decreases j,
{
    if j == 0 {
        assert(steps.take(0) =~= Seq::<(Reading, Reading, u32)>::empty());
    } else {
        lemma_stays_locked_out(s, which, until, steps, j - 1);
        lemma_run_prefix(s, steps, j);
        let _ = steps[j - 1];
    }
}

proof fn lemma_stays_on(
    s: ControllerState,
    which: int,
    since: u32,
    steps: Seq<(Reading, Reading, u32)>,
    j: int,
)
    requires
        0 <= which < 3,
        0 <= j <= steps.len(),
        relay_of(s, which).active,
        relay_of(s, which).turned_on_at == since,
        forall|i: int| 0 <= i < steps.len() ==> (#[trigger] steps[i]).2 < since + min_on_of(which),
        which == 2 ==> forall|i: int|
            0 <= i < j ==> !((#[trigger] steps[i]).0 is Error) && !(steps[i].1 is Error),
    ensures
        relay_of(controller_run(s, steps.take(j)), which).active,
        relay_of(controller_run(s, steps.take(j)), which).turned_on_at == since,
    decreases j,
{
    if j == 0 {
        assert(steps.take(0) =~= Seq::<(Reading, Reading, u32)>::empty());
    } else {
        lemma_stays_on(s, which, since, steps, j - 1);
        lemma_run_prefix(s, steps, j);
        let _ = steps[j - 1];
    }
}

/// No short cycling over any chain of later calls: a relay (0 left fan,
/// 1 right fan, 2 pump) that a control step at `t1` switches off stays off
/// after every later step made before its lockout ends, whatever the
/// readings (as long as the lockout ends before the millisecond clock runs
/// out).
pub proof fn law_switched_off_relay_stays_off_through_lockout(
    s: ControllerState,
    left: Reading,
    right: Reading,
    t1: u32,
    which: int,
    later: Seq<(Reading, Reading, u32)>,
)
    requires
        0 <= which < 3,
        relay_of(s, which).active,
        !relay_of(controller_next(s, left, right, t1), which).active,
        t1 + MIN_LOCKOUT_MS <= u32::MAX,
        forall|i: int| 0 <= i < later.len() ==> (#[trigger] later[i]).2 < t1 + MIN_LOCKOUT_MS,
    ensures
        forall|j: int|
            0 <= j <= later.len() ==> !relay_of(
                #[trigger] controller_run(controller_next(s, left, right, t1), later.take(j)),
                which,
            ).active,
{
    let after = controller_next(s, left, right, t1);
    let until = (t1 + MIN_LOCKOUT_MS) as u32;
    assert(relay_of(after, which).lockout_until == until);
    assert forall|j: int| 0 <= j <= later.len() implies !relay_of(
        #[trigger] controller_run(after, later.take(j)),
        which,
    ).active by {
        lemma_stays_locked_out(after, which, until, later, j);
    }
}

/// No short cycling over any chain of later calls: a relay (0 left fan,
/// 1 right fan, 2 pump) that a control step at `t1` switches on is still on
/// after every later step made before its minimum on-time ends; only the pump
/// may stop early, and only once a control probe has failed.
pub proof fn law_switched_on_relay_stays_on_through_minimum_time(
    s: ControllerState,
    left: Reading,
    right: Reading,
    t1: u32,
    which: int,
    later: Seq<(Reading, Reading, u32)>,
)
    requires
        0 <= which < 3,
        !relay_of(s, which).active,
        relay_of(controller_next(s, left, right, t1), which).active,
        forall|i: int| 0 <= i < later.len() ==> (#[trigger] later[i]).2 < t1 + min_on_of(which),
    ensures
        forall|j: int|
            0 <= j <= later.len() && (which == 2 ==> forall|i: int|
                0 <= i < j ==> !((#[trigger] later[i]).0 is Error) && !(later[i].1 is Error))
                ==> relay_of(
                #[trigger] controller_run(controller_next(s, left, right, t1), later.take(j)),
                which,
            ).active,
{
    let after = controller_next(s, left, right, t1);
    assert(relay_of(after, which).turned_on_at == t1);
    assert forall|j: int|
        0 <= j <= later.len() && (which == 2 ==> forall|i: int|
            0 <= i < j ==> !((#[trigger] later[i]).0 is Error) && !(later[i].1 is Error))
            implies relay_of(#[trigger] controller_run(after, later.take(j)), which).active by {
        lemma_stays_on(after, which, t1, later, j);
    }
}

/// The lockout a relay gets when it switches off at `now`: five minutes from
/// then, or the end of the clock if that comes first.
pub open spec fn lockout_end(now: u32) -> int {
    if now as int + 300_000 <= u32::MAX as int {
        now as int + 300_000
    } else {
        u32::MAX as int
    }
}

/// A relay that is off and stays off is left exactly as it was: its lockout
/// starts only when it was running and switches off, never again while it is
/// idle. (The pump is the one exception, and only in a step where a control
/// probe failed: if the other side calls for mist it starts and is stopped
/// again within that same step, which starts its lockout.)
pub proof fn law_idle_relay_untouched(s: ControllerState, left: Reading, right: Reading, now: u32)
    ensures
        !s.left_fan.active && !controller_next(s, left, right, now).left_fan.active
            ==> controller_next(s, left, right, now).left_fan == s.left_fan,
        !s.right_fan.active && !controller_next(s, left, right, now).right_fan.active
            ==> controller_next(s, left, right, now).right_fan == s.right_fan,
        !s.pump.active && !controller_next(s, left, right, now).pump.active && !(left is Error)
            && !(right is Error) ==> controller_next(s, left, right, now).pump == s.pump,
{
}

/// A relay that is running and keeps running is left exactly as it was (its
/// switch-on time is not refreshed).
pub proof fn law_running_relay_untouched(s: ControllerState, left: Reading, right: Reading, now: u32)
    ensures
        s.left_fan.active && controller_next(s, left, right, now).left_fan.active ==> controller_next(
            s,
            left,
            right,
            now,
        ).left_fan == s.left_fan,
        s.right_fan.active && controller_next(s, left, right, now).right_fan.active
            ==> controller_next(s, left, right, now).right_fan == s.right_fan,
        s.pump.active && controller_next(s, left, right, now).pump.active ==> controller_next(
            s,
            left,
            right,
            now,
        ).pump == s.pump,
{
}

/// The fan's switching, in terms of its side's temperature in tenths of a
/// degree Fahrenheit and the clock in milliseconds: an idle fan whose lockout
/// is over switches on at once above 75.0 F (and only then), recording the
/// time; a running fan that has run 3 minutes switches off at or below
/// 75.0 F (and only then), locked out for the next 5 minutes.
pub proof fn law_fan_switching_in_degrees(fan: RelayState, reading: Reading, now: u32)
    ensures
        !fan.active && now >= fan.lockout_until && reading.spec_temp_tenths_f() > 750 ==> fan_next(
            fan,
            reading,
            now,
        ) == (RelayState { active: true, turned_on_at: now, lockout_until: fan.lockout_until }),
        !fan.active && fan_next(fan, reading, now).active ==> now >= fan.lockout_until
            && reading.spec_temp_tenths_f() > 750,
        fan.active && now >= fan.turned_on_at + 180_000 && reading.spec_temp_tenths_f() <= 750
            ==> fan_next(fan, reading, now).active == false && fan_next(
            fan,
            reading,
            now,
        ).turned_on_at == fan.turned_on_at && fan_next(fan, reading, now).lockout_until
            == lockout_end(now),
        fan.active && !fan_next(fan, reading, now).active ==> now >= fan.turned_on_at + 180_000
            && reading.spec_temp_tenths_f() <= 750,
{
}

/// A running pump never stops normally while either side is dangerously hot
/// (above 85.0 F) or too dry (a plausible humidity, above 10.0 %, below
/// 70.0 %): with both control probes answering it keeps misting.
pub proof fn law_pump_keeps_misting_while_needed(pump: RelayState, left: Reading, right: Reading, now: u32)
    requires
        pump.active,
        !(left is Error),
        !(right is Error),
        left.spec_temp_tenths_f() > 850 || right.spec_temp_tenths_f() > 850 || (100
            < left.spec_humi_tenths() < 700) || (100 < right.spec_humi_tenths() < 700)
            || left.spec_humi_tenths() <= 100 || right.spec_humi_tenths() <= 100,
    ensures
        pump_next(pump, left, right, now).active,
{
}

/// The pump's switching, in terms of the two sides' readings (tenths of a
/// degree Fahrenheit and of a percent) and the clock in milliseconds.
pub proof fn law_pump_switching_in_degrees(pump: RelayState, left: Reading, right: Reading, now: u32)
    ensures
        // An idle pump whose lockout is over starts at once when either side
        // is above 85.0 F or at a plausible humidity below 70.0 %, both
        // probes answering.
        !pump.active && now >= pump.lockout_until && !(left is Error) && !(right is Error) && (
        left.spec_temp_tenths_f() > 850 || right.spec_temp_tenths_f() > 850 || (100
            < left.spec_humi_tenths() < 700) || (100 < right.spec_humi_tenths() < 700))
            ==> pump_next(pump, left, right, now) == (RelayState {
            active: true,
            turned_on_at: now,
            lockout_until: pump.lockout_until,
        }),
        // It starts only then.
        !pump.active && pump_next(pump, left, right, now).active ==> now >= pump.lockout_until && (
        left.spec_temp_tenths_f() > 850 || right.spec_temp_tenths_f() > 850 || (100
            < left.spec_humi_tenths() < 700) || (100 < right.spec_humi_tenths() < 700)),
        // A running pump that has run a minute stops once both sides are at
        // most 85.0 F and at a plausible humidity of at least 70.0 %.
        pump.active && now >= pump.turned_on_at + 60_000 && !(left is Error) && !(right is Error)
            && left.spec_temp_tenths_f() <= 850 && right.spec_temp_tenths_f() <= 850
            && left.spec_humi_tenths() >= 700 && right.spec_humi_tenths() >= 700 ==> !pump_next(
            pump,
            left,
            right,
            now,
        ).active,
        // It stops only then, or when a control probe failed; and every stop
        // starts a 5-minute lockout.
        pump.active && !pump_next(pump, left, right, now).active ==> (left is Error || right is Error)
            || (now >= pump.turned_on_at + 60_000 && left.spec_temp_tenths_f() <= 850
            && right.spec_temp_tenths_f() <= 850 && left.spec_humi_tenths() >= 700
            && right.spec_humi_tenths() >= 700),
        pump.active && !pump_next(pump, left, right, now).active ==> pump_next(
            pump,
            left,
            right,
            now,
        ).lockout_until == lockout_end(now),
{
}

} // verus!
