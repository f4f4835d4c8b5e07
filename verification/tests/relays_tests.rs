use vivarium::config::{MIN_LOCKOUT_MS, MIN_ON_FAN_MS, MIN_ON_PUMP_MS};
use vivarium::relays::{RelayController, RelayOutputs, TimedRelay};
use vivarium::sensor::{Reading, SensorBank};

fn valid(temp: i16, humi: i16) -> Reading {
    Reading::Valid { temp_tenths_f: temp, humi_tenths: humi }
}

fn bank(left: Reading, right: Reading) -> SensorBank {
    let mut b = SensorBank::default();
    b.store(0, valid(700, 800));
    b.store(1, left);
    b.store(2, right);
    b.store(3, valid(700, 800));
    b
}

fn outputs(left_fan: bool, right_fan: bool, pump: bool) -> RelayOutputs {
    RelayOutputs { left_fan, right_fan, pump }
}

const COMFY: (i16, i16) = (700, 800);

fn comfy() -> Reading {
    valid(COMFY.0, COMFY.1)
}

#[test]
fn boot_starts_everything_off() {
    let c = RelayController::new_boot(123_456);
    assert_eq!(c.outputs(), outputs(false, false, false));
}

#[test]
fn boot_relays_may_fire_immediately() {
    let mut c = RelayController::new_boot(1_000);
    c.update(&bank(valid(800, 800), comfy()), 1_000);
    assert_eq!(c.outputs(), outputs(true, false, false));

    let mut c = RelayController::new_boot(0);
    c.update(&bank(comfy(), valid(751, 800)), 0);
    assert_eq!(c.outputs(), outputs(false, true, false));
}

#[test]
fn fan_threshold_is_strict() {
    let mut c = RelayController::new_boot(0);
    c.update(&bank(valid(750, 800), valid(751, 800)), 10);
    assert_eq!(c.outputs(), outputs(false, true, false));
}

#[test]
fn fan_runs_its_minimum_on_time() {
    let mut c = RelayController::new_boot(1_000);
    c.update(&bank(valid(800, 800), comfy()), 1_000);
    assert!(c.outputs().left_fan);
    c.update(&bank(comfy(), comfy()), 1_000 + MIN_ON_FAN_MS - 1);
    assert!(c.outputs().left_fan);
    c.update(&bank(comfy(), comfy()), 1_000 + MIN_ON_FAN_MS);
    assert!(!c.outputs().left_fan);
}

#[test]
fn fan_stays_off_during_lockout() {
    let mut c = RelayController::new_boot(1_000);
    c.update(&bank(valid(800, 800), comfy()), 1_000);
    let off_at = 1_000 + MIN_ON_FAN_MS;
    c.update(&bank(comfy(), comfy()), off_at);
    assert!(!c.outputs().left_fan);
    c.update(&bank(valid(900, 800), comfy()), off_at + MIN_LOCKOUT_MS - 1);
    assert!(!c.outputs().left_fan);
    c.update(&bank(valid(900, 800), comfy()), off_at + MIN_LOCKOUT_MS);
    assert!(c.outputs().left_fan);
}

#[test]
fn fans_follow_their_own_side() {
    let mut a = RelayController::new_boot(0);
    let mut b = RelayController::new_boot(0);
    a.update(&bank(valid(800, 800), valid(700, 800)), 5);
    b.update(&bank(valid(800, 800), valid(740, 300)), 5);
    assert_eq!(a.outputs().left_fan, b.outputs().left_fan);
    assert!(a.outputs().left_fan);
    assert!(!a.outputs().right_fan);
}

#[test]
fn display_only_channels_do_not_affect_control() {
    let mut a = RelayController::new_boot(0);
    let mut b = RelayController::new_boot(0);
    let mut bank_b = bank(comfy(), comfy());
    bank_b.store(0, valid(2000, 0));
    bank_b.store(3, Reading::Error);
    a.update(&bank(comfy(), comfy()), 5);
    b.update(&bank_b, 5);
    assert_eq!(a.outputs(), b.outputs());
    assert_eq!(a.outputs(), outputs(false, false, false));
}

#[test]
fn pump_mists_when_a_side_is_too_dry() {
    let mut c = RelayController::new_boot(0);
    c.update(&bank(comfy(), valid(700, 699)), 100);
    assert!(c.outputs().pump);
}

#[test]
fn pump_mists_when_a_side_is_dangerously_hot() {
    let mut c = RelayController::new_boot(0);
    c.update(&bank(valid(851, 800), comfy()), 100);
    assert_eq!(c.outputs(), outputs(true, false, true));
    let mut c = RelayController::new_boot(0);
    c.update(&bank(valid(850, 800), comfy()), 100);
    assert!(!c.outputs().pump);
}

#[test]
fn implausible_humidity_is_ignored() {
    let mut c = RelayController::new_boot(0);
    c.update(&bank(valid(700, 100), valid(700, 0)), 100);
    assert!(!c.outputs().pump);
    c.update(&bank(valid(700, 101), comfy()), 200);
    assert!(c.outputs().pump);
}

#[test]
fn pump_runs_minimum_time_then_stops_when_both_sides_comfortable() {
    let mut c = RelayController::new_boot(0);
    c.update(&bank(valid(700, 650), comfy()), 1_000);
    assert!(c.outputs().pump);
    c.update(&bank(comfy(), comfy()), 1_000 + MIN_ON_PUMP_MS - 1);
    assert!(c.outputs().pump);
    // Still one side too dry: keeps misting past the minimum time.
    c.update(&bank(comfy(), valid(700, 699)), 1_000 + MIN_ON_PUMP_MS);
    assert!(c.outputs().pump);
    // Implausibly low humidity on one side is not "comfortable" either.
    c.update(&bank(comfy(), valid(700, 50)), 1_000 + MIN_ON_PUMP_MS + 1);
    assert!(c.outputs().pump);
    c.update(&bank(comfy(), comfy()), 1_000 + MIN_ON_PUMP_MS + 2);
    assert!(!c.outputs().pump);
}

#[test]
fn pump_stops_at_once_when_a_probe_fails() {
    let mut c = RelayController::new_boot(0);
    c.update(&bank(valid(700, 650), comfy()), 1_000);
    assert!(c.outputs().pump);
    c.update(&bank(Reading::Error, valid(700, 650)), 2_000);
    assert!(!c.outputs().pump);
    // The stop starts a full lockout.
    c.update(&bank(valid(700, 650), comfy()), 2_000 + MIN_LOCKOUT_MS - 1);
    assert!(!c.outputs().pump);
    c.update(&bank(valid(700, 650), comfy()), 2_000 + MIN_LOCKOUT_MS);
    assert!(c.outputs().pump);
}

#[test]
fn pump_never_mists_blind() {
    // The right side is dry but the left probe failed: the pump switches on and
    // off within the same step, so it ends off and locked out.
    let mut c = RelayController::new_boot(0);
    c.update(&bank(Reading::Error, valid(700, 650)), 1_000);
    assert!(!c.outputs().pump);
    c.update(&bank(valid(700, 650), comfy()), 1_000 + MIN_LOCKOUT_MS - 1);
    assert!(!c.outputs().pump);
}

#[test]
fn error_readings_call_for_nothing() {
    let mut c = RelayController::new_boot(0);
    c.update(&bank(Reading::Error, Reading::Error), 1_000);
    assert_eq!(c.outputs(), outputs(false, false, false));
}

#[test]
fn timed_relay_guards() {
    let mut r = TimedRelay::new_boot(10_000);
    assert!(r.is_off() && !r.is_on());
    assert!(r.lockout_done(10_000));
    r.turn_on(20_000);
    assert!(r.is_on());
    assert!(!r.ran_long_enough(20_000 + 999, 1_000));
    assert!(r.ran_long_enough(20_000 + 1_000, 1_000));
    // A clock that reads earlier than the switch-on counts as no time at all.
    assert!(!r.ran_long_enough(5, 1));
    r.turn_off(30_000);
    assert!(r.is_off());
    assert!(!r.lockout_done(30_000 + MIN_LOCKOUT_MS - 1));
    assert!(r.lockout_done(30_000 + MIN_LOCKOUT_MS));
}

#[test]
fn timed_relay_lockout_saturates_at_clock_end() {
    let mut r = TimedRelay::new_boot(0);
    assert!(r.lockout_done(0));
    r.turn_on(u32::MAX - 10);
    r.turn_off(u32::MAX - 10);
    assert!(!r.lockout_done(u32::MAX - 1));
    assert!(r.lockout_done(u32::MAX));
}

#[test]
fn guards_hold_over_a_chain_of_calls() {
    // The left fan switches on at t = 1000, then sees cool readings every loop
    // (5 s apart): it stays on through its whole minimum on-time.
    let mut c = RelayController::new_boot(1_000);
    c.update(&bank(valid(800, 800), comfy()), 1_000);
    let mut t = 1_000;
    while t + 5_000 < 1_000 + MIN_ON_FAN_MS {
        t += 5_000;
        c.update(&bank(comfy(), comfy()), t);
        assert!(c.outputs().left_fan);
    }
    // It switches off at the first loop past the minimum time, then stays off
    // through the whole lockout however hot it gets.
    t += 5_000;
    c.update(&bank(comfy(), comfy()), t);
    assert!(!c.outputs().left_fan);
    let off_at = t;
    while t + 5_000 < off_at + MIN_LOCKOUT_MS {
        t += 5_000;
        c.update(&bank(valid(900, 800), comfy()), t);
        assert!(!c.outputs().left_fan);
    }
    c.update(&bank(valid(900, 800), comfy()), off_at + MIN_LOCKOUT_MS);
    assert!(c.outputs().left_fan);
}
