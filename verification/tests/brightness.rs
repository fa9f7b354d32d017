use wluma::brightness::backlight::{Events, Reading, Subsystem, Writing};
use wluma::brightness::controller::{
    saturating_add_signed, Action, Controller, Target, TRANSITION_MAX_MS, TRANSITION_STEP_MS,
    WAITING_SLEEP_MS,
};
use wluma::brightness::ddcutil::{find_display_by_name, Display};
use wluma::brightness::{clamp, Backlight, Brightness, DdcUtil};

// Intentionally not in main code to prevent confusing fields by accident
fn target(desired: u64, step: i64) -> Target {
    Target { desired, step }
}

fn setup_controller() -> Controller {
    Controller::new()
}

#[test]
fn test_step_first_run() {
    let mut controller = setup_controller();

    // even if predictor already wants a change, when we execute the first step...
    let action = controller.step(Some(42), Some(37));

    // a real current brightness level is respected and sent to predictor
    assert_eq!(Some(42), controller.current);
    assert_eq!(Action::Publish(42), action);
    assert!(controller.target.is_none());
}

#[test]
fn test_step_first_run_brightness_zero() {
    let mut controller = setup_controller();

    let action = controller.step(Some(0), Some(37));

    assert_eq!(Some(0), controller.current);
    assert_eq!(Action::Publish(0), action);
    assert!(controller.target.is_none());
}

#[test]
fn test_step_user_changed_brightness() {
    let mut controller = setup_controller();

    // when last brightness differs from the current one
    controller.current = Some(66);
    // ... or we were already in a transition
    controller.target = Some(target(77, 1));

    // even if predictor wants a change, when we execute the next step...
    let action = controller.step(Some(42), Some(37));

    // we notice a change in brightness made by user and that takes priority
    assert_eq!(Some(42), controller.current);
    assert_eq!(Action::Publish(42), action);
    assert!(controller.target.is_none());
}

#[test]
fn test_update_target_ignore_when_desired_didnt_change() {
    let old_target = Some(target(10, -20));
    let mut controller = setup_controller();
    controller.target = old_target;
    controller.current = Some(7);

    controller.update_target(10);

    assert_eq!(old_target, controller.target);
}

#[test]
fn test_update_target_ignore_when_desired_equals_current() {
    let old_target = Some(target(10, -20));
    let mut controller = setup_controller();
    controller.target = old_target;
    controller.current = Some(7);

    controller.update_target(7);

    assert_eq!(old_target, controller.target);
}

#[test]
fn test_update_target_finds_minimal_step_that_reaches_target_within_transition_duration() {
    let mut controller = setup_controller();

    let test_cases = vec![
        (0, 1, 1),
        (10000, 10001, 1),
        (10000, 10013, 1),
        (10000, 10199, 1),
        (10000, 10200, 1),
        (10000, 10413, 3),
        (10000, 11732, 9),
        (10000, 9999, -1),
        (10000, 9983, -1),
        (10000, 9801, -1),
        (10000, 9800, -1),
        (10000, 9473, -3),
        (10000, 8433, -8),
    ];

    for (current, desired, expected_step) in test_cases {
        controller.current = Some(current);
        controller.update_target(desired);
        assert_eq!(Some(target(desired, expected_step)), controller.target);
    }
}

#[test]
fn test_transition_reset_target_when_reached() {
    let mut controller = setup_controller();
    controller.current = Some(10);
    controller.target = Some(target(10, 20));

    let action = controller.transition();

    assert_eq!(None, controller.target);
    assert_eq!(Action::Wait, action);
}

#[test]
fn test_transition_increases_brightness_with_next_step() {
    let mut controller = setup_controller();
    controller.current = Some(10);
    controller.target = Some(target(20, 2));

    let action = controller.transition();
    assert_eq!(Action::Write(12), action);
    controller.written(12);

    assert_eq!(Some(12), controller.current);
}

#[test]
fn test_transition_decreases_brightness_with_next_step() {
    let mut controller = setup_controller();
    controller.current = Some(10);
    controller.target = Some(target(9, -1));

    let action = controller.transition();
    assert_eq!(Action::Write(9), action);
    controller.written(9);

    assert_eq!(Some(9), controller.current);
}

#[test]
fn test_transition_doesnt_decrease_below_0() {
    let mut controller = setup_controller();
    controller.current = Some(1);
    controller.target = Some(target(0, -2)); // step of -2 should not overshoot

    let action = controller.transition();
    assert_eq!(Action::Write(0), action);
    controller.written(0);

    assert_eq!(Some(0), controller.current);
}

#[test]
fn test_target_reached() {
    assert!(!target(10, 1).reached(9));
    assert!(target(10, 1).reached(10));
    assert!(target(10, 1).reached(11));

    assert!(target(10, -1).reached(9));
    assert!(target(10, -1).reached(10));
    assert!(!target(10, -1).reached(11));
}

#[test]
fn saturating_add_signed_stays_in_range() {
    assert_eq!(5, saturating_add_signed(2, 3));
    assert_eq!(0, saturating_add_signed(2, -3));
    assert_eq!(0, saturating_add_signed(u64::MAX / 2, i64::MIN));
    assert_eq!(u64::MAX, saturating_add_signed(u64::MAX - 1, 2));
    assert_eq!(u64::MAX - (1 << 63), saturating_add_signed(u64::MAX, i64::MIN));
}

/// Runs a transition to its end on an actuator that accepts what is
/// written, and returns the writes and the milliseconds that it took.
fn run_transition(controller: &mut Controller, desired: u64) -> (Vec<u64>, u64) {
    let mut writes = vec![];
    let mut elapsed = 0;
    let mut predicted = Some(desired);
    loop {
        match controller.step(controller.current, predicted.take()) {
            Action::Write(value) => {
                writes.push(value);
                controller.written(value);
                elapsed += TRANSITION_STEP_MS;
            }
            Action::Wait => {
                elapsed += WAITING_SLEEP_MS;
                return (writes, elapsed);
            }
            Action::Publish(_) => unreachable!(),
        }
    }
}

#[test]
fn transition_step_sizing() {
    let mut controller = setup_controller();
    controller.step(Some(10000), None);

    let (writes, elapsed) = run_transition(&mut controller, 10413);

    // steps of ceil(413 / 200) = 3
    assert_eq!(10003, writes[0]);
    assert_eq!(138, writes.len());
    // the last step leads past the target, by less than a step
    assert_eq!(Some(&10414), writes.last());
    assert_eq!(Some(10414), controller.current);
    assert_eq!(None, controller.target);
    assert!(elapsed <= TRANSITION_MAX_MS + WAITING_SLEEP_MS);
}

#[test]
fn transition_arrives_exactly_when_the_step_divides_the_distance() {
    for (current, desired) in [(100u64, 120u64), (120, 100), (0, 200), (10000, 10400), (5, 0)] {
        let mut controller = setup_controller();
        controller.step(Some(current), None);

        let (writes, elapsed) = run_transition(&mut controller, desired);

        assert_eq!(Some(&desired), writes.last());
        assert_eq!(Some(desired), controller.current);
        assert!(elapsed <= TRANSITION_MAX_MS + WAITING_SLEEP_MS);
    }
}

#[test]
fn transition_takes_at_most_its_time() {
    for (current, desired) in [
        (0u64, u64::MAX),
        (u64::MAX, 0),
        (0, 1),
        (17, 1_000_003),
        (1_000_003, 17),
        (u64::MAX - 5, u64::MAX),
    ] {
        let mut controller = setup_controller();
        controller.step(Some(current), None);

        let (writes, elapsed) = run_transition(&mut controller, desired);

        assert!(writes.len() as u64 * TRANSITION_STEP_MS <= TRANSITION_MAX_MS);
        assert!(elapsed <= TRANSITION_MAX_MS + WAITING_SLEEP_MS);
        assert_eq!(None, controller.target);
    }
}

#[test]
fn user_override() {
    let mut controller = setup_controller();
    controller.step(Some(100), None);

    // predictor sends 120, controller begins transition from 100
    assert_eq!(Action::Write(101), controller.step(Some(100), Some(120)));
    controller.written(101);
    assert_eq!(Some(target(120, 1)), controller.target);
    assert_eq!(Action::Write(102), controller.step(Some(101), None));
    controller.written(102);

    // before the transition completes, the actuator independently reads 300
    assert!(controller.user_edit(300));
    assert_eq!(Action::Publish(300), controller.step(Some(300), Some(125)));
    assert_eq!(None, controller.target);
    assert_eq!(Some(300), controller.current);

    // and nothing is written until the predictor speaks again
    assert_eq!(Action::Wait, controller.step(Some(300), None));
}

#[test]
fn failed_reading_skips_the_tick() {
    let mut controller = setup_controller();
    controller.step(Some(100), None);
    controller.step(Some(100), Some(120));

    let before = controller;
    assert_eq!(Action::Wait, controller.step(None, Some(50)));
    assert_eq!(before, controller);
}

#[test]
fn written_values_lie_within_the_limits() {
    assert_eq!(1, clamp(0, 1, 255));
    assert_eq!(255, clamp(300, 1, 255));
    assert_eq!(17, clamp(17, 1, 255));
    assert_eq!(5, clamp(u64::MAX, 5, 5));

    let monitor = DdcUtil::new(1, 100);
    assert_eq!(100, monitor.set(101));
    assert_eq!(1, monitor.set(0));
    assert_eq!(42, monitor.set(42));
    assert_eq!(100, Brightness::DdcUtil(monitor).set(u64::MAX));

    let backlight = Backlight::new(1, 937, true, false);
    assert_eq!(Writing::File(937), backlight.set(1000));
    assert_eq!(Writing::File(1), backlight.set(0));
    assert_eq!(1, Brightness::Backlight(backlight).set(0));
}

#[test]
fn backlight_writes_through_dbus_without_permission() {
    let mut backlight = Backlight::new(0, 255, false, true);
    backlight.update(10);

    assert_eq!(Writing::Dbus(255), backlight.set(256));
    assert_eq!(Some(255), backlight.written(256, Events::WouldBlock));
    assert_eq!(Some(255), backlight.current);
    assert!(backlight.pending_dbus_write);

    // the change that the write caused is not taken for the user's
    assert_eq!(Reading::Cached(255), backlight.get(Events::Read { changed: true }));
    assert!(!backlight.pending_dbus_write);
    assert_eq!(Reading::File, backlight.get(Events::Read { changed: true }));

    assert_eq!(Writing::Denied, Backlight::new(0, 255, false, false).set(7));
}

#[test]
fn backlight_writes_nothing_that_the_bus_cannot_take() {
    let wide = Backlight::new(10, (1 << 32) + 5, false, true);

    assert_eq!(Writing::Dbus(10), wide.set(3));
    assert_eq!(Writing::Dbus(u32::MAX), wide.set(u32::MAX as u64));
    assert_eq!(Writing::Denied, wide.set((1 << 32) + 3));
    assert_eq!(Writing::Denied, wide.set(u64::MAX));
    assert_eq!(Writing::Denied, Backlight::new(1 << 40, 1 << 41, false, true).set(0));
    // the file takes every value
    assert_eq!(
        Writing::File((1 << 32) + 3),
        Backlight::new(10, (1 << 32) + 5, true, true).set((1 << 32) + 3)
    );
}

#[test]
fn backlight_reads_the_file_only_when_it_changed() {
    let mut backlight = Backlight::new(1, 255, true, false);

    assert_eq!(Reading::File, backlight.get(Events::WouldBlock));
    assert_eq!(Reading::File, backlight.get(Events::Failed));
    backlight.update(42);
    assert_eq!(Reading::Cached(42), backlight.get(Events::WouldBlock));
    assert_eq!(Reading::Cached(42), backlight.get(Events::Read { changed: false }));
    assert_eq!(Reading::File, backlight.get(Events::Read { changed: true }));
    assert_eq!(Reading::Failed, backlight.get(Events::Failed));

    assert_eq!(Some(50), backlight.written(50, Events::Read { changed: true }));
    assert!(!backlight.pending_dbus_write);
    assert_eq!(None, backlight.written(60, Events::Failed));
    assert_eq!(Some(60), backlight.current);
}

fn display(model: Option<&str>, serial: Option<&str>, manufacturer: Option<&str>, caps: bool) -> Display {
    Display {
        model_name: model.map(str::to_string),
        serial_number: serial.map(str::to_string),
        manufacturer_id: manufacturer.map(str::to_string),
        has_capabilities: caps,
    }
}

#[test]
fn displays_are_found_by_a_part_of_their_merged_name() {
    let displays = vec![
        display(Some("DELL U2720Q"), Some("ABC123"), Some("DEL"), false),
        display(None, None, Some("GSM"), true),
        display(Some("DELL U2720Q"), Some("XYZ789"), Some("DEL"), true),
    ];

    assert_eq!("DELL U2720Q ABC123 DEL", displays[0].merged_name());
    assert_eq!("  GSM", displays[1].merged_name());

    assert_eq!(Some(2), find_display_by_name(&displays, "DELL", true));
    assert_eq!(Some(0), find_display_by_name(&displays, "DELL", false));
    assert_eq!(Some(2), find_display_by_name(&displays, "Q XYZ", false));
    assert_eq!(Some(1), find_display_by_name(&displays, " GSM", true));
    assert_eq!(None, find_display_by_name(&displays, "LG", false));
    assert_eq!(Some(1), find_display_by_name(&displays, "", true));

    assert_eq!(Some(2), DdcUtil::select(&displays, "DELL"));
    assert_eq!(Some(0), DdcUtil::select(&displays, "ABC"));
    assert_eq!(None, DdcUtil::select(&displays, "abc"));
}

#[test]
fn subsystem_is_told_by_the_parent_directory() {
    assert_eq!(Some(Subsystem::Backlight), Subsystem::of_parent("backlight"));
    assert_eq!(Some(Subsystem::Leds), Subsystem::of_parent("leds"));
    assert_eq!(None, Subsystem::of_parent("drm"));
    assert_eq!(None, Subsystem::of_parent(""));
    assert_eq!("backlight", Subsystem::Backlight.name());
    assert_eq!("leds", Subsystem::Leds.name());
}
