use wluma::predictor::controller::manual::{reduction, Controller};
use wluma::predictor::controller::PENDING_COOLDOWN_RESET;
use wluma::predictor::data::Entry;
use wluma::predictor::luma_only_controller::{LumaOnlyController, COOLDOWN_STEPS};

const ALS_UNKNOWN: &str = "not-configured-threshold";
const ALS_DIM: &str = "dim";

fn setup_manual() -> Controller {
    let thresholds = vec![
        Entry::new(ALS_DIM, 0, 0),
        Entry::new(ALS_DIM, 50, 30),
        Entry::new(ALS_DIM, 100, 60),
    ];
    Controller::new(thresholds, "eDP-1")
}

#[test]
fn test_get_brightness_reduction() {
    let controller = setup_manual();

    assert_eq!(controller.get_brightness_reduction(100, ALS_DIM, 0), 0);
    assert_eq!(controller.get_brightness_reduction(100, ALS_DIM, 10), 10);
    assert_eq!(controller.get_brightness_reduction(100, ALS_DIM, 20), 18);
    assert_eq!(controller.get_brightness_reduction(100, ALS_DIM, 30), 24);
    assert_eq!(controller.get_brightness_reduction(100, ALS_DIM, 40), 28);
    assert_eq!(controller.get_brightness_reduction(100, ALS_DIM, 50), 30);
    assert_eq!(controller.get_brightness_reduction(100, ALS_DIM, 60), 31);
    assert_eq!(controller.get_brightness_reduction(100, ALS_DIM, 70), 35);
    assert_eq!(controller.get_brightness_reduction(100, ALS_DIM, 80), 41);
    assert_eq!(controller.get_brightness_reduction(100, ALS_DIM, 90), 49);
    assert_eq!(controller.get_brightness_reduction(100, ALS_DIM, 100), 60);
}

#[test]
fn test_no_brightness_reduction_for_not_configured_als_threshold() {
    let controller = setup_manual();

    for luma in (0u8..=100).step_by(10) {
        assert_eq!(controller.get_brightness_reduction(100, ALS_UNKNOWN, luma), 0);
    }
}

#[test]
fn reduction_is_a_percentage_rounded_down() {
    assert_eq!(0, reduction(0, 50));
    assert_eq!(49, reduction(99, 50));
    assert_eq!(123, reduction(123, 100));
    assert_eq!(u64::MAX, reduction(u64::MAX, 101));
    assert_eq!(u64::MAX / 100, reduction(u64::MAX, 1));
}

#[test]
fn manual_prediction_reduces_the_brightness_before_reduction() {
    let mut controller = setup_manual();

    // the first brightness is the user's: 100 at luma 50, where the table takes 30%
    assert_eq!(Some(91), controller.process(ALS_DIM, 50, Some(100)));
    assert_eq!(Some(130), controller.pre_reduction_brightness);
    assert_eq!(Some(100), controller.last_brightness);

    // 130 - 130 * 10 / 100
    assert_eq!(Some(117), controller.process(ALS_DIM, 10, None));
    // 130 - 130 * 41 / 100
    assert_eq!(Some(77), controller.process(ALS_DIM, 80, None));
    // the same brightness again is no edit
    assert_eq!(Some(130), controller.process(ALS_DIM, 0, Some(100)));
}

#[test]
fn manual_edit_starts_the_cooldown() {
    let mut controller = setup_manual();
    controller.process(ALS_DIM, 50, Some(100));

    assert_eq!(None, controller.process(ALS_DIM, 0, Some(123)));
    assert_eq!(PENDING_COOLDOWN_RESET, controller.pending_cooldown);
    assert_eq!(Some(123), controller.pre_reduction_brightness);
    for i in 1..=PENDING_COOLDOWN_RESET {
        assert_eq!(None, controller.process(ALS_DIM, i, None));
        assert_eq!(PENDING_COOLDOWN_RESET - i, controller.pending_cooldown);
    }
    // 123 - 123 * 30 / 100
    assert_eq!(Some(87), controller.process(ALS_DIM, 50, None));
    assert_eq!(0, controller.pending_cooldown);
}

#[test]
fn manual_adjust_debounces_the_lux() {
    let mut controller = setup_manual();
    assert!(!controller.is_started());
    controller.start(ALS_UNKNOWN.to_string());
    assert!(controller.is_started());

    // nothing is configured under the first lux value
    assert_eq!(Some(100), controller.adjust(50, None, Some(100)));
    assert_eq!(Some(100), controller.pre_reduction_brightness);
    for _ in 0..15 {
        assert_eq!(Some(100), controller.adjust(50, Some(ALS_DIM.to_string()), None));
    }
    assert_eq!(Some(70), controller.adjust(50, None, None));
}

#[test]
fn luma_only_reduction_takes_the_first_step_that_reaches() {
    let controller = LumaOnlyController::new(vec![(10, 0), (50, 20), (100, 45)]);

    assert_eq!(0, controller.get_brightness_reduction(200, 0));
    assert_eq!(0, controller.get_brightness_reduction(200, 10));
    assert_eq!(40, controller.get_brightness_reduction(200, 11));
    assert_eq!(40, controller.get_brightness_reduction(200, 50));
    assert_eq!(90, controller.get_brightness_reduction(200, 100));
    assert_eq!(0, controller.get_brightness_reduction(200, 101));
}

#[test]
fn luma_only_controller_predicts_after_the_cooldown() {
    let mut controller = LumaOnlyController::new(vec![(10, 0), (50, 20), (100, 45)]);

    // the first brightness is taken up and starts the cooldown
    assert_eq!(None, controller.adjust(50, Some(200)));
    assert_eq!(Some(240), controller.pre_reduction_brightness);
    assert_eq!(Some(200), controller.last_brightness);
    assert_eq!(COOLDOWN_STEPS, controller.cooldown);
    for _ in 0..COOLDOWN_STEPS {
        assert_eq!(None, controller.adjust(50, Some(7)));
    }
    assert_eq!(Some(200), controller.adjust(50, None));
    assert_eq!(Some(240), controller.adjust(5, None));
    // 45% of 200 are taken from 240
    assert_eq!(Some(150), controller.adjust(90, Some(200)));
}
