use std::collections::HashMap;
use wluma::als::cmd::{Cmd, Output, DEFAULT_LUX};
use wluma::als::webcam::Webcam;
use wluma::als::{cmd, find_profile, iio, none, smoothen, time, webcam};

fn thresholds(pairs: Vec<(u64, &str)>) -> HashMap<u64, String> {
    pairs
        .into_iter()
        .map(|(lux, profile)| (lux, profile.to_string()))
        .collect()
}

#[test]
fn test_find_profile_base_cases() {
    let thresholds = thresholds(vec![(0, "dark"), (10, "dim"), (20, "bright")]);

    assert_eq!("dark", find_profile(0, &thresholds));
    assert_eq!("dark", find_profile(2, &thresholds));
    assert_eq!("dim", find_profile(10, &thresholds));
    assert_eq!("dim", find_profile(19, &thresholds));
    assert_eq!("bright", find_profile(20, &thresholds));
    assert_eq!("bright", find_profile(200, &thresholds));
}

#[test]
fn test_find_profile_fallback_first() {
    let thresholds = thresholds(vec![(5, "dark"), (10, "dim"), (20, "bright")]);

    assert_eq!("dark", find_profile(0, &thresholds));
    assert_eq!("dark", find_profile(4, &thresholds));
}

#[test]
fn test_find_profile_is_constant_on_thresholds_with_one_value() {
    let thresholds = thresholds(vec![(5, "dark")]);

    assert_eq!("dark", find_profile(0, &thresholds));
    assert_eq!("dark", find_profile(4, &thresholds));
    assert_eq!("dark", find_profile(5, &thresholds));
    assert_eq!("dark", find_profile(9, &thresholds));
}

#[test]
#[should_panic]
fn test_find_profile_panics_on_empty_thresholds() {
    find_profile(10, &HashMap::default());
}

#[test]
fn find_profile_does_not_depend_on_the_order_of_the_map() {
    // sixty thresholds, put in from the greatest down
    let mut thresholds = HashMap::new();
    for step in (1u64..=60).rev() {
        thresholds.insert(step * 100, format!("profile-{step}"));
    }

    assert_eq!("profile-1", find_profile(0, &thresholds));
    assert_eq!("profile-1", find_profile(199, &thresholds));
    for step in 1u64..=60 {
        assert_eq!(format!("profile-{step}"), find_profile(step * 100, &thresholds));
        assert_eq!(format!("profile-{step}"), find_profile(step * 100 + 99, &thresholds));
    }
    assert_eq!("profile-60", find_profile(u64::MAX, &thresholds));
}

#[test]
fn smoothen_without_thresholds_is_the_first_bucket() {
    assert_eq!(0, smoothen(0, &[]));
    assert_eq!(0, smoothen(u64::MAX, &[]));
}

#[test]
fn smoothen_finds_the_greatest_threshold_reached() {
    let thresholds = [5, 10, 20];

    assert_eq!(0, smoothen(0, &thresholds));
    assert_eq!(0, smoothen(4, &thresholds));
    assert_eq!(0, smoothen(5, &thresholds));
    assert_eq!(0, smoothen(9, &thresholds));
    assert_eq!(1, smoothen(10, &thresholds));
    assert_eq!(1, smoothen(19, &thresholds));
    assert_eq!(2, smoothen(20, &thresholds));
    assert_eq!(2, smoothen(u64::MAX, &thresholds));
}

fn setup_als() -> cmd::Als {
    cmd::Als::new(HashMap::default())
}

#[test]
fn test_get_raw_returns_default_value_when_no_data_from_command() {
    let mut als = setup_als();

    assert_eq!(DEFAULT_LUX, als.get_raw(&vec![]));
}

#[test]
fn test_get_raw_returns_value_from_command() {
    let mut als = setup_als();

    assert_eq!(42, als.get_raw(&vec![42]));
}

#[test]
fn test_get_raw_returns_most_recent_value_from_command() {
    let mut als = setup_als();

    assert_eq!(44, als.get_raw(&vec![42, 43, 44]));
}

#[test]
fn test_get_raw_returns_last_known_value_from_command_when_no_new_data() {
    let mut als = setup_als();

    assert_eq!(43, als.get_raw(&vec![42, 43]));
    assert_eq!(43, als.get_raw(&vec![]));
    assert_eq!(43, als.get_raw(&vec![]));
}

#[test]
fn command_als_buckets_its_raw_value() {
    let mut als = cmd::Als::new(thresholds(vec![(0, "dark"), (50, "dim"), (150, "bright")]));

    assert_eq!("dim", als.get(&vec![]));
    assert_eq!("bright", als.get(&vec![3, 150]));
    assert_eq!("bright", als.get(&vec![]));
    assert_eq!("dark", als.get(&vec![49]));
}

fn output(success: bool, stdout: &str) -> Output {
    Output { success, stdout: stdout.as_bytes().to_vec() }
}

#[test]
fn command_output_is_a_number_and_nothing_else() {
    let cmd = Cmd::new("cat /sys/bus/iio/devices/iio:device0/in_illuminance_raw".to_string());

    assert_eq!(Some(42), cmd.output(&output(true, "42")));
    assert_eq!(Some(0), cmd.output(&output(true, "0")));
    assert_eq!(Some(7), cmd.output(&output(true, "+007")));
    assert_eq!(Some(u64::MAX), cmd.output(&output(true, "18446744073709551615")));
    assert_eq!(None, cmd.output(&output(true, "18446744073709551616")));
    assert_eq!(None, cmd.output(&output(true, "42\n")));
    assert_eq!(None, cmd.output(&output(true, " 42")));
    assert_eq!(None, cmd.output(&output(true, "-1")));
    assert_eq!(None, cmd.output(&output(true, "4.2")));
    assert_eq!(None, cmd.output(&output(true, "")));
    assert_eq!(None, cmd.output(&output(true, "+")));
    assert_eq!(None, cmd.output(&output(false, "42")));
    assert_eq!(None, cmd.output(&Output { success: true, stdout: vec![0x34, 0xff] }));
}

#[test]
fn command_runs_send_what_they_brought() {
    let cmd = Cmd::new("true".to_string());
    let outputs = vec![
        output(true, "1"),
        output(false, "2"),
        output(true, "three"),
        output(true, "4"),
    ];

    assert_eq!(vec![1, 4], cmd.run(&outputs));
    assert_eq!(Vec::<u64>::new(), cmd.run(&vec![]));
}

#[test]
fn none_als_has_one_label() {
    assert_eq!("none", none::Als::default().get());
}

#[test]
fn time_als_buckets_the_hour() {
    let als = time::Als::new(thresholds(vec![(0, "night"), (7, "day"), (20, "evening")]));

    assert_eq!("night", als.profile_at(0));
    assert_eq!("night", als.profile_at(6));
    assert_eq!("day", als.profile_at(7));
    assert_eq!("day", als.profile_at(19));
    assert_eq!("evening", als.profile_at(23));

    let now = als.get();
    assert!(["night", "day", "evening"].contains(&now.as_str()));

    // no hour reaches 24
    let always = time::Als::new(thresholds(vec![(0, "any"), (24, "never")]));
    assert_eq!("any", always.get());
}

#[test]
fn webcam_takes_the_smallest_resolution() {
    assert_eq!(None, Webcam::setup(&vec![]));
    assert_eq!(Some((640, 480)), Webcam::setup(&vec![(640, 480)]));
    assert_eq!(
        Some((160, 120)),
        Webcam::setup(&vec![(1280, 720), (320, 240), (160, 120), (640, 480)])
    );
    // by height first, then by width
    assert_eq!(Some((800, 100)), Webcam::setup(&vec![(100, 800), (900, 100), (800, 100)]));
}

#[test]
fn webcam_publishes_the_lightness_of_its_frame() {
    let webcam = Webcam::new(0);

    assert_eq!(Some(100), webcam.step(&[255; 12], 4));
    assert_eq!(Some(28), webcam.step(&[10, 20, 30, 200, 100, 50], 2));
    assert_eq!(None, webcam.step(&[10, 20, 30, 200, 100], 2));
    assert_eq!(None, webcam.step(&[], 0));
}

#[test]
fn webcam_als_keeps_the_last_value() {
    let mut als = webcam::Als::new(thresholds(vec![(0, "dark"), (50, "bright")]));

    assert_eq!(webcam::DEFAULT_LUX, als.get_raw(None));
    assert_eq!(42, als.get_raw(Some(42)));
    assert_eq!(42, als.get_raw(None));
    assert_eq!("dark", als.get(None));
    assert_eq!("bright", als.get(Some(77)));
    assert_eq!("bright", als.get(None));
}

#[test]
fn light_sensors_are_known_by_name() {
    assert!(iio::is_light_sensor("als"));
    assert!(iio::is_light_sensor("acpi-als"));
    assert!(iio::is_light_sensor("apds9960"));
    assert!(!iio::is_light_sensor("ALS"));
    assert!(!iio::is_light_sensor("als\n"));
    assert!(!iio::is_light_sensor(""));
}

#[test]
fn colour_sensor_readings_are_weighted() {
    assert_eq!(0, iio::intensity(0, 0, 0));
    assert_eq!(1, iio::intensity(0, 1, 0));
    assert_eq!(157, iio::intensity(0, 100, 0));
    // -32.466 + 157.837 - 73.191
    assert_eq!(52, iio::intensity(100, 100, 100));
    assert_eq!(0, iio::intensity(100, 0, 0));
    assert_eq!(0, iio::intensity(1, 1, 100));
    assert_eq!(u64::MAX, iio::intensity(0, u64::MAX, 0));
    // 18.94 and 0.19 are rounded down
    assert_eq!(18, iio::intensity(0, 12, 0));
    assert_eq!(0, iio::intensity(4861, 1000, 0));
}
