use wluma::config;
use wluma::config::{
    is_deprecated, load, match_capturer, match_predictor, parse, parse_als_thresholds, put,
    validate,
    Als, BacklightOutput, Capturer, Config, ConfigError, DdcUtilOutput, Output, Predictor,
    WaylandProtocol,
};
use wluma::predictor::data::Entry;

fn text_pairs(pairs: &[(&str, &str)]) -> Vec<(String, String)> {
    pairs.iter().map(|(key, value)| (key.to_string(), value.to_string())).collect()
}

fn table(rows: &[(&str, &[(&str, u64)])]) -> Vec<(String, Vec<(String, u64)>)> {
    rows.iter()
        .map(|(lux, rows)| {
            (lux.to_string(), rows.iter().map(|(luma, percent)| (luma.to_string(), *percent)).collect())
        })
        .collect()
}

fn file_config() -> config::file::Config {
    config::file::Config {
        als: config::file::Als::Time { thresholds: text_pairs(&[("0", "night"), ("7", "day")]) },
        output: config::file::OutputByType {
            backlight: vec![config::file::BacklightOutput {
                name: "eDP-1".to_string(),
                path: "/sys/class/backlight/intel_backlight".to_string(),
                capturer: None,
                min_brightness: None,
                predictor: None,
            }],
            ddcutil: vec![config::file::DdcUtilOutput {
                name: "Dell Inc. DELL P2415Q".to_string(),
                capturer: Some(config::file::Capturer::Absent),
                min_brightness: Some(10),
                predictor: Some(config::file::Predictor::Manual {
                    thresholds: table(&[("night", &[("0", 0), ("100", 50)]), ("day", &[("50", 10)])]),
                }),
            }],
        },
        keyboard: vec![config::file::Keyboard {
            name: "keyboard-dell".to_string(),
            path: "/sys/bus/platform/devices/dell-laptop/leds/dell::kbd_backlight".to_string(),
        }],
    }
}

#[test]
fn capturers_are_matched_by_name() {
    assert_eq!(Capturer::Absent, match_capturer(config::file::Capturer::Absent));
    assert_eq!(Capturer::Wayland(WaylandProtocol::Any), match_capturer(config::file::Capturer::Wlroots));
    assert_eq!(Capturer::Wayland(WaylandProtocol::Any), match_capturer(config::file::Capturer::Wayland));
    assert_eq!(
        Capturer::Wayland(WaylandProtocol::ExtImageCopyCaptureV1),
        match_capturer(config::file::Capturer::ExtImageCopyCaptureV1)
    );
    assert_eq!(
        Capturer::Wayland(WaylandProtocol::WlrScreencopyUnstableV1),
        match_capturer(config::file::Capturer::WlrScreencopyUnstableV1)
    );
    assert_eq!(
        Capturer::Wayland(WaylandProtocol::WlrExportDmabufUnstableV1),
        match_capturer(config::file::Capturer::WlrExportDmabufUnstableV1)
    );
    assert_eq!(config::file::Capturer::Wayland, config::file::Capturer::default());
    assert!(is_deprecated(config::file::Capturer::Wlroots));
    assert!(!is_deprecated(config::file::Capturer::Wayland));
}

#[test]
fn protocols_have_names() {
    assert_eq!("any", WaylandProtocol::Any.name());
    assert_eq!("ext-image-copy-capture-v1", WaylandProtocol::ExtImageCopyCaptureV1.name());
    assert_eq!("wlr-screencopy-unstable-v1", WaylandProtocol::WlrScreencopyUnstableV1.name());
    assert_eq!("wlr-export-dmabuf-unstable-v1", WaylandProtocol::WlrExportDmabufUnstableV1.name());
}

#[test]
fn predictors_are_matched_with_their_tables() {
    assert_eq!(Ok(Predictor::Adaptive), match_predictor(config::file::Predictor::Adaptive));
    assert_eq!(
        Ok(Predictor::Manual {
            thresholds: vec![
                Entry::new("dim", 0, 0),
                Entry::new("dim", 50, 30),
                Entry::new("dim", 255, 60),
                Entry::new("bright", 7, 1),
            ]
        }),
        match_predictor(config::file::Predictor::Manual {
            thresholds: table(&[
                ("dim", &[("0", 0), ("50", 30), ("255", 60)]),
                ("none", &[]),
                ("bright", &[("+7", 1)]),
            ]),
        })
    );
    for luma in ["256", "", "1e1", "-0", " 1", "١"] {
        assert_eq!(
            Err(ConfigError::InvalidLuma),
            match_predictor(config::file::Predictor::Manual {
                thresholds: table(&[("dim", &[("0", 0)]), ("bright", &[("1", 1), (luma, 2)])]),
            })
        );
    }
}

#[test]
fn later_rows_take_the_place_of_earlier_ones() {
    assert_eq!(
        Ok(Predictor::Manual {
            thresholds: vec![
                Entry::new("dim", 5, 3),
                Entry::new("dim", 6, 2),
                Entry::new("bright", 5, 4),
            ]
        }),
        match_predictor(config::file::Predictor::Manual {
            thresholds: table(&[
                ("dim", &[("5", 1), ("6", 2), ("05", 3)]),
                ("bright", &[("5", 4)]),
            ]),
        })
    );

    let mut entries = vec![];
    put(&mut entries, Entry::new("dim", 1, 1));
    put(&mut entries, Entry::new("dim", 2, 2));
    put(&mut entries, Entry::new("dark", 1, 3));
    put(&mut entries, Entry::new("dim", 1, 4));
    assert_eq!(
        vec![Entry::new("dim", 1, 4), Entry::new("dim", 2, 2), Entry::new("dark", 1, 3)],
        entries
    );
}

#[test]
fn thresholds_are_read_as_numbers() {
    let parsed = parse_als_thresholds(&text_pairs(&[("0", "dark"), ("10", "dim"), ("0010", "dusk")]));
    let parsed = parsed.unwrap();
    assert_eq!(2, parsed.len());
    assert_eq!("dark", parsed[&0]);
    assert_eq!("dusk", parsed[&10]);

    assert!(parse_als_thresholds(&vec![]).unwrap().is_empty());
    assert_eq!(
        Err(ConfigError::InvalidLux),
        parse_als_thresholds(&text_pairs(&[("0", "dark"), ("ten", "dim")]))
    );
    assert_eq!(
        Err(ConfigError::InvalidLux),
        parse_als_thresholds(&text_pairs(&[("18446744073709551616", "dark")]))
    );
}

#[test]
fn file_is_taken_over() {
    let config = parse(file_config()).unwrap();

    assert_eq!(
        vec![
            Output::Backlight(BacklightOutput {
                name: "eDP-1".to_string(),
                path: "/sys/class/backlight/intel_backlight".to_string(),
                capturer: Capturer::Wayland(WaylandProtocol::Any),
                min_brightness: 1,
                predictor: Predictor::Adaptive,
            }),
            Output::DdcUtil(DdcUtilOutput {
                name: "Dell Inc. DELL P2415Q".to_string(),
                capturer: Capturer::Absent,
                min_brightness: 10,
                predictor: Predictor::Manual {
                    thresholds: vec![
                        Entry::new("night", 0, 0),
                        Entry::new("night", 100, 50),
                        Entry::new("day", 50, 10),
                    ]
                },
            }),
            Output::Backlight(BacklightOutput {
                name: "keyboard-dell".to_string(),
                path: "/sys/bus/platform/devices/dell-laptop/leds/dell::kbd_backlight".to_string(),
                capturer: Capturer::Absent,
                min_brightness: 0,
                predictor: Predictor::Adaptive,
            }),
        ],
        config.output
    );
    match config.als {
        Als::Time { thresholds } => {
            assert_eq!(2, thresholds.len());
            assert_eq!("night", thresholds[&0]);
            assert_eq!("day", thresholds[&7]);
        }
        _ => panic!("the light source is the time of day"),
    }
    assert_eq!("keyboard-dell", config.output[2].name());
}

#[test]
fn light_sources_are_taken_over() {
    let mut file = file_config();
    file.als = config::file::Als::Webcam {
        video: 2,
        sleep_ms: Some(500),
        thresholds: text_pairs(&[("30", "bright")]),
    };
    match parse(file).unwrap().als {
        Als::Webcam { video, sleep_ms, thresholds } => {
            assert_eq!((2, Some(500)), (video, sleep_ms));
            assert_eq!("bright", thresholds[&30]);
        }
        _ => panic!("the light source is the camera"),
    }

    let mut file = file_config();
    file.als = config::file::Als::Iio { path: "/sys/bus/iio/devices".to_string(), thresholds: vec![] };
    match parse(file).unwrap().als {
        Als::Iio { path, thresholds } => {
            assert_eq!("/sys/bus/iio/devices", path);
            assert!(thresholds.is_empty());
        }
        _ => panic!("the light source is a sensor"),
    }

    let mut file = file_config();
    file.als = config::file::Als::Absent;
    assert!(matches!(parse(file).unwrap().als, Als::Absent));
}

#[test]
fn numbers_that_are_none_are_refused() {
    let mut file = file_config();
    file.als = config::file::Als::Iio {
        path: "/sys/bus/iio/devices".to_string(),
        thresholds: text_pairs(&[("dark", "0")]),
    };
    assert_eq!(ConfigError::InvalidLux, parse(file).unwrap_err());

    // the outputs are looked at before the light source
    let mut file = file_config();
    file.als = config::file::Als::Time { thresholds: text_pairs(&[("dark", "0")]) };
    file.output.backlight[0].predictor =
        Some(config::file::Predictor::Manual { thresholds: table(&[("dim", &[("300", 0)])]) });
    assert_eq!(ConfigError::InvalidLuma, parse(file).unwrap_err());

    let mut file = file_config();
    file.output.ddcutil[0].predictor =
        Some(config::file::Predictor::Manual { thresholds: table(&[("dim", &[("x", 0)])]) });
    assert_eq!(ConfigError::InvalidLuma, load(file).unwrap_err());
}

fn backlight(name: &str) -> Output {
    Output::Backlight(BacklightOutput {
        name: name.to_string(),
        path: "/sys/class/backlight/acpi_video0".to_string(),
        capturer: Capturer::Absent,
        min_brightness: 1,
        predictor: Predictor::Adaptive,
    })
}

fn monitor(name: &str) -> Output {
    Output::DdcUtil(DdcUtilOutput {
        name: name.to_string(),
        capturer: Capturer::Absent,
        min_brightness: 1,
        predictor: Predictor::Adaptive,
    })
}

#[test]
fn configuration_needs_an_output() {
    let error = validate(Config { als: Als::Absent, output: vec![] }).unwrap_err();
    assert_eq!(ConfigError::NoOutput, error);
    assert_eq!("No output or keyboard configured", error.message());

    let mut file = file_config();
    file.output.backlight.clear();
    file.output.ddcutil.clear();
    file.keyboard.clear();
    assert_eq!(ConfigError::NoOutput, load(file).unwrap_err());
}

#[test]
fn configuration_needs_unique_names() {
    let error = validate(Config {
        als: Als::Absent,
        output: vec![backlight("a"), monitor("b"), backlight("c"), monitor("b")],
    })
    .unwrap_err();
    assert_eq!(ConfigError::DuplicateName, error);
    assert_eq!("Names of all outputs and keyboards are not unique", error.message());

    let valid = validate(Config {
        als: Als::Absent,
        output: vec![backlight("a"), monitor("b"), backlight("c"), monitor("B")],
    })
    .unwrap();
    assert_eq!(4, valid.output.len());
    assert_eq!(vec![backlight("a"), monitor("b"), backlight("c"), monitor("B")], valid.output);

    let mut file = file_config();
    file.keyboard[0].name = "eDP-1".to_string();
    assert_eq!(ConfigError::DuplicateName, load(file).unwrap_err());

    assert_eq!(3, load(file_config()).unwrap().output.len());
    assert!(!ConfigError::InvalidLux.message().is_empty());
    assert!(!ConfigError::InvalidLuma.message().is_empty());
}
