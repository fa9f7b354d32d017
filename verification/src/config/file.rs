use vstd::prelude::*;

verus! {

/// How the configuration file names the ways of capturing the screen.
#[derive(Debug, PartialEq, Eq, Clone, Copy, Structural)]
pub enum Capturer {
    Wlroots,
    Wayland,
    WlrExportDmabufUnstableV1,
    WlrScreencopyUnstableV1,
    ExtImageCopyCaptureV1,
    Absent,
}

impl Default for Capturer {
    fn default() -> (capturer: Self)
        ensures
            capturer == Capturer::Wayland,
    {
        Capturer::Wayland
    }
}

/// The light source, with its thresholds as the file writes them: a
/// number in text, and the label that starts there.
#[derive(Debug, PartialEq, Eq)]
pub enum Als {
    Iio { path: String, thresholds: Vec<(String, String)> },
    Time { thresholds: Vec<(String, String)> },
    Webcam { video: usize, sleep_ms: Option<u64>, thresholds: Vec<(String, String)> },
    Absent,
}

/// The outputs of the file, by kind.
#[derive(Debug, PartialEq, Eq)]
pub struct OutputByType {
    pub backlight: Vec<BacklightOutput>,
    pub ddcutil: Vec<DdcUtilOutput>,
}

/// The predictor of an output. The table of the manual one holds, for
/// each lux label, screen lightnesses in text and the percentage that
/// belongs to each.
#[derive(Debug, PartialEq, Eq)]
pub enum Predictor {
    Adaptive,
    Manual { thresholds: Vec<(String, Vec<(String, u64)>)> },
}

/// A screen whose backlight is a directory of the file system.
#[derive(Debug, PartialEq, Eq)]
pub struct BacklightOutput {
    pub name: String,
    pub path: String,
    pub capturer: Option<Capturer>,
    pub min_brightness: Option<u64>,
    pub predictor: Option<Predictor>,
}

/// A monitor that is driven over DDC/CI.
#[derive(Debug, PartialEq, Eq)]
pub struct DdcUtilOutput {
    pub name: String,
    pub capturer: Option<Capturer>,
    pub min_brightness: Option<u64>,
    pub predictor: Option<Predictor>,
}

/// A keyboard whose backlight is a directory of the file system.
#[derive(Debug, PartialEq, Eq)]
pub struct Keyboard {
    pub name: String,
    pub path: String,
}

/// The configuration as the file holds it.
#[derive(Debug, PartialEq, Eq)]
pub struct Config {
    pub als: Als,
    pub output: OutputByType,
    pub keyboard: Vec<Keyboard>,
}

} // verus!
