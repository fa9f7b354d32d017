use crate::predictor::data::Entry;
use std::collections::HashMap;
use vstd::prelude::*;
use vstd::string::StringExecFns;

verus! {

/// The protocols by which a compositor hands out frames.
#[derive(Debug, PartialEq, Eq, Clone, Copy, Structural)]
pub enum WaylandProtocol {
    Any,
    ExtImageCopyCaptureV1,
    WlrScreencopyUnstableV1,
    WlrExportDmabufUnstableV1,
}

impl WaylandProtocol {
    /// The name of the protocol.
    pub open spec fn spec_name(&self) -> Seq<char> {
        match self {
            WaylandProtocol::Any => "any"@,
            WaylandProtocol::ExtImageCopyCaptureV1 => "ext-image-copy-capture-v1"@,
            WaylandProtocol::WlrScreencopyUnstableV1 => "wlr-screencopy-unstable-v1"@,
            WaylandProtocol::WlrExportDmabufUnstableV1 => "wlr-export-dmabuf-unstable-v1"@,
        }
    }

    /// The name of the protocol, as it is written in the configuration.
    pub fn name(&self) -> (name: String)
        ensures
            name@ == self.spec_name(),
    {
        match self {
            WaylandProtocol::Any => String::from_str("any"),
            WaylandProtocol::ExtImageCopyCaptureV1 => String::from_str("ext-image-copy-capture-v1"),
            WaylandProtocol::WlrScreencopyUnstableV1 => String::from_str(
                "wlr-screencopy-unstable-v1",
            ),
            WaylandProtocol::WlrExportDmabufUnstableV1 => String::from_str(
                "wlr-export-dmabuf-unstable-v1",
            ),
        }
    }
}

/// How the screen of an output is captured.
#[derive(Debug, PartialEq, Eq, Clone, Copy, Structural)]
pub enum Capturer {
    Wayland(WaylandProtocol),
    Absent,
}

/// The light source, with its thresholds as numbers.
#[derive(Debug)]
pub enum Als {
    Iio { path: String, thresholds: HashMap<u64, String> },
    Time { thresholds: HashMap<u64, String> },
    Webcam { video: usize, sleep_ms: Option<u64>, thresholds: HashMap<u64, String> },
    Absent,
}

/// The predictor of an output. The table of the manual one holds an
/// entry for each lux label and screen lightness, with the percentage in
/// the place of the brightness.
#[derive(Debug, PartialEq, Eq)]
pub enum Predictor {
    Adaptive,
    Manual { thresholds: Vec<Entry> },
}

/// A screen or keyboard whose backlight is a directory of the file system.
#[derive(Debug, PartialEq, Eq)]
pub struct BacklightOutput {
    pub name: String,
    pub path: String,
    pub capturer: Capturer,
    pub min_brightness: u64,
    pub predictor: Predictor,
}

/// A monitor that is driven over DDC/CI.
#[derive(Debug, PartialEq, Eq)]
pub struct DdcUtilOutput {
    pub name: String,
    pub capturer: Capturer,
    pub min_brightness: u64,
    pub predictor: Predictor,
}

/// An output of either kind.
#[derive(Debug, PartialEq, Eq)]
pub enum Output {
    Backlight(BacklightOutput),
    DdcUtil(DdcUtilOutput),
}

impl Output {
    /// The name of the output.
    pub open spec fn spec_name(&self) -> Seq<char> {
        match self {
            Output::Backlight(output) => output.name@,
            Output::DdcUtil(output) => output.name@,
        }
    }

    /// The name of the output.
    pub fn name(&self) -> (name: &String)
        ensures
            name@ == self.spec_name(),
    {
        match self {
            Output::Backlight(output) => &output.name,
            Output::DdcUtil(output) => &output.name,
        }
    }
}

/// The configuration that the daemon runs on.
#[derive(Debug)]
pub struct Config {
    pub als: Als,
    pub output: Vec<Output>,
}

} // verus!
