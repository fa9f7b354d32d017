use crate::als::cmd::spec_latest;
use crate::als::{find_profile, spec_is_profile};
use crate::frame::lightness::{
    MAX_PIXELS,
    compute_perceived_lightness_percent,
    spec_lightness_percent,
};
use std::collections::HashMap;
use vstd::prelude::*;

verus! {

/// The lux value that stands until the camera has brought one.
pub const DEFAULT_LUX: u64 = 100;

/// The pause between two frames, in milliseconds.
pub const WAITING_SLEEP_MS: u64 = 2000;

/// Whether the frame size `first` comes before `second`: by height, and
/// by width where that is the same.
pub open spec fn spec_smaller(first: (u32, u32), second: (u32, u32)) -> bool {
    first.1 < second.1 || (first.1 == second.1 && first.0 < second.0)
}

/// The camera that serves as a light sensor.
pub struct Webcam {
    pub video: usize,
}

impl Webcam {
    /// The camera behind the video device of this number.
    pub fn new(video: usize) -> (webcam: Self)
        ensures
            webcam.video == video,
    {
        Self { video }
    }

    /// The smallest of the frame sizes `sizes`, each a width and a height:
    /// the one of the least height, and among those the one of the least
    /// width.
    pub fn setup(sizes: &Vec<(u32, u32)>) -> (smallest: Option<(u32, u32)>)
        ensures
            sizes@.len() == 0 <==> smallest is None,
            smallest matches Some(size) ==> sizes@.contains(size) && forall|index: int|
                0 <= index < sizes@.len() ==> !spec_smaller(#[trigger] sizes@[index], size),
    {
        if sizes.len() == 0 {
            return None;
        }
        let mut smallest = sizes[0];
        let mut index: usize = 1;
        while index < sizes.len()
            invariant
                1 <= index <= sizes@.len(),
                sizes@.contains(smallest),
                forall|seen: int|
                    0 <= seen < index ==> !spec_smaller(#[trigger] sizes@[seen], smallest),
            decreases sizes@.len() - index,
        {
            let size = sizes[index];
            if size.1 < smallest.1 || (size.1 == smallest.1 && size.0 < smallest.0) {
                smallest = size;
            }
            index += 1;
        }
        Some(smallest)
    }

    /// The lux value of a frame of `pixels` pixels of three bytes: its
    /// perceived lightness. A frame without a pixel, with more pixels than
    /// the lightness is computed for, or with fewer bytes than its pixels
    /// need, brings none.
    pub fn step(&self, rgbs: &[u8], pixels: usize) -> (lux: Option<u64>)
        ensures
            pixels == 0 || pixels > MAX_PIXELS || rgbs@.len() < 3 * pixels <==> lux is None,
            lux matches Some(percent) ==> percent <= 100 && spec_lightness_percent(
                rgbs@,
                false,
                pixels as nat,
                percent as int,
            ),
    {
        if pixels == 0 || pixels > MAX_PIXELS || rgbs.len() / 3 < pixels {
            return None;
        }
        Some(compute_perceived_lightness_percent(rgbs, false, pixels) as u64)
    }
}

/// The light source that is fed by the camera.
pub struct Als {
    pub thresholds: HashMap<u64, String>,
    /// The last raw value known.
    pub lux: u64,
}

impl Als {
    /// A source that knows `DEFAULT_LUX` until the camera brings a value.
    pub fn new(thresholds: HashMap<u64, String>) -> (source: Self)
        ensures
            source.thresholds == thresholds,
            source.lux == DEFAULT_LUX,
    {
        Self { thresholds, lux: DEFAULT_LUX }
    }

    /// The raw value after the newest of the camera's values, if one
    /// arrived: that one, and the last one known where none came.
    pub fn get_raw(&mut self, arrived: Option<u64>) -> (raw: u64)
        ensures
            raw == (match arrived {
                Some(value) => value,
                None => old(self).lux,
            }),
            final(self).lux == raw,
            final(self).thresholds == old(self).thresholds,
    {
        if let Some(value) = arrived {
            self.lux = value;
        }
        self.lux
    }

    /// The label under which the raw value falls.
    pub fn get(&mut self, arrived: Option<u64>) -> (profile: String)
        requires
            old(self).thresholds@.len() > 0,
        ensures
            spec_is_profile(final(self).lux, old(self).thresholds@, profile@),
            final(self).lux == (match arrived {
                Some(value) => value,
                None => old(self).lux,
            }),
            final(self).thresholds == old(self).thresholds,
    {
        let raw = self.get_raw(arrived);
        find_profile(raw, &self.thresholds)
    }
}

} // verus!
