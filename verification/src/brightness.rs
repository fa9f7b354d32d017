//! The brightness side of the loop: transition targets, the per-tick
//! decisions of the controller, and what an actuator accepts.

pub mod backlight;
pub mod controller;
pub mod ddcutil;

pub use backlight::Backlight;
pub use controller::Controller;
pub use ddcutil::DdcUtil;

use vstd::prelude::*;

verus! {

/// The value within `[min, max]` that is nearest to `value`.
pub open spec fn spec_clamp(value: u64, min: u64, max: u64) -> u64 {
    if value < min {
        min
    } else if value > max {
        max
    } else {
        value
    }
}

/// The value within `[min, max]` that is nearest to `value`.
pub fn clamp(value: u64, min: u64, max: u64) -> (clamped: u64)
    requires
        min <= max,
    ensures
        clamped == spec_clamp(value, min, max),
        min <= clamped <= max,
{
    if value < min {
        min
    } else if value > max {
        max
    } else {
        value
    }
}

/// An actuator of either kind.
#[derive(Debug, PartialEq, Eq, Clone, Copy, Structural)]
pub enum Brightness {
    DdcUtil(DdcUtil),
    Backlight(Backlight),
}

impl Brightness {
    /// The least value that the actuator is given.
    pub open spec fn spec_min_brightness(&self) -> u64 {
        match self {
            Brightness::DdcUtil(monitor) => monitor.min_brightness,
            Brightness::Backlight(backlight) => backlight.min_brightness,
        }
    }

    /// The greatest value that the actuator is given.
    pub open spec fn spec_max_brightness(&self) -> u64 {
        match self {
            Brightness::DdcUtil(monitor) => monitor.max_brightness,
            Brightness::Backlight(backlight) => backlight.max_brightness,
        }
    }

    /// The value that the actuator is given for a request of `value`: the
    /// nearest within its limits.
    pub fn set(&self, value: u64) -> (written: u64)
        requires
            self.spec_min_brightness() <= self.spec_max_brightness(),
        ensures
            written == spec_clamp(value, self.spec_min_brightness(), self.spec_max_brightness()),
            self.spec_min_brightness() <= written <= self.spec_max_brightness(),
    {
        match self {
            Brightness::DdcUtil(monitor) => clamp(
                value,
                monitor.min_brightness,
                monitor.max_brightness,
            ),
            Brightness::Backlight(backlight) => clamp(
                value,
                backlight.min_brightness,
                backlight.max_brightness,
            ),
        }
    }
}

} // verus!
