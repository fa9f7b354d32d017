use crate::text::equal;
use vstd::prelude::*;

verus! {

/// Whether a device of this name is an ambient light sensor.
pub open spec fn spec_is_light_sensor(name: Seq<char>) -> bool {
    name == "als"@ || name == "acpi-als"@ || name == "apds9960"@
}

/// Whether a device of this name is an ambient light sensor: one of
/// `als`, `acpi-als` and `apds9960`.
pub fn is_light_sensor(name: &str) -> (known: bool)
    ensures
        known == spec_is_light_sensor(name@),
{
    equal(name, "als") || equal(name, "acpi-als") || equal(name, "apds9960")
}

/// The weighted sum of the three colours, in hundred-thousandths: the
/// weights are -0.32466, 1.57837 and -0.73191.
pub open spec fn spec_intensity_sum(red: u64, green: u64, blue: u64) -> int {
    -32466 * red + 157837 * green - 73191 * blue
}

/// The illuminance that a colour sensor's three readings stand for: their
/// weighted sum, rounded down, nothing where it is negative, and the
/// greatest `u64` where it is too much for one.
pub open spec fn spec_intensity(red: u64, green: u64, blue: u64) -> u64 {
    let sum = spec_intensity_sum(red, green, blue);
    if sum < 0 {
        0
    } else if sum / 100000 > u64::MAX {
        u64::MAX
    } else {
        (sum / 100000) as u64
    }
}

/// The illuminance that a colour sensor's three readings stand for.
pub fn intensity(red: u64, green: u64, blue: u64) -> (lux: u64)
    ensures
        lux == spec_intensity(red, green, blue),
{
    let gain: u128 = 157837 * (green as u128);
    let loss: u128 = 32466 * (red as u128) + 73191 * (blue as u128);
    if gain < loss {
        0
    } else {
        let lux: u128 = (gain - loss) / 100000;
        if lux > u64::MAX as u128 {
            u64::MAX
        } else {
            lux as u64
        }
    }
}

} // verus!
