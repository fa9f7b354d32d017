use crate::brightness::spec_clamp;
use crate::brightness::clamp;
use crate::text::{contains, spec_contains};
use vstd::prelude::*;
use vstd::string::StringExecFns;

verus! {

/// The code of the brightness feature of a monitor.
pub const DDC_BRIGHTNESS_FEATURE: u8 = 0x10;

/// What a monitor says of itself, and whether its capabilities could be read.
pub struct Display {
    pub model_name: Option<String>,
    pub serial_number: Option<String>,
    pub manufacturer_id: Option<String>,
    pub has_capabilities: bool,
}

/// The text of an optional field; nothing where it is missing.
pub open spec fn spec_field(field: Option<String>) -> Seq<char> {
    match field {
        Some(text) => text@,
        None => Seq::empty(),
    }
}

impl Display {
    /// Model, serial number and manufacturer, each followed by the next
    /// after one space; a missing one counts as empty.
    pub open spec fn spec_merged_name(&self) -> Seq<char> {
        spec_field(self.model_name) + seq![' '] + spec_field(self.serial_number) + seq![' ']
            + spec_field(self.manufacturer_id)
    }

    /// The name by which a monitor is matched against the configuration.
    pub fn merged_name(&self) -> (merged: String)
        ensures
            merged@ == self.spec_merged_name(),
    {
        proof {
            reveal_strlit(" ");
            reveal_strlit("");
            assert(" "@ =~= seq![' ']);
            assert(""@ =~= Seq::<char>::empty());
        }
        let mut merged = String::from_str("");
        if let Some(model) = &self.model_name {
            merged.append(model.as_str());
        }
        merged.append(" ");
        if let Some(serial) = &self.serial_number {
            merged.append(serial.as_str());
        }
        merged.append(" ");
        if let Some(manufacturer) = &self.manufacturer_id {
            merged.append(manufacturer.as_str());
        }
        assert(merged@ =~= self.spec_merged_name());
        merged
    }

    /// Whether this monitor is the one that the configuration calls `name`.
    pub open spec fn spec_matches(&self, name: Seq<char>, check_caps: bool) -> bool {
        (!check_caps || self.has_capabilities) && spec_contains(self.spec_merged_name(), name)
    }
}

/// Whether `found` is the first of `displays` that matches `name`, or
/// none where none does.
pub open spec fn spec_is_first_match(
    displays: Seq<Display>,
    name: Seq<char>,
    check_caps: bool,
    found: Option<usize>,
) -> bool {
    match found {
        Some(index) => {
            &&& index < displays.len()
            &&& displays[index as int].spec_matches(name, check_caps)
            &&& forall|earlier: int|
                0 <= earlier < index ==> !(#[trigger] displays[earlier]).spec_matches(
                    name,
                    check_caps,
                )
        },
        None => forall|index: int|
            0 <= index < displays.len() ==> !(#[trigger] displays[index]).spec_matches(
                name,
                check_caps,
            ),
    }
}

/// The first of `displays` whose merged name contains `name`; with
/// `check_caps`, monitors whose capabilities could not be read are passed
/// over.
pub fn find_display_by_name(displays: &Vec<Display>, name: &str, check_caps: bool) -> (found:
    Option<usize>)
    ensures
        spec_is_first_match(displays@, name@, check_caps, found),
{
    let mut index: usize = 0;
    while index < displays.len()
        invariant
            index <= displays@.len(),
            forall|earlier: int|
                0 <= earlier < index ==> !(#[trigger] displays@[earlier]).spec_matches(
                    name@,
                    check_caps,
                ),
        decreases displays@.len() - index,
    {
        let display = &displays[index];
        if !check_caps || display.has_capabilities {
            let merged = display.merged_name();
            if contains(merged.as_str(), name) {
                return Some(index);
            }
        }
        index += 1;
    }
    None
}

/// A monitor that is driven over DDC/CI, with the limits of its brightness.
#[derive(Debug, PartialEq, Eq, Clone, Copy, Structural)]
pub struct DdcUtil {
    pub min_brightness: u64,
    pub max_brightness: u64,
}

impl DdcUtil {
    /// The monitor among `displays` that the configuration calls `name`:
    /// the first match among those whose capabilities could be read, and
    /// failing that the first match among all.
    pub fn select(displays: &Vec<Display>, name: &str) -> (found: Option<usize>)
        ensures
            spec_is_first_match(displays@, name@, true, found) || (spec_is_first_match(
                displays@,
                name@,
                true,
                None,
            ) && spec_is_first_match(displays@, name@, false, found)),
            found is Some || spec_is_first_match(displays@, name@, false, None),
    {
        match find_display_by_name(displays, name, true) {
            Some(index) => Some(index),
            None => find_display_by_name(displays, name, false),
        }
    }

    /// A monitor whose brightness feature reports `max_brightness` as its
    /// maximum.
    pub fn new(min_brightness: u64, max_brightness: u64) -> (monitor: Self)
        ensures
            monitor.min_brightness == min_brightness,
            monitor.max_brightness == max_brightness,
    {
        Self { min_brightness, max_brightness }
    }

    /// The value that is written for a request of `value`: the nearest
    /// within the limits.
    pub fn set(&self, value: u64) -> (written: u64)
        requires
            self.min_brightness <= self.max_brightness,
        ensures
            written == spec_clamp(value, self.min_brightness, self.max_brightness),
            self.min_brightness <= written <= self.max_brightness,
    {
        clamp(value, self.min_brightness, self.max_brightness)
    }
}

} // verus!
