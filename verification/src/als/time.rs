use crate::als::{find_profile, spec_is_profile};
use chrono::{Local, Timelike};
use std::collections::HashMap;
use vstd::prelude::*;

verus! {

/// `Timelike::hour` of `Local::now`: the hour of the day on the local
/// clock, from 0 to 23.
#[verifier::external_body]
fn local_hour() -> (hour: u32)
    ensures
        hour <= 23,
{
    Local::now().hour()
}

/// The light source that goes by the time of day.
pub struct Als {
    pub thresholds: HashMap<u64, String>,
}

impl Als {
    /// A source whose thresholds are hours of the day.
    pub fn new(thresholds: HashMap<u64, String>) -> (source: Self)
        ensures
            source.thresholds == thresholds,
    {
        Self { thresholds }
    }

    /// The label under which the hour `hour` falls.
    pub fn profile_at(&self, hour: u32) -> (profile: String)
        requires
            self.thresholds@.len() > 0,
        ensures
            spec_is_profile(hour as u64, self.thresholds@, profile@),
    {
        find_profile(hour as u64, &self.thresholds)
    }

    /// The label under which the present hour falls.
    pub fn get(&self) -> (profile: String)
        requires
            self.thresholds@.len() > 0,
        ensures
            exists|hour: u64| hour <= 23 && #[trigger] spec_is_profile(
                hour,
                self.thresholds@,
                profile@,
            ),
    {
        let hour = local_hour();
        let profile = self.profile_at(hour);
        assert(spec_is_profile(hour as u64, self.thresholds@, profile@));
        profile
    }
}

} // verus!
