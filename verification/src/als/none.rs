use vstd::prelude::*;
use vstd::string::StringExecFns;

verus! {

/// The light source of a device without one.
#[derive(Debug, Default, PartialEq, Eq, Clone, Copy)]
pub struct Als {}

impl Als {
    /// The one label of this source, `none`.
    pub fn get(&self) -> (profile: String)
        ensures
            profile@ == "none"@,
    {
        String::from_str("none")
    }
}

} // verus!
