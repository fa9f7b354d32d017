pub mod none;
pub mod wayland;

use vstd::prelude::*;

verus! {

/// The capturer of an output.
#[derive(Debug, PartialEq, Eq)]
pub enum Capturer {
    Absent(none::Capturer),
    Wayland(wayland::Capturer),
}

} // verus!
