//! From a captured frame to one number: the plan of the mipmap reduction
//! and the perceived lightness of the pixels that it leaves.

pub mod capturer;
pub mod lightness;
pub mod object;
pub mod vulkan;

pub use lightness::compute_perceived_lightness_percent;
