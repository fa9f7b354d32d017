//! Adaptive backlight control: the decisions of a daemon that learns which
//! brightness a user prefers for a given ambient light and screen content,
//! and reproduces it.
//!
//! Every function here is pure or works on plain values; reading sensors,
//! capturing frames and driving actuators is left to the caller.

pub mod als;
pub mod brightness;
pub mod config;
pub mod frame;
pub mod predictor;
pub mod text;
