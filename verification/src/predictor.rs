//! The predictor: what it has learned, how it learns, and how it
//! interpolates.

pub mod controller;
pub mod data;
pub mod luma_only_controller;
pub mod natural;
