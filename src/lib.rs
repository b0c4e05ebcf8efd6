//! Keyboard click sounds: key edge detection, clip bank filtering and
//! deterministic clip selection.

pub mod bank;
pub mod error;
pub mod select;
pub mod tracker;
