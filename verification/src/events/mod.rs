//! Input events and their handling.

pub mod input;
