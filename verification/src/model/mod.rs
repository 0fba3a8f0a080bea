//! The geometry entities of a drawing.

pub mod circle;
pub mod line;
pub mod outline;
pub mod text;
