//! Drawings written as text.

pub mod compiler;
