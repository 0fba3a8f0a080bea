//! Camera, vertices, the state of the user interface and what a frame
//! does to the session.

pub mod camera;
pub mod gui_elements;
pub mod renderer;
pub mod vertex;
