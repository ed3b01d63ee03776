//! Gesture notifications of a multi-touch input surface, the sequencing
//! protocol their phases obey, and the settings of a renderer.

pub mod font;
pub mod gesture;
pub mod graphics;
pub mod protocol;
pub mod settings;
pub mod tracker;
pub mod value;
