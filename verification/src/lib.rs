//! The core of an interactive fractal renderer: the settings store and its
//! text format, the keyframe list, the kernel's resource and frame-counter
//! state, and the choice of a compute device.
//!
//! Real-valued settings are held as IEEE-754 bit patterns. Arithmetic on them,
//! their text form and every call into the graphics stack are the caller's:
//! they reach this crate as function arguments.
pub mod default_settings;
pub mod device;
pub mod display;
pub mod kernel;
pub mod keyframes;
pub mod lines;
pub mod settings;
pub mod text;
