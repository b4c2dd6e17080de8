//! What the machine shows to, and takes from, the host that embeds it: the
//! rectangles to paint for a framebuffer and the key that a keyboard key
//! stands for.

pub mod display_driver;
pub mod input_driver;
