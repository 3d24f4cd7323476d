//! A text console on a linear pixel buffer, and the trap table of the kernel
//! that prints to it.
pub mod font;
pub mod framebuffer;
mod geometry;
pub mod interrupts;
pub mod laws;
pub mod model;
