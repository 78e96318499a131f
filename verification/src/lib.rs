//! A small fixed-instruction-set virtual machine with a monochrome
//! framebuffer, a sixteen-key keypad and two countdown timers.
//!
//! The machine state, the fetch-decode-execute cycle and the framebuffer
//! operations are specified against a mathematical model of the machine and
//! verified. Rendering, audio output and the surrounding event loop live
//! outside this crate and talk to it through plain values.

pub mod cpu;
pub mod screen;
pub mod semantics;
pub mod timers;
pub mod laws;
