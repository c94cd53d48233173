//! A verified CHIP-8 virtual machine core: CPU state, memory, a 64x32
//! monochrome framebuffer, timers and keyboard state, executing one
//! fetch-decode-execute cycle at a time against a mathematical model of
//! the instruction set.

pub mod framebuffer;
pub mod model;
pub mod vm;
pub mod laws;
