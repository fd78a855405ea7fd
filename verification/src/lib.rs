//! Bring-up of the memory-related controllers of a SAM E70 class
//! microcontroller.
//!
//! Everything here works on plain register values: the functions compute
//! which words and fields have to be written, and in which order, and the
//! caller carries the operations out on the hardware.

pub mod ebi;
pub mod field;
pub mod mpu;
pub mod sdram;
pub mod smc;
pub mod time;
