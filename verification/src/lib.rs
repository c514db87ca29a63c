//! Bit-banged SWD and JTAG engine for the YBLINK probe (HPM5301 FGPIO).
//!
//! The library decides every register access the probe makes and records it as a
//! [`program::PinOp`] in the probe's pending program; the firmware around it performs
//! those accesses on the FGPIO block and hands sampled input registers back.
pub mod pins;
pub mod protocol;
pub mod spin;
pub mod program;
pub mod probe;
pub mod transfer;
pub mod laws;
