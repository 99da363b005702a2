//! An interpreter for the CHIP-8 virtual machine: memory, registers, call
//! stack, timers and the full instruction set, with a monochrome bitmap and a
//! sixteen-key keypad as its peripherals.

pub mod config;
pub mod cpu;
pub mod display;
pub mod emulator;
pub mod keypad;
pub mod machine;
pub mod sprite;
pub mod laws;
