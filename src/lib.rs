//! A CHIP-8 virtual machine: the instruction interpreter, its timers, its
//! keypad and its monochrome framebuffer, each stated and proved against a
//! mathematical model of the machine.

pub mod config;
pub mod keypad;
pub mod machine;
pub mod display;
pub mod cpu;
pub mod laws;
