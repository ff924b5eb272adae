//! A CHIP-8 virtual machine: memory, registers, call stack, timers, a 64x32
//! monochrome display and a single-key input latch, driven one instruction at
//! a time by a fetch-decode-execute engine whose every step is specified.

pub mod chip8;
pub mod connector;
pub mod cpu;
pub mod display;
pub mod input;
pub mod instruction;
pub mod memory;
