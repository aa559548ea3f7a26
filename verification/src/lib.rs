//! A verified CHIP-8 virtual machine core: a fixed instruction set over a
//! 4 KiB byte store, a 16-register file, a call stack and a monochrome
//! framebuffer.  The host drives it by loading a program once and then
//! running one fetch-decode-execute cycle per frame.

pub mod chip8;
pub mod cpu;
pub mod instr;
pub mod mem;
pub mod sprite;
