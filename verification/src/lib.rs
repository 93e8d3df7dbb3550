//! A CHIP-8 virtual machine: memory, registers, call stack, framebuffer,
//! keypad and timers, with the meaning of every instruction stated over a
//! mathematical model of the machine and proved of the code that runs it.

pub mod emu;
pub mod fault;
pub mod instruction;
pub mod keymap;
pub mod laws;
pub mod machine;
mod random;
pub mod screen;

pub use emu::Emu;
pub use fault::{Fault, Rejection};
pub use instruction::{decode, Instruction};
pub use keymap::{key2btn, map_key};
pub use machine::{
    FLAG, FONT_SIZE, KEY_COUNT, MEM_SIZE, REG_COUNT, SCREEN_H, SCREEN_SIZE, SCREEN_W, STACK_SIZE,
    START_ADDR,
};
pub use screen::pixel_position;
