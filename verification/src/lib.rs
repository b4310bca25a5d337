//! A verified interpreter core for the classic CHIP-8 fantasy console: the
//! machine state, the fetch-decode-execute cycle and the exact semantics of
//! all thirty-five instructions, with the display, keypad and timers exposed
//! as plain values for a host front end to drive.

pub mod chip8;
pub mod laws;
pub mod state;
