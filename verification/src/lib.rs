//! A verified CHIP-8 interpreter core.
//!
//! The interpreter state (memory, registers, call stack, display, keypad,
//! timers) lives in [`interp::Interpreter`]; each instruction's effect is
//! specified by the transition relation in that module and proved of the
//! executable step function. The host is expected to drive the interpreter
//! on a fixed tick cadence, feeding it logical key events and rendering the
//! display grid after each tick.

use vstd::prelude::*;

pub mod decode;
pub mod interp;
pub mod keypad;
pub mod laws;

verus! {

} // verus!
