//! The core of a reverse-Polish-notation calculator.
//!
//! The calculator keeps a stack of IEEE-754 doubles, held as bit patterns,
//! and a linear undo and redo history of whole stacks. A completed input
//! line is a number to push or a word of a fixed vocabulary. The library
//! decides which, carries the command out, and proves what that does to the
//! stack and the histories. It has no floating-point arithmetic of its own:
//! sign changes and the factorial it does on the bit patterns in integer
//! arithmetic, and for every other operator it asks its caller.

pub mod calculator;
pub mod command;
pub mod double;
pub mod editor;
pub mod factorial;
pub mod laws;
pub mod literal;
pub mod state;
