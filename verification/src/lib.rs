//! A small interpreter for a stack language whose instructions are the
//! letters `a` to `z`, with a stepping debugger, verified with Verus.

pub mod command;
pub mod instruction;
pub mod interpreter;
pub mod jump;
pub mod report;
pub mod source;
pub mod stack;
pub mod text;
