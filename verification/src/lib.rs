//! A simulator core for an extended Little Man Computer: an assembler that
//! turns source text into a memory image, and a virtual machine that runs the
//! image one cycle at a time.
//!
//! Every executable function here carries a contract over a mathematical model
//! of its data, and Verus proves the body against it.

use vstd::prelude::*;

pub mod assembly;
pub mod listing;
pub mod parser;
pub mod text;
pub mod vm;

verus! {

/// The number of mailboxes of the machine. The assembler and the virtual
/// machine share it: an operand below this value is an address, and one above
/// it and below twice it is a pointer.
pub const MEMORY_SIZE: usize = 100;

} // verus!
