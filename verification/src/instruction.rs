//! The closed instruction set, what a run can print, and how a run can fail.

use vstd::prelude::*;

verus! {

/// One instruction, with its immediate operand where it has one.
#[allow(non_camel_case_types)]
#[derive(Debug, Clone, Copy, PartialEq, Eq, Structural)]
pub enum ByteCode {
    /// Push an anonymous slot holding the operand.
    LOAD_VAL(isize),
    /// Rename the top slot to the operand.
    WRITE_VAR(char),
    /// Move the lowest slot named by the operand to the top.
    READ_VAR(char),
    /// Replace the two top slots by their sum.
    ADD,
    /// Replace the two top slots by their product.
    MULTIPLY,
    /// Replace the two top slots by the lower one less the upper one.
    SUBTRACT,
    /// Replace the two top slots by the lower one divided by the upper one.
    DIVIDE,
    /// Take the top slot off and end the run with its amount.
    RETURN_VALUE,
    /// Set the threshold register to the operand.
    TO(isize),
    /// Unless the top amount equals the threshold: jump to the operand, and
    /// overwrite the instruction there with a load of the top amount.
    GOTO(usize),
    /// Print the top amount, followed by the operand.
    PRINT(char),
    /// Print the top amount and end the line.
    PRINTLN,
}

/// Why a run was aborted.
#[derive(Debug, Clone, Copy, PartialEq, Eq, Structural)]
pub enum Fault {
    /// An instruction needed more slots than the stack held.
    StackUnderflow,
    /// A jump led outside the program.
    IndexOutOfRange,
    /// A division by zero.
    DivideByZero,
    /// An arithmetic result that no slot can hold.
    Overflow,
}

/// One piece of output, in the order in which the run produced it.
#[derive(Debug, Clone, Copy, PartialEq, Eq, Structural)]
pub enum Output {
    /// An amount followed by a separator, on the current line.
    Print(isize, char),
    /// An amount that ends the current line.
    Println(isize),
}

/// Where a run stands.
#[derive(Debug, Clone, Copy, PartialEq, Eq, Structural)]
pub enum Status {
    /// More instructions may follow.
    Running,
    /// The run has ended and yielded this amount.
    Returned(isize),
    /// The run was aborted.
    Faulted(Fault),
}

} // verus!
