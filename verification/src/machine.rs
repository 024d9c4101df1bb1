//! The executable machine: one instruction at a time, each step proved to be
//! the transition that the semantics give.

use vstd::prelude::*;
use crate::instruction::{ByteCode, Fault, Output, Status};
use crate::semantics::{combine, start, step, State};
use crate::stack::Stack;
use crate::value::Data;

verus! {

/// What an arithmetic instruction makes of the top slot and the slot under it.
pub fn compute(op: ByteCode, upper: Data, lower: Data) -> (r: Result<Data, Fault>)
    requires
        op is ADD || op is MULTIPLY || op is SUBTRACT || op is DIVIDE,
    ensures
        r == combine(op, upper, lower),
{
    match op {
        ByteCode::ADD => match upper.val.checked_add(lower.val) {
            Some(_) => Ok(upper + lower),
            None => Err(Fault::Overflow),
        },
        ByteCode::MULTIPLY => match upper.val.checked_mul(lower.val) {
            Some(_) => Ok(upper * lower),
            None => Err(Fault::Overflow),
        },
        ByteCode::SUBTRACT => match lower.val.checked_sub(upper.val) {
            Some(_) => Ok(lower - upper),
            None => Err(Fault::Overflow),
        },
        _ => if upper.val == 0 {
            Err(Fault::DivideByZero)
        } else {
            match lower.val.checked_div(upper.val) {
                Some(_) => Ok(lower / upper),
                None => Err(Fault::Overflow),
            }
        },
    }
}

/// A run in progress. The program is not part of it: whoever drives the
/// machine owns the program and lends it to each step.
#[derive(Debug)]
pub struct Machine {
    /// The slots.
    pub stack: Stack,
    /// The index of the instruction to fetch next.
    pub index: usize,
    /// The threshold register.
    pub to: isize,
    /// What has been printed so far.
    pub output: Vec<Output>,
    /// Whether the run goes on.
    pub status: Status,
}

impl Machine {
    /// The state that the machine is in when it runs `program`.
    pub open spec fn state(&self, program: Seq<ByteCode>) -> State {
        State {
            program,
            stack: self.stack@,
            pc: self.index as nat,
            threshold: self.to,
            output: self.output@,
            status: self.status,
        }
    }

    /// A machine at the start of a run.
    pub fn new() -> (m: Machine)
        ensures
            forall|program: Seq<ByteCode>| #[trigger] m.state(program) == start(program),
    {
        Machine {
            stack: Stack::new(),
            index: 0,
            to: 0,
            output: Vec::new(),
            status: Status::Running,
        }
    }

    /// Aborts the run.
    fn abort(&mut self, fault: Fault)
        ensures
            *final(self) == (Machine { status: Status::Faulted(fault), ..*old(self) }),
    {
        self.status = Status::Faulted(fault);
    }

    /// Makes one transition: fetches the instruction at the program counter
    /// and applies it, or ends the run past the end of the program. A machine
    /// that has returned or faulted is left as it is.
    pub fn step(&mut self, program: &mut Vec<ByteCode>)
        ensures
            final(self).state(final(program)@) == step(old(self).state(old(program)@)),
    {
        if !matches!(self.status, Status::Running) {
            return ;
        }
        let fetched = self.index < program.len();
        let instruction = if fetched {
            program[self.index]
        } else {
            ByteCode::RETURN_VALUE
        };
        let depth = self.stack.len();
        match instruction {
            ByteCode::LOAD_VAL(val) => {
                self.index += 1;
                self.stack.push(Data::anonymous(val));
            },
            ByteCode::READ_VAR(var) => {
                self.index += 1;
                self.stack.move_top(var);
            },
            ByteCode::TO(val) => {
                self.index += 1;
                self.to = val;
            },
            ByteCode::ADD | ByteCode::MULTIPLY | ByteCode::SUBTRACT | ByteCode::DIVIDE => {
                if depth < 2 {
                    self.abort(Fault::StackUnderflow);
                    return ;
                }
                let upper = self.stack.0[depth - 1];
                let lower = self.stack.0[depth - 2];
                match compute(instruction, upper, lower) {
                    Ok(result) => {
                        self.index += 1;
                        self.stack.pop();
                        self.stack.pop();
                        self.stack.push(result);
                    },
                    Err(fault) => {
                        self.abort(fault);
                    },
                }
            },
            ByteCode::WRITE_VAR(var) => {
                if depth < 1 {
                    self.abort(Fault::StackUnderflow);
                    return ;
                }
                self.index += 1;
                let data = self.stack.pop();
                self.stack.push(Data { var, val: data.val });
            },
            ByteCode::RETURN_VALUE => {
                if depth < 1 {
                    self.abort(Fault::StackUnderflow);
                    return ;
                }
                if fetched {
                    self.index += 1;
                }
                let data = self.stack.pop();
                self.status = Status::Returned(data.val);
            },
            ByteCode::GOTO(target) => {
                if depth < 1 {
                    self.abort(Fault::StackUnderflow);
                    return ;
                }
                let item = self.stack.peek();
                if item.val == self.to {
                    self.index += 1;
                } else if target >= program.len() {
                    self.abort(Fault::IndexOutOfRange);
                } else {
                    self.index = target;
                    program[target] = ByteCode::LOAD_VAL(item.val);
                }
            },
            ByteCode::PRINT(separator) => {
                if depth < 1 {
                    self.abort(Fault::StackUnderflow);
                    return ;
                }
                self.index += 1;
                self.output.push(Output::Print(self.stack.peek().val, separator));
            },
            ByteCode::PRINTLN => {
                if depth < 1 {
                    self.abort(Fault::StackUnderflow);
                    return ;
                }
                self.index += 1;
                self.output.push(Output::Println(self.stack.peek().val));
            },
        }
    }
}

} // verus!
