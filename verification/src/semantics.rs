//! What a program means: the machine's state and its one-instruction
//! transition, as mathematics. The executable machine is held to this.

use vstd::prelude::*;
use crate::instruction::{ByteCode, Fault, Output, Status};
use crate::stack::relocate;
use crate::value::{fits, quotient, Data, ANONYMOUS};

verus! {

/// Everything a run consists of at one moment.
pub struct State {
    /// The program, as patched so far.
    pub program: Seq<ByteCode>,
    /// The slots, bottom first.
    pub stack: Seq<Data>,
    /// The index of the instruction to fetch next.
    pub pc: nat,
    /// The threshold register.
    pub threshold: isize,
    /// What has been printed so far.
    pub output: Seq<Output>,
    /// Whether the run goes on.
    pub status: Status,
}

/// The state in which every run of `program` begins.
pub open spec fn start(program: Seq<ByteCode>) -> State {
    State {
        program,
        stack: Seq::empty(),
        pc: 0,
        threshold: 0,
        output: Seq::empty(),
        status: Status::Running,
    }
}

/// How many slots an instruction needs to find on the stack.
pub open spec fn demand(instruction: ByteCode) -> nat {
    match instruction {
        ByteCode::LOAD_VAL(_) | ByteCode::READ_VAR(_) | ByteCode::TO(_) => 0,
        ByteCode::ADD | ByteCode::MULTIPLY | ByteCode::SUBTRACT | ByteCode::DIVIDE => 2,
        ByteCode::WRITE_VAR(_)
        | ByteCode::RETURN_VALUE
        | ByteCode::GOTO(_)
        | ByteCode::PRINT(_)
        | ByteCode::PRINTLN => 1,
    }
}

/// The anonymous slot holding `amount`, or the fault of an amount that no slot
/// can hold.
pub open spec fn slot(amount: int) -> Result<Data, Fault> {
    if fits(amount) {
        Ok(Data { var: ANONYMOUS, val: amount as isize })
    } else {
        Err(Fault::Overflow)
    }
}

/// What an arithmetic instruction makes of `upper`, the top slot, and `lower`,
/// the slot under it. Operands were pushed in source order, so the lower slot
/// is the left one: `SUBTRACT` and `DIVIDE` take the upper from it.
pub open spec fn combine(op: ByteCode, upper: Data, lower: Data) -> Result<Data, Fault> {
    match op {
        ByteCode::ADD => slot(upper.val + lower.val),
        ByteCode::MULTIPLY => slot(upper.val * lower.val),
        ByteCode::SUBTRACT => slot(lower.val - upper.val),
        _ => if upper.val == 0 {
            Err(Fault::DivideByZero)
        } else {
            slot(quotient(lower.val as int, upper.val as int))
        },
    }
}

/// The state that follows the running state `s`, or the fault that the
/// instruction at its program counter ends in. The program counter moves on
/// before the instruction takes effect, so a jump target is an absolute index.
/// Past the end of the program the run ends as if by `RETURN_VALUE`.
pub open spec fn effect(s: State) -> Result<State, Fault> {
    let fetched = s.pc < s.program.len();
    let instruction = if fetched {
        s.program[s.pc as int]
    } else {
        ByteCode::RETURN_VALUE
    };
    let next = if fetched {
        State { pc: s.pc + 1, ..s }
    } else {
        s
    };
    if s.stack.len() < demand(instruction) {
        Err(Fault::StackUnderflow)
    } else {
        let top = s.stack.last();
        let rest = s.stack.drop_last();
        match instruction {
            ByteCode::LOAD_VAL(val) => Ok(
                State { stack: s.stack.push(Data { var: ANONYMOUS, val }), ..next },
            ),
            ByteCode::WRITE_VAR(var) => Ok(
                State { stack: rest.push(Data { var, val: top.val }), ..next },
            ),
            ByteCode::READ_VAR(var) => Ok(State { stack: relocate(s.stack, var), ..next }),
            ByteCode::ADD | ByteCode::MULTIPLY | ByteCode::SUBTRACT | ByteCode::DIVIDE => {
                match combine(instruction, top, rest.last()) {
                    Ok(result) => Ok(State { stack: rest.drop_last().push(result), ..next }),
                    Err(fault) => Err(fault),
                }
            },
            ByteCode::RETURN_VALUE => Ok(
                State { stack: rest, status: Status::Returned(top.val), ..next },
            ),
            ByteCode::TO(val) => Ok(State { threshold: val, ..next }),
            ByteCode::GOTO(target) => if top.val == s.threshold {
                Ok(next)
            } else if target >= s.program.len() {
                Err(Fault::IndexOutOfRange)
            } else {
                Ok(
                    State {
                        pc: target as nat,
                        program: s.program.update(target as int, ByteCode::LOAD_VAL(top.val)),
                        ..next
                    },
                )
            },
            ByteCode::PRINT(separator) => Ok(
                State { output: s.output.push(Output::Print(top.val, separator)), ..next },
            ),
            ByteCode::PRINTLN => Ok(
                State { output: s.output.push(Output::Println(top.val)), ..next },
            ),
        }
    }
}

/// One transition. A state that has returned or faulted stays as it is; a
/// fault leaves everything but the status as it was.
pub open spec fn step(s: State) -> State {
    if s.status != Status::Running {
        s
    } else {
        match effect(s) {
            Ok(next) => next,
            Err(fault) => State { status: Status::Faulted(fault), ..s },
        }
    }
}

/// `steps` transitions in a row.
pub open spec fn run(s: State, steps: nat) -> State
    decreases steps,
{
    if steps == 0 {
        s
    } else {
        run(step(s), (steps - 1) as nat)
    }
}

/// Whether a run of `program` has ended once `steps` transitions are made.
pub open spec fn halts_within(program: Seq<ByteCode>, steps: nat) -> bool {
    run(start(program), steps).status != Status::Running
}

/// Whether a run of `program` ends at all.
pub open spec fn halts(program: Seq<ByteCode>) -> bool {
    exists|steps: nat| halts_within(program, steps)
}

/// The state in which the run of a program that halts ends.
pub open spec fn outcome(program: Seq<ByteCode>) -> State {
    run(start(program), choose|steps: nat| halts_within(program, steps))
}

/// Transitions add up.
pub proof fn lemma_run_split(s: State, first: nat, second: nat)
    ensures
        run(s, first + second) == run(run(s, first), second),
    decreases first,
{
    if first > 0 {
        lemma_run_split(step(s), (first - 1) as nat, second);
    }
}

/// One more transition is a step from where the run stood.
pub proof fn lemma_run_next(s: State, steps: nat)
    ensures
        run(s, steps + 1) == step(run(s, steps)),
{
    lemma_run_split(s, steps, 1);
    reveal_with_fuel(run, 2);
}

/// A state that has returned or faulted never changes again.
pub proof fn lemma_run_ended(s: State, steps: nat)
    requires
        s.status != Status::Running,
    ensures
        run(s, steps) == s,
    decreases steps,
{
    if steps > 0 {
        lemma_run_ended(s, (steps - 1) as nat);
    }
}

/// Whatever number of transitions ends the run, the end is the same state.
pub proof fn lemma_outcome(program: Seq<ByteCode>, steps: nat)
    requires
        halts_within(program, steps),
    ensures
        run(start(program), steps) == outcome(program),
{
    let chosen = choose|n: nat| halts_within(program, n);
    let s = start(program);
    if steps <= chosen {
        lemma_run_split(s, steps, (chosen - steps) as nat);
        lemma_run_ended(run(s, steps), (chosen - steps) as nat);
    } else {
        lemma_run_split(s, chosen, (steps - chosen) as nat);
        lemma_run_ended(run(s, chosen), (steps - chosen) as nat);
    }
}

} // verus!
