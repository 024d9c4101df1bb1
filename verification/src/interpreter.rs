//! Whole runs: a program in, its yield and its output out.

use vstd::prelude::*;
use crate::instruction::{ByteCode, Fault, Output, Status};
use crate::machine::Machine;
use crate::semantics::{
    halts, halts_within, lemma_outcome, lemma_run_ended, lemma_run_next, lemma_run_split, outcome,
    run, start, State,
};

verus! {

/// What a finished run leaves behind.
#[derive(Debug)]
pub struct Execution {
    /// The amount that the run yielded, or why it was aborted.
    pub result: Result<isize, Fault>,
    /// What the run printed, in order.
    pub output: Vec<Output>,
}

impl Execution {
    /// Whether this is what a run that ended in state `end` leaves behind.
    pub open spec fn reports(&self, end: State) -> bool {
        &&& self.output@ == end.output
        &&& match self.result {
            Ok(amount) => end.status == Status::Returned(amount),
            Err(fault) => end.status == Status::Faulted(fault),
        }
    }
}

/// What a machine that has ended its run leaves behind.
fn conclude(machine: Machine) -> (r: Option<Execution>)
    ensures
        machine.status is Running <==> r is None,
        r matches Some(execution) ==> forall|program: Seq<ByteCode>|
            execution.reports(#[trigger] machine.state(program)),
{
    match machine.status {
        Status::Running => None,
        Status::Returned(amount) => Some(Execution { result: Ok(amount), output: machine.output }),
        Status::Faulted(fault) => Some(Execution { result: Err(fault), output: machine.output }),
    }
}

/// Runs `bytecodes` from the start until the run ends, and says how it ended.
/// The program is left as the run patched it.
///
/// The run must end: on a program that loops for ever there is nothing to
/// return. `interpret_within` takes any program.
pub fn interpret(bytecodes: &mut Vec<ByteCode>) -> (r: Execution)
    requires
        halts(old(bytecodes)@),
    ensures
        r.reports(outcome(old(bytecodes)@)),
        final(bytecodes)@ == outcome(old(bytecodes)@).program,
{
    let ghost begin = start(bytecodes@);
    let ghost total = choose|steps: nat| halts_within(old(bytecodes)@, steps);
    let ghost mut done: nat = 0;
    let mut machine = Machine::new();
    while matches!(machine.status, Status::Running)
        invariant
            begin == start(old(bytecodes)@),
            machine.state(bytecodes@) == run(begin, done),
            run(begin, total).status != Status::Running,
            run(begin, total) == outcome(old(bytecodes)@),
            done <= total,
        decreases total - done,
    {
        proof {
            lemma_run_next(begin, done);
            done = done + 1;
        }
        machine.step(bytecodes);
    }
    proof {
        lemma_outcome(old(bytecodes)@, done);
    }
    conclude(machine).unwrap()
}

/// Runs `bytecodes` from the start for at most `limit` transitions. Returns
/// how the run ended, or `None` where it has not ended by then. Either way the
/// program is left as these transitions patched it.
pub fn interpret_within(bytecodes: &mut Vec<ByteCode>, limit: usize) -> (r: Option<Execution>)
    ensures
        r is Some <==> halts_within(old(bytecodes)@, limit as nat),
        r matches Some(execution) ==> execution.reports(outcome(old(bytecodes)@)),
        final(bytecodes)@ == run(start(old(bytecodes)@), limit as nat).program,
{
    let ghost begin = start(bytecodes@);
    let mut machine = Machine::new();
    let mut done: usize = 0;
    while done < limit && matches!(machine.status, Status::Running)
        invariant
            begin == start(old(bytecodes)@),
            machine.state(bytecodes@) == run(begin, done as nat),
            done <= limit,
        decreases limit - done,
    {
        proof {
            lemma_run_next(begin, done as nat);
        }
        machine.step(bytecodes);
        done += 1;
    }
    proof {
        if !(machine.status is Running) {
            lemma_run_split(begin, done as nat, (limit - done) as nat);
            lemma_run_ended(run(begin, done as nat), (limit - done) as nat);
        }
        if halts_within(old(bytecodes)@, limit as nat) {
            lemma_outcome(old(bytecodes)@, limit as nat);
        }
    }
    conclude(machine)
}

} // verus!
