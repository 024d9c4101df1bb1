//! What holds of every run, proved from the semantics.

use vstd::prelude::*;
use crate::instruction::{ByteCode, Fault, Output, Status};
use crate::interpreter::Execution;
use crate::semantics::{
    demand, halts, halts_within, lemma_outcome, lemma_run_split, outcome, run, start, step, State,
};
use crate::stack::{bound, lemma_lowest_at, relocate};
use crate::value::{fits, quotient, Data, ANONYMOUS};

verus! {

/// The program that loads `left`, loads `right`, applies `op` and returns.
pub open spec fn binary_program(op: ByteCode, left: isize, right: isize) -> Seq<ByteCode> {
    seq![ByteCode::LOAD_VAL(left), ByteCode::LOAD_VAL(right), op, ByteCode::RETURN_VALUE]
}

/// A program that loads two amounts, applies an arithmetic instruction whose
/// result a slot can hold, and returns, ends within four transitions, yields
/// `amount` and prints nothing.
proof fn lemma_binary_program(op: ByteCode, left: isize, right: isize, amount: isize)
    requires
        op is ADD || op is MULTIPLY || op is SUBTRACT || op is DIVIDE,
        crate::semantics::combine(
            op,
            Data { var: ANONYMOUS, val: right },
            Data { var: ANONYMOUS, val: left },
        ) == Ok::<Data, Fault>(Data { var: ANONYMOUS, val: amount }),
    ensures
        halts_within(binary_program(op, left, right), 4),
        outcome(binary_program(op, left, right)).status == Status::Returned(amount),
        outcome(binary_program(op, left, right)).output == Seq::<Output>::empty(),
{
    let program = binary_program(op, left, right);
    let s0 = start(program);
    let s1 = step(s0);
    let s2 = step(s1);
    let s3 = step(s2);
    let s4 = step(s3);
    let lower = Data { var: ANONYMOUS, val: left };
    let upper = Data { var: ANONYMOUS, val: right };
    assert(s1.stack =~= seq![lower]);
    assert(s1.pc == 1 && s1.status is Running && s1.program == program);
    assert(s2.stack =~= seq![lower, upper]);
    assert(s2.pc == 2 && s2.status is Running && s2.program == program);
    assert(s2.stack.drop_last().last() == lower);
    assert(s3.stack =~= seq![Data { var: ANONYMOUS, val: amount }]);
    assert(s3.pc == 3 && s3.status is Running && s3.program == program);
    assert(s4.status == Status::Returned(amount));
    assert(run(s0, 4) == s4) by {
        reveal_with_fuel(run, 5);
    }
    assert(halts_within(program, 4));
    lemma_outcome(program, 4);
}

/// Loading `a`, loading `b`, adding and returning yields `a + b`, for every
/// pair whose sum a slot can hold.
pub proof fn law_add_yields_sum(a: isize, b: isize)
    requires
        fits(a + b),
    ensures
        halts_within(binary_program(ByteCode::ADD, a, b), 4),
        outcome(binary_program(ByteCode::ADD, a, b)).status == Status::Returned((a + b) as isize),
{
    lemma_binary_program(ByteCode::ADD, a, b, (a + b) as isize);
}

/// Loading `a`, loading `b`, multiplying and returning yields `a * b`, for
/// every pair whose product a slot can hold.
pub proof fn law_multiply_yields_product(a: isize, b: isize)
    requires
        fits(a * b),
    ensures
        halts_within(binary_program(ByteCode::MULTIPLY, a, b), 4),
        outcome(binary_program(ByteCode::MULTIPLY, a, b)).status == Status::Returned(
            (a * b) as isize,
        ),
{
    assert(a * b == b * a) by (nonlinear_arith);
    lemma_binary_program(ByteCode::MULTIPLY, a, b, (a * b) as isize);
}

/// Subtraction keeps source order: loading `a`, loading `b`, subtracting and
/// returning yields `a - b`, not `b - a`.
pub proof fn law_subtract_keeps_source_order(a: isize, b: isize)
    requires
        fits(a - b),
    ensures
        halts_within(binary_program(ByteCode::SUBTRACT, a, b), 4),
        outcome(binary_program(ByteCode::SUBTRACT, a, b)).status == Status::Returned(
            (a - b) as isize,
        ),
{
    lemma_binary_program(ByteCode::SUBTRACT, a, b, (a - b) as isize);
}

/// Division keeps source order: loading `a`, loading `b`, dividing and
/// returning yields `a` divided by `b`, rounded towards zero.
pub proof fn law_divide_keeps_source_order(a: isize, b: isize)
    requires
        b != 0,
        fits(quotient(a as int, b as int)),
    ensures
        halts_within(binary_program(ByteCode::DIVIDE, a, b), 4),
        outcome(binary_program(ByteCode::DIVIDE, a, b)).status == Status::Returned(
            quotient(a as int, b as int) as isize,
        ),
{
    lemma_binary_program(ByteCode::DIVIDE, a, b, quotient(a as int, b as int) as isize);
}

/// Reading a name brings back the slot that was written under it, tag and
/// amount intact, whatever was pushed above it since, provided that no slot
/// below it carries the same name. Everything else keeps its order.
pub proof fn law_read_restores_written(below: Seq<Data>, written: Data, above: Seq<Data>)
    requires
        !bound(below, written.var),
    ensures
        relocate(below.push(written) + above, written.var) == (below + above).push(written),
{
    let slots = below.push(written) + above;
    let at = below.len() as int;
    assert forall|j: int| 0 <= j < at implies slots[j].var != written.var by {
        assert(slots[j] == below[j]);
    }
    assert(slots[at] == written);
    lemma_lowest_at(slots, written.var, at);
    assert(slots.remove(at).push(slots[at]) =~= (below + above).push(written));
}

/// The same on the machine: after `WRITE_VAR(var)` has renamed the top slot,
/// with no slot of that name below it, `READ_VAR(var)` in any later state
/// whose stack still holds those slots, under whatever was pushed since,
/// puts that slot on top with the amount it was written with.
pub proof fn law_write_then_read(writing: State, reading: State, var: char, above: Seq<Data>)
    requires
        writing.status is Running,
        writing.pc < writing.program.len(),
        writing.program[writing.pc as int] == ByteCode::WRITE_VAR(var),
        writing.stack.len() > 0,
        !bound(writing.stack.drop_last(), var),
        reading.status is Running,
        reading.pc < reading.program.len(),
        reading.program[reading.pc as int] == ByteCode::READ_VAR(var),
        reading.stack == step(writing).stack + above,
    ensures
        step(reading).status is Running,
        step(reading).stack == (writing.stack.drop_last() + above).push(
            Data { var, val: writing.stack.last().val },
        ),
{
    law_read_restores_written(
        writing.stack.drop_last(),
        Data { var, val: writing.stack.last().val },
        above,
    );
}

/// Reading a name that no slot carries changes nothing but the program
/// counter.
pub proof fn law_read_of_unbound_name(s: State, var: char)
    requires
        s.status is Running,
        s.pc < s.program.len(),
        s.program[s.pc as int] == ByteCode::READ_VAR(var),
        !bound(s.stack, var),
    ensures
        step(s) == (State { pc: s.pc + 1, ..s }),
{
    crate::stack::lemma_lowest(s.stack, var);
}

/// A run that has ended within some number of transitions has ended within
/// any greater number, and so ends.
pub proof fn law_ended_stays_ended(program: Seq<ByteCode>, steps: nat, more: nat)
    requires
        halts_within(program, steps),
        steps <= more,
    ensures
        halts_within(program, more),
        halts(program),
{
    lemma_outcome(program, steps);
    lemma_run_split(start(program), steps, (more - steps) as nat);
    crate::semantics::lemma_run_ended(run(start(program), steps), (more - steps) as nat);
}

/// Two runs of one program end alike, however many transitions each was
/// given beyond those it needed.
pub proof fn law_runs_repeat(program: Seq<ByteCode>, first: nat, second: nat)
    requires
        halts_within(program, first),
        halts_within(program, second),
    ensures
        run(start(program), first) == run(start(program), second),
{
    lemma_outcome(program, first);
    lemma_outcome(program, second);
}

/// What two runs of one program leave behind is the same yield, or the same
/// fault, and the same output.
pub proof fn law_executions_agree(program: Seq<ByteCode>, first: Execution, second: Execution)
    requires
        first.reports(outcome(program)),
        second.reports(outcome(program)),
    ensures
        first.result == second.result,
        first.output@ == second.output@,
{
}

/// An instruction that finds fewer slots than it needs aborts the run, and
/// nothing else changes.
pub proof fn law_underflow_aborts(s: State)
    requires
        s.status is Running,
        s.pc < s.program.len(),
        s.stack.len() < demand(s.program[s.pc as int]),
    ensures
        step(s) == (State { status: Status::Faulted(Fault::StackUnderflow), ..s }),
{
}

/// Running past the end of the program with an empty stack aborts the run.
pub proof fn law_empty_end_aborts(s: State)
    requires
        s.status is Running,
        s.pc >= s.program.len(),
        s.stack.len() == 0,
    ensures
        step(s) == (State { status: Status::Faulted(Fault::StackUnderflow), ..s }),
{
}

/// A program that is empty, or whose first instruction needs a slot, is
/// aborted at once: it yields nothing and prints nothing.
pub proof fn law_consuming_first_aborts(program: Seq<ByteCode>)
    requires
        program.len() == 0 || demand(program[0]) > 0,
    ensures
        halts_within(program, 1),
        outcome(program).status == Status::Faulted(Fault::StackUnderflow),
        outcome(program).output == Seq::<Output>::empty(),
        outcome(program).program == program,
{
    assert(run(start(program), 1) == step(start(program))) by {
        reveal_with_fuel(run, 2);
    }
    assert(halts_within(program, 1));
    lemma_outcome(program, 1);
}

/// The counting loop: set the threshold, load the count, print it and the
/// step of one, apply `op`, print the new count, and jump back to the load
/// until the count is the threshold; then return it.
pub open spec fn loop_program(
    threshold: isize,
    from: isize,
    op: ByteCode,
    first: char,
    second: char,
) -> Seq<ByteCode> {
    seq![
        ByteCode::TO(threshold),
        ByteCode::LOAD_VAL(from),
        ByteCode::PRINT(first),
        ByteCode::LOAD_VAL(1),
        ByteCode::PRINT(second),
        op,
        ByteCode::PRINTLN,
        ByteCode::GOTO(1),
        ByteCode::RETURN_VALUE,
    ]
}

/// The count that one pass of the counting loop makes of `count`.
pub open spec fn counted(op: ByteCode, count: int) -> int {
    if op is ADD {
        count + 1
    } else {
        count - 1
    }
}

/// How many passes the counting loop needs from `count` to `threshold`.
pub open spec fn passes(op: ByteCode, threshold: int, count: int) -> int {
    if op is ADD {
        threshold - count
    } else {
        count - threshold
    }
}

/// Whether `s` stands at the head of the counting loop, about to load `count`.
spec fn at_head(
    s: State,
    threshold: isize,
    count: isize,
    op: ByteCode,
    first: char,
    second: char,
) -> bool {
    &&& s.status is Running
    &&& s.pc == 1
    &&& s.threshold == threshold
    &&& s.program == loop_program(threshold, count, op, first, second)
}

/// One pass of the counting loop: seven transitions lead from its head back
/// to its head, with the new count patched into the load, or, once the count
/// is the threshold, on to the return with that count on top.
proof fn lemma_pass(
    s: State,
    threshold: isize,
    count: isize,
    op: ByteCode,
    first: char,
    second: char,
)
    requires
        at_head(s, threshold, count, op, first, second),
        op is ADD || op is SUBTRACT,
        fits(counted(op, count as int)),
    ensures
        counted(op, count as int) != threshold ==> at_head(
            run(s, 7),
            threshold,
            counted(op, count as int) as isize,
            op,
            first,
            second,
        ),
        counted(op, count as int) == threshold ==> {
            &&& run(s, 7).status is Running
            &&& run(s, 7).pc == 8
            &&& run(s, 7).program == s.program
            &&& run(s, 7).stack.len() > 0
            &&& run(s, 7).stack.last().val == threshold
        },
{
    let next = counted(op, count as int) as isize;
    let loaded = Data { var: ANONYMOUS, val: count };
    let one = Data { var: ANONYMOUS, val: 1 };
    let result = Data { var: ANONYMOUS, val: next };
    let s1 = step(s);
    let s2 = step(s1);
    let s3 = step(s2);
    let s4 = step(s3);
    let s5 = step(s4);
    let s6 = step(s5);
    let s7 = step(s6);
    assert(s1.stack == s.stack.push(loaded) && s1.pc == 2 && s1.status is Running);
    assert(s2.stack == s1.stack && s2.pc == 3 && s2.status is Running);
    assert(s3.stack == s.stack.push(loaded).push(one) && s3.pc == 4 && s3.status is Running);
    assert(s4.stack == s3.stack && s4.pc == 5 && s4.status is Running);
    assert(s4.program == s.program && s4.threshold == threshold);
    assert(s4.stack.last() == one);
    assert(s4.stack.drop_last() =~= s.stack.push(loaded));
    assert(s4.stack.drop_last().last() == loaded);
    assert(s4.stack.drop_last().drop_last() =~= s.stack);
    assert(s5.stack == s.stack.push(result) && s5.pc == 6 && s5.status is Running);
    assert(s6.stack == s5.stack && s6.pc == 7 && s6.status is Running);
    assert(s6.program == s.program && s6.threshold == threshold);
    assert(s6.stack.last() == result);
    if next != threshold {
        assert(s7.program =~= loop_program(threshold, next, op, first, second));
    }
    assert(run(s, 7) == s7) by {
        reveal_with_fuel(run, 8);
    }
}

/// From the head of the counting loop, with the threshold ahead of the count,
/// the run returns the threshold after seven transitions for each pass and
/// one more.
proof fn lemma_loop(
    s: State,
    threshold: isize,
    count: isize,
    op: ByteCode,
    first: char,
    second: char,
)
    requires
        at_head(s, threshold, count, op, first, second),
        op is ADD || op is SUBTRACT,
        passes(op, threshold as int, count as int) > 0,
    ensures
        run(s, (7 * passes(op, threshold as int, count as int) + 1) as nat).status
            == Status::Returned(threshold),
    decreases passes(op, threshold as int, count as int),
{
    let left = passes(op, threshold as int, count as int);
    let next = counted(op, count as int);
    let after = run(s, 7);
    lemma_pass(s, threshold, count, op, first, second);
    if next == threshold {
        assert(run(after, 1) == step(after)) by {
            reveal_with_fuel(run, 2);
        }
        lemma_run_split(s, 7, 1);
    } else {
        lemma_loop(after, threshold, next as isize, op, first, second);
        lemma_run_split(s, 7, (7 * (left - 1) + 1) as nat);
    }
}

/// The counting loop ends and yields the threshold, for every count that its
/// passes lead to the threshold: with `SUBTRACT` from above it, with `ADD`
/// from below it.
pub proof fn law_counting_loop_yields_threshold(
    threshold: isize,
    from: isize,
    op: ByteCode,
    first: char,
    second: char,
)
    requires
        op is SUBTRACT && from > threshold || op is ADD && from < threshold,
    ensures
        halts_within(
            loop_program(threshold, from, op, first, second),
            (7 * passes(op, threshold as int, from as int) + 2) as nat,
        ),
        outcome(loop_program(threshold, from, op, first, second)).status == Status::Returned(
            threshold,
        ),
{
    let program = loop_program(threshold, from, op, first, second);
    let left = passes(op, threshold as int, from as int);
    let head = step(start(program));
    assert(run(start(program), 1) == head) by {
        reveal_with_fuel(run, 2);
    }
    lemma_loop(head, threshold, from, op, first, second);
    lemma_run_split(start(program), 1, (7 * left + 1) as nat);
    assert(halts_within(program, (7 * left + 2) as nat));
    lemma_outcome(program, (7 * left + 2) as nat);
}

} // verus!
