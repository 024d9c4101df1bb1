//! The machine's one sequence of slots: operand stack and variable store at
//! once. A variable is the lowest slot that carries its name.

use vstd::prelude::*;
use crate::value::Data;

verus! {

/// The index of the lowest slot of `slots` tagged `var`; the length of `slots`
/// where no slot carries that tag.
pub open spec fn lowest(slots: Seq<Data>, var: char) -> int
    decreases slots.len(),
{
    if slots.len() == 0 || slots[0].var == var {
        0
    } else {
        1 + lowest(slots.drop_first(), var)
    }
}

/// Whether some slot of `slots` is tagged `var`.
pub open spec fn bound(slots: Seq<Data>, var: char) -> bool {
    exists|i: int| 0 <= i < slots.len() && slots[i].var == var
}

/// `slots` after the lowest slot tagged `var` has been taken out of its place
/// and put on top; `slots` itself where no slot carries that tag.
pub open spec fn relocate(slots: Seq<Data>, var: char) -> Seq<Data> {
    let at = lowest(slots, var);
    if at < slots.len() {
        slots.remove(at).push(slots[at])
    } else {
        slots
    }
}

/// `lowest` is the one index below which no slot is tagged `var` and at which,
/// if it lies inside `slots`, the slot is.
pub proof fn lemma_lowest(slots: Seq<Data>, var: char)
    ensures
        0 <= lowest(slots, var) <= slots.len(),
        forall|j: int| 0 <= j < lowest(slots, var) ==> slots[j].var != var,
        lowest(slots, var) < slots.len() ==> slots[lowest(slots, var)].var == var,
        lowest(slots, var) < slots.len() <==> bound(slots, var),
    decreases slots.len(),
{
    if slots.len() == 0 || slots[0].var == var {
    } else {
        let rest = slots.drop_first();
        lemma_lowest(rest, var);
        let at = lowest(slots, var);
        assert forall|j: int| 0 <= j < at implies slots[j].var != var by {
            if j > 0 {
                assert(slots[j] == rest[j - 1]);
            }
        }
        if at < slots.len() {
            assert(slots[at] == rest[at - 1]);
        }
        if bound(slots, var) {
            let i = choose|i: int| 0 <= i < slots.len() && slots[i].var == var;
            assert(rest[i - 1] == slots[i]);
        }
    }
}

/// An index at which the slot is tagged `var`, with no such slot below it, is
/// `lowest`.
pub proof fn lemma_lowest_at(slots: Seq<Data>, var: char, at: int)
    requires
        0 <= at <= slots.len(),
        forall|j: int| 0 <= j < at ==> slots[j].var != var,
        at < slots.len() ==> slots[at].var == var,
    ensures
        lowest(slots, var) == at,
{
    lemma_lowest(slots, var);
    let found = lowest(slots, var);
    if found < at {
        assert(slots[found].var != var);
    }
}

/// The stack of slots; its top is the last element.
#[derive(Debug)]
pub struct Stack(pub Vec<Data>);

impl View for Stack {
    type V = Seq<Data>;

    open spec fn view(&self) -> Seq<Data> {
        self.0@
    }
}

impl Stack {
    /// The empty stack.
    pub fn new() -> (r: Stack)
        ensures
            r@ == Seq::<Data>::empty(),
    {
        Stack(Vec::new())
    }

    /// The number of slots.
    pub fn len(&self) -> (n: usize)
        ensures
            n == self@.len(),
    {
        self.0.len()
    }

    /// Puts `value` on top.
    pub fn push(&mut self, value: Data)
        ensures
            final(self)@ == old(self)@.push(value),
    {
        self.0.push(value);
    }

    /// Takes the top slot off.
    pub fn pop(&mut self) -> (top: Data)
        requires
            old(self)@.len() > 0,
        ensures
            top == old(self)@.last(),
            final(self)@ == old(self)@.drop_last(),
    {
        self.0.pop().unwrap()
    }

    /// A copy of the top slot.
    pub fn peek(&self) -> (top: Data)
        requires
            self@.len() > 0,
        ensures
            top == self@.last(),
    {
        self.0[self.0.len() - 1]
    }

    /// Moves the lowest slot tagged `var` to the top, tag and amount kept.
    /// Where no slot carries the tag, nothing changes.
    pub fn move_top(&mut self, var: char)
        ensures
            final(self)@ == relocate(old(self)@, var),
    {
        let mut i: usize = 0;
        while i < self.0.len()
            invariant
                self@ == old(self)@,
                i <= self@.len(),
                forall|j: int| 0 <= j < i ==> self@[j].var != var,
            decreases self@.len() - i,
        {
            if self.0[i].var == var {
                proof {
                    lemma_lowest_at(self@, var, i as int);
                }
                let item = self.0.remove(i);
                self.0.push(item);
                return ;
            }
            i += 1;
        }
        proof {
            lemma_lowest_at(self@, var, i as int);
        }
    }
}

} // verus!
