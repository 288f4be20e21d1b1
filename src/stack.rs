//! The operand stack: a LIFO sequence of doubles, bounded or not.
use vstd::prelude::*;

use crate::vm::ExecutionError;

verus! {

/// What pushing `v` does to a stack holding `items` with capacity `cap`:
/// the stack grows by `v`, unless it is bounded and already full.
pub open spec fn push_result(items: Seq<u64>, cap: Option<usize>, v: u64) -> Result<
    Seq<u64>,
    ExecutionError,
> {
    match cap {
        Some(n) if items.len() >= n => Err(ExecutionError::StackOverflow),
        _ => Ok(items.push(v)),
    }
}

/// A stack of doubles (as bit patterns), bottom first.
pub struct OperandStack {
    items: Vec<u64>,
    cap: Option<usize>,
}

impl View for OperandStack {
    type V = Seq<u64>;

    closed spec fn view(&self) -> Seq<u64> {
        self.items@
    }
}

impl OperandStack {
    /// The capacity the stack was made with; `None` for an unbounded one.
    pub closed spec fn capacity(&self) -> Option<usize> {
        self.cap
    }

    /// An empty stack with the given capacity.
    pub fn new(cap: Option<usize>) -> (r: OperandStack)
        ensures
            r@ == Seq::<u64>::empty(),
            r.capacity() == cap,
    {
        OperandStack { items: Vec::new(), cap }
    }

    /// The items, bottom first.
    pub fn items(&self) -> (r: &Vec<u64>)
        ensures
            r@ == self@,
    {
        &self.items
    }

    /// Pushes `v`; fails with `StackOverflow`, changing nothing, when the
    /// stack is bounded and full.
    pub fn push(&mut self, v: u64) -> (r: Result<(), ExecutionError>)
        ensures
            final(self).capacity() == old(self).capacity(),
            match push_result(old(self)@, old(self).capacity(), v) {
                Ok(items) => r == Ok::<(), ExecutionError>(()) && final(self)@ == items,
                Err(e) => r == Err::<(), ExecutionError>(e) && final(self)@ == old(self)@,
            },
    {
        match self.cap {
            Some(n) => {
                if self.items.len() >= n {
                    return Err(ExecutionError::StackOverflow);
                }
            },
            None => {},
        }
        self.items.push(v);
        Ok(())
    }

    /// Pops the top item; fails with `EmptyStack`, changing nothing, when the
    /// stack is empty.
    pub fn pop(&mut self) -> (r: Result<u64, ExecutionError>)
        ensures
            final(self).capacity() == old(self).capacity(),
            old(self)@.len() == 0 ==> r == Err::<u64, ExecutionError>(ExecutionError::EmptyStack)
                && final(self)@ == old(self)@,
            old(self)@.len() > 0 ==> r == Ok::<u64, ExecutionError>(old(self)@.last())
                && final(self)@ == old(self)@.drop_last(),
    {
        match self.items.pop() {
            Some(v) => Ok(v),
            None => Err(ExecutionError::EmptyStack),
        }
    }
}

} // verus!
