//! Ready-made resumable computations.

use vstd::prelude::*;
use crate::generator::{yields, Generator, GeneratorState};

verus! {

/// A computation that yields the items of a vector, first to last, and then
/// completes.
pub struct Replay<T> {
    // The items still to be yielded, last to first, so that the next one is
    // on top.
    stack: Vec<T>,
    done: bool,
}

impl<T> Replay<T> {
    /// A computation that will yield each item of `items` in order.
    pub fn new(items: Vec<T>) -> (g: Self)
        ensures
            yields(&g, items@),
    {
        let ghost all = items@;
        let mut items = items;
        let mut stack: Vec<T> = Vec::new();
        while items.len() > 0
            invariant
                items@.len() + stack@.len() == all.len(),
                items@ =~= all.take(items@.len() as int),
                forall|j: int| 0 <= j < stack@.len() ==> stack@[j] == all[all.len() - 1 - j],
            decreases items@.len(),
        {
            match items.pop() {
                Some(x) => {
                    stack.push(x);
                },
                None => {},
            }
        }
        Replay { stack, done: false }
    }
}

impl<T> Generator for Replay<T> {
    type Yield = T;

    type Return = ();

    closed spec fn completed(&self) -> bool {
        self.done
    }

    closed spec fn ahead(&self, i: int) -> Option<T> {
        if 0 <= i < self.stack@.len() {
            Some(self.stack@[self.stack@.len() - 1 - i])
        } else {
            None
        }
    }

    fn resume(&mut self) -> (r: GeneratorState<T, ()>) {
        match self.stack.pop() {
            Some(x) => GeneratorState::Yielded(x),
            None => {
                self.done = true;
                GeneratorState::Complete(())
            },
        }
    }
}

/// A computation that yields the integers from a start up to, and without,
/// an end, and then completes.
pub struct Counter {
    next: u64,
    end: u64,
    done: bool,
}

/// The integers `start`, `start + 1`, ... below `end`; none where `end` is
/// not above `start`.
pub open spec fn range_seq(start: u64, end: u64) -> Seq<u64> {
    Seq::new(
        if start <= end {
            (end - start) as nat
        } else {
            0
        },
        |i: int| (start + i) as u64,
    )
}

impl Counter {
    /// A computation that will yield `start`, `start + 1`, ... and stop
    /// before `end`.
    pub fn new(start: u64, end: u64) -> (g: Self)
        ensures
            yields(&g, range_seq(start, end)),
    {
        Counter { next: start, end, done: false }
    }
}

impl Generator for Counter {
    type Yield = u64;

    type Return = ();

    closed spec fn completed(&self) -> bool {
        self.done
    }

    closed spec fn ahead(&self, i: int) -> Option<u64> {
        if 0 <= i && self.next + i < self.end {
            Some((self.next + i) as u64)
        } else {
            None
        }
    }

    fn resume(&mut self) -> (r: GeneratorState<u64, ()>) {
        if self.next < self.end {
            let y: u64 = self.next;
            self.next = self.next + 1;
            GeneratorState::Yielded(y)
        } else {
            self.done = true;
            GeneratorState::Complete(())
        }
    }
}

/// A computation that borrows a factor and yields `0 * factor`,
/// `1 * factor`, ... for `count` steps, and then completes.  It reads the
/// factor through the reference each time it is resumed.
pub struct Scaled<'a> {
    factor: &'a u32,
    step: u32,
    count: u32,
    done: bool,
}

/// The products `i * factor` for `i` below `count`.
pub open spec fn scaled_seq(factor: u32, count: u32) -> Seq<u64> {
    Seq::new(count as nat, |i: int| (i * factor) as u64)
}

impl<'a> Scaled<'a> {
    /// A computation that will yield the first `count` multiples of the
    /// borrowed factor, starting with zero.
    pub fn new(factor: &'a u32, count: u32) -> (g: Self)
        ensures
            yields(&g, scaled_seq(*factor, count)),
    {
        Scaled { factor, step: 0, count, done: false }
    }
}

impl<'a> Generator for Scaled<'a> {
    type Yield = u64;

    type Return = ();

    closed spec fn completed(&self) -> bool {
        self.done
    }

    closed spec fn ahead(&self, i: int) -> Option<u64> {
        if 0 <= i && self.step + i < self.count {
            Some(((self.step + i) * (*self.factor)) as u64)
        } else {
            None
        }
    }

    fn resume(&mut self) -> (r: GeneratorState<u64, ()>) {
        if self.step < self.count {
            let a: u64 = self.step as u64;
            let b: u64 = *self.factor as u64;
            assert(a * b <= 0xffff_ffff * 0xffff_ffff) by (nonlinear_arith)
                requires
                    a <= 0xffff_ffff,
                    b <= 0xffff_ffff,
            ;
            self.step = self.step + 1;
            GeneratorState::Yielded(a * b)
        } else {
            self.done = true;
            GeneratorState::Complete(())
        }
    }
}

/// A computation that yields one value over and over and never completes.
pub struct Repeat<T: Copy> {
    value: T,
}

impl<T: Copy> Repeat<T> {
    /// A computation that will yield `value` at every resumption.
    pub fn new(value: T) -> (g: Self)
        ensures
            !g.completed(),
            forall|i: int| 0 <= i ==> #[trigger] g.ahead(i) == Some(value),
    {
        Repeat { value }
    }
}

impl<T: Copy> Generator for Repeat<T> {
    type Yield = T;

    type Return = ();

    closed spec fn completed(&self) -> bool {
        false
    }

    closed spec fn ahead(&self, i: int) -> Option<T> {
        Some(self.value)
    }

    fn resume(&mut self) -> (r: GeneratorState<T, ()>) {
        GeneratorState::Yielded(self.value)
    }
}

} // verus!
