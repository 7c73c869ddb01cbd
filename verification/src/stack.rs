//! A last-in-first-out container with a fixed capacity.

use vstd::prelude::*;

verus! {

/// Why an operation on a [`Stack`] was refused.
#[derive(Clone, Copy, Debug, PartialEq, Eq, Structural)]
pub enum StackError {
    /// The stack already holds as many elements as it may.
    CapacityExceeded,
    /// An index does not name an element of the stack.
    IndexOutOfRange,
}

/// `<[T]>::swap` exchanges the elements at two positions of a slice and
/// leaves every other element where it was. It panics when a position is
/// outside the slice, so both must lie inside it.
pub assume_specification<V>[ <[V]>::swap ](slice: &mut [V], a: usize, b: usize)
    requires
        a < old(slice)@.len(),
        b < old(slice)@.len(),
    ensures
        final(slice)@ == old(slice)@.update(a as int, old(slice)@[b as int]).update(
            b as int,
            old(slice)@[a as int],
        ),
;

/// A stack of at most `max_size` elements. Index 0 is the bottom.
#[derive(Debug)]
pub struct Stack<T> {
    stack: Vec<T>,
    max_size: usize,
}

impl<T> View for Stack<T> {
    type V = Seq<T>;

    closed spec fn view(&self) -> Seq<T> {
        self.stack@
    }
}

impl<T> Stack<T> {
    /// The largest number of elements the stack may hold.
    pub closed spec fn capacity(&self) -> nat {
        self.max_size as nat
    }

    /// The stack never holds more elements than its capacity.
    pub open spec fn wf(&self) -> bool {
        self@.len() <= self.capacity()
    }

    pub fn new(max_size: usize) -> (s: Stack<T>)
        ensures
            s.wf(),
            s@ == Seq::<T>::empty(),
            s.capacity() == max_size,
    {
        Stack { stack: Vec::new(), max_size: max_size }
    }

    pub fn push(&mut self, elem: T) -> (r: Result<(), StackError>)
        requires
            old(self).wf(),
        ensures
            final(self).wf(),
            final(self).capacity() == old(self).capacity(),
            r == if old(self)@.len() < old(self).capacity() {
                Ok::<(), StackError>(())
            } else {
                Err::<(), StackError>(StackError::CapacityExceeded)
            },
            final(self)@ == if old(self)@.len() < old(self).capacity() {
                old(self)@.push(elem)
            } else {
                old(self)@
            },
    {
        if self.stack.len() == self.max_size {
            return Err(StackError::CapacityExceeded);
        }
        self.stack.push(elem);
        Ok(())
    }

    pub fn pop(&mut self) -> (r: Option<T>)
        requires
            old(self).wf(),
        ensures
            final(self).wf(),
            final(self).capacity() == old(self).capacity(),
            r == if old(self)@.len() > 0 {
                Some(old(self)@.last())
            } else {
                None
            },
            final(self)@ == if old(self)@.len() > 0 {
                old(self)@.drop_last()
            } else {
                old(self)@
            },
    {
        self.stack.pop()
    }

    pub fn last(&self) -> (r: Option<&T>)
        ensures
            r == if self@.len() > 0 {
                Some(&self@.last())
            } else {
                None
            },
    {
        self.stack.last()
    }

    pub fn last_mut(&mut self) -> (r: Option<&mut T>)
        requires
            old(self).wf(),
        ensures
            final(self).wf(),
            final(self).capacity() == old(self).capacity(),
            old(self)@.len() == 0 ==> r is None && final(self)@ == old(self)@,
            old(self)@.len() > 0 ==> r is Some && *r.unwrap() == old(self)@.last()
                && final(self)@ == old(self)@.update(old(self)@.len() - 1, *final(r.unwrap())),
    {
        self.stack.last_mut()
    }

    pub fn clear(&mut self)
        requires
            old(self).wf(),
        ensures
            final(self).wf(),
            final(self).capacity() == old(self).capacity(),
            final(self)@ == Seq::<T>::empty(),
    {
        self.stack.clear();
    }

    pub fn length(&self) -> (n: usize)
        ensures
            n == self@.len(),
    {
        self.stack.len()
    }

    pub fn swap(&mut self, a: usize, b: usize) -> (r: Result<(), StackError>)
        requires
            old(self).wf(),
        ensures
            final(self).wf(),
            final(self).capacity() == old(self).capacity(),
            r == if a < old(self)@.len() && b < old(self)@.len() {
                Ok::<(), StackError>(())
            } else {
                Err::<(), StackError>(StackError::IndexOutOfRange)
            },
            final(self)@ == if a < old(self)@.len() && b < old(self)@.len() {
                old(self)@.update(a as int, old(self)@[b as int]).update(
                    b as int,
                    old(self)@[a as int],
                )
            } else {
                old(self)@
            },
    {
        if a >= self.stack.len() {
            return Err(StackError::IndexOutOfRange);
        }
        if b >= self.stack.len() {
            return Err(StackError::IndexOutOfRange);
        }
        self.stack.swap(a, b);
        Ok(())
    }

    pub fn remove(&mut self, idx: usize) -> (r: Result<(), StackError>)
        requires
            old(self).wf(),
        ensures
            final(self).wf(),
            final(self).capacity() == old(self).capacity(),
            r == if idx < old(self)@.len() {
                Ok::<(), StackError>(())
            } else {
                Err::<(), StackError>(StackError::IndexOutOfRange)
            },
            final(self)@ == if idx < old(self)@.len() {
                old(self)@.remove(idx as int)
            } else {
                old(self)@
            },
    {
        if idx >= self.stack.len() {
            return Err(StackError::IndexOutOfRange);
        }
        self.stack.remove(idx);
        Ok(())
    }
}

} // verus!
