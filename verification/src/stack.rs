use vstd::prelude::*;

verus! {

/// A minimal growable LIFO container of operand values, pre-sizable to a
/// known capacity.
pub struct Stack<T>(Vec<T>);

impl<T> View for Stack<T> {
    type V = Seq<T>;

    closed spec fn view(&self) -> Seq<T> {
        self.0@
    }
}

impl<T> Stack<T> {
    /// Creates an empty stack.
    pub fn new() -> (s: Stack<T>)
        ensures
            s@ == Seq::<T>::empty(),
    {
        Stack(Vec::new())
    }

    /// Creates an empty stack whose backing storage can hold `capacity`
    /// elements without reallocating.
    pub fn with_capacity(capacity: usize) -> (s: Stack<T>)
        ensures
            s@ == Seq::<T>::empty(),
    {
        Stack(Vec::with_capacity(capacity))
    }

    /// Returns the number of elements on the stack.
    pub fn len(&self) -> (n: usize)
        ensures
            n == self@.len(),
    {
        self.0.len()
    }

    /// Returns `true` when the stack holds no element.
    pub fn is_empty(&self) -> (b: bool)
        ensures
            b == (self@.len() == 0),
    {
        self.0.is_empty()
    }

    /// Pushes a value on top of the stack.
    pub fn push(&mut self, value: T)
        ensures
            final(self)@ == old(self)@.push(value),
    {
        self.0.push(value)
    }

    /// Removes the value on top of the stack and returns it, or `None` if the
    /// stack is empty.
    pub fn pop(&mut self) -> (r: Option<T>)
        ensures
            old(self)@.len() > 0 ==> ({
                &&& r == Some(old(self)@.last())
                &&& final(self)@ == old(self)@.drop_last()
            }),
            old(self)@.len() == 0 ==> r is None && final(self)@ == old(self)@,
    {
        self.0.pop()
    }
}

} // verus!
