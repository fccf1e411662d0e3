//! A stack with a fixed capacity.

use vstd::prelude::*;

verus! {

/// Error of a stack operation.
#[derive(Clone, Copy, Debug, PartialEq, Eq, Structural)]
pub enum Error {
    /// A push hit the stack's capacity.
    Overflow,
    /// A pop, read, or penultimate insert found too few values.
    Underflow,
}

/// A stack that refuses to grow past a fixed limit.
///
/// The top of the stack is the back of the vector.
#[derive(Clone, Debug)]
pub struct StackWithLimit<T> {
    values: Vec<T>,
    limit: usize,
}

impl<T> View for StackWithLimit<T> {
    type V = Seq<T>;

    closed spec fn view(&self) -> Seq<T> {
        self.values@
    }
}

impl<T> StackWithLimit<T> {
    /// The stack's capacity, for contracts.
    pub closed spec fn spec_limit(&self) -> int {
        self.limit as int
    }

    /// The stack never holds more than its limit.
    pub open spec fn wf(&self) -> bool {
        self@.len() <= self.spec_limit()
    }

    /// New stack holding `data`, with capacity `limit`.
    pub fn with_data(data: Vec<T>, limit: usize) -> (r: Self)
        requires
            data@.len() <= limit,
        ensures
            r@ == data@,
            r.spec_limit() == limit,
            r.wf(),
    {
        StackWithLimit { values: data, limit }
    }

    /// New empty stack with capacity `limit`.
    pub fn with_limit(limit: usize) -> (r: Self)
        ensures
            r@ == Seq::<T>::empty(),
            r.spec_limit() == limit,
            r.wf(),
    {
        StackWithLimit { values: Vec::new(), limit }
    }

    /// Whether the stack holds no values.
    pub fn is_empty(&self) -> (r: bool)
        ensures
            r == (self@.len() == 0),
    {
        self.values.is_empty()
    }

    /// How many values the stack holds.
    pub fn len(&self) -> (r: usize)
        ensures
            r == self@.len(),
    {
        self.values.len()
    }

    /// The stack's capacity.
    pub fn limit(&self) -> (r: usize)
        ensures
            r == self.spec_limit(),
    {
        self.limit
    }

    /// The values, bottom first.
    pub fn values(&self) -> (r: &Vec<T>)
        ensures
            r@ == self@,
    {
        &self.values
    }

    /// The value on top of the stack.
    pub fn top(&self) -> (r: Result<&T, Error>)
        ensures
            match r {
                Ok(v) => self@.len() > 0 && *v == self@.last(),
                Err(e) => e == Error::Underflow && self@.len() == 0,
            },
    {
        if self.values.len() == 0 {
            Err(Error::Underflow)
        } else {
            Ok(&self.values[self.values.len() - 1])
        }
    }

    /// The value at depth `index`, counting from the top.
    pub fn get(&self, index: usize) -> (r: Result<&T, Error>)
        ensures
            match r {
                Ok(v) => index < self@.len() && *v == self@[self@.len() - 1 - index],
                Err(e) => e == Error::Underflow && index >= self@.len(),
            },
    {
        if index >= self.values.len() {
            Err(Error::Underflow)
        } else {
            Ok(&self.values[self.values.len() - 1 - index])
        }
    }

    /// Push a value, unless the stack is at capacity.
    pub fn push(&mut self, value: T) -> (r: Result<(), Error>)
        ensures
            final(self).spec_limit() == old(self).spec_limit(),
            match r {
                Ok(()) => old(self)@.len() < old(self).spec_limit() && final(self)@ == old(
                    self,
                )@.push(value),
                Err(e) => {
                    &&& e == Error::Overflow
                    &&& old(self)@.len() >= old(self).spec_limit()
                    &&& final(self)@ == old(self)@
                },
            },
    {
        if self.values.len() >= self.limit {
            return Err(Error::Overflow);
        }
        self.values.push(value);
        Ok(())
    }

    /// Insert a value just below the current top.
    pub fn push_penultimate(&mut self, value: T) -> (r: Result<(), Error>)
        ensures
            final(self).spec_limit() == old(self).spec_limit(),
            match r {
                Ok(()) => {
                    &&& old(self)@.len() >= 1
                    &&& old(self)@.len() < old(self).spec_limit()
                    &&& final(self)@ == old(self)@.drop_last().push(value).push(old(self)@.last())
                },
                Err(e) => final(self)@ == old(self)@ && (e == Error::Underflow && old(self)@.len()
                    == 0 || e == Error::Overflow && old(self)@.len() >= old(self).spec_limit()),
            },
    {
        if self.values.len() == 0 {
            return Err(Error::Underflow);
        }
        if self.values.len() >= self.limit {
            return Err(Error::Overflow);
        }
        let top = self.values.pop().unwrap();
        self.values.push(value);
        self.values.push(top);
        proof {
            assert(self@ =~= old(self)@.drop_last().push(value).push(old(self)@.last()));
        }
        Ok(())
    }

    /// Pop the top value.
    pub fn pop(&mut self) -> (r: Result<T, Error>)
        ensures
            final(self).spec_limit() == old(self).spec_limit(),
            match r {
                Ok(v) => old(self)@.len() > 0 && v == old(self)@.last() && final(self)@ == old(
                    self,
                )@.drop_last(),
                Err(e) => e == Error::Underflow && old(self)@.len() == 0 && final(self)@ == old(
                    self,
                )@,
            },
    {
        match self.values.pop() {
            Some(v) => Ok(v),
            None => Err(Error::Underflow),
        }
    }

    /// Shrink the stack to `new_size` values.
    pub fn resize(&mut self, new_size: usize)
        requires
            new_size <= old(self)@.len(),
        ensures
            final(self).spec_limit() == old(self).spec_limit(),
            final(self)@ == old(self)@.take(new_size as int),
    {
        self.values.truncate(new_size);
    }
}

impl<T: Clone> StackWithLimit<T> {
    /// A clone of the value on top of the stack.
    pub fn top_cloned(&self) -> (r: Result<T, Error>)
        ensures
            match r {
                Ok(_) => self@.len() > 0,
                Err(e) => e == Error::Underflow && self@.len() == 0,
            },
    {
        if self.values.len() == 0 {
            Err(Error::Underflow)
        } else {
            Ok(self.values[self.values.len() - 1].clone())
        }
    }
}

} // verus!
