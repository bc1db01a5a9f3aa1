//! A slot whose value can be borrowed out and given back.
//!
//! `Cell` holds at most one value. Borrowing takes the value out, leaving
//! the cell empty until the borrow is restored; a second borrow in the
//! meantime is refused rather than blocking. Every borrow is given back by
//! an explicit restore, on every path, so the value is never lost.

use vstd::prelude::*;

verus! {

/// A slot holding a value that is currently either available or borrowed
/// out.
pub struct Cell<T> {
    pub inner: Option<T>,
}

/// A value borrowed out of a [`Cell`], to be given back with
/// [`Cell::restore`].
pub struct Borrowed<T> {
    pub value: T,
}

impl<T> Cell<T> {
    /// A cell holding `value`, available to borrow.
    pub fn new(value: T) -> (r: Self)
        ensures
            r.inner == Some(value),
    {
        Cell { inner: Some(value) }
    }

    /// Whether the value is available; `false` while it is borrowed out.
    pub fn is_available(&self) -> (r: bool)
        ensures
            r == (self.inner is Some),
    {
        self.inner.is_some()
    }

    /// Take the value out, if it is available; the cell stays empty until
    /// the borrow is restored. Returns `None`, changing nothing, while the
    /// value is already borrowed out.
    pub fn try_borrow(&mut self) -> (r: Option<Borrowed<T>>)
        ensures
            old(self).inner matches Some(v) ==> (r matches Some(b) && b.value == v
                && final(self).inner is None),
            old(self).inner is None ==> r is None && final(self).inner is None,
    {
        match self.inner.take() {
            Some(value) => Some(Borrowed { value }),
            None => None,
        }
    }

    /// Give a borrowed value back; the cell is available again.
    pub fn restore(&mut self, b: Borrowed<T>)
        ensures
            final(self).inner == Some(b.value),
    {
        self.inner = Some(b.value);
    }
}

impl<T: Clone> Cell<T> {
    /// A new cell around a clone of the value, if it is available to read;
    /// `None` while it is borrowed out.
    pub fn fork(&self) -> (r: Option<Cell<T>>)
        ensures
            (r is Some) == (self.inner is Some),
            r matches Some(c) ==> c.inner is Some,
    {
        match &self.inner {
            Some(value) => Some(Cell::new(value.clone())),
            None => None,
        }
    }
}

impl<T> Borrowed<T> {
    /// Read the borrowed value.
    pub fn get(&self) -> (r: &T)
        ensures
            *r == self.value,
    {
        &self.value
    }
}

} // verus!
