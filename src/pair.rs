use vstd::prelude::*;

verus! {

/// A tracked value: what it was on the previous tick and what it is now.
#[derive(Clone, Debug, PartialEq, Eq)]
pub struct Pair<T> {
    pub old: T,
    pub current: T,
}

impl<T> Pair<T> {
    /// Shifts the current value into `old` and stores `value` as current.
    pub fn update(&mut self, value: T)
        ensures
            final(self).old == old(self).current,
            final(self).current == value,
    {
        let mut incoming = value;
        std::mem::swap(&mut self.current, &mut incoming);
        self.old = incoming;
    }
}

impl Pair<i32> {
    pub fn changed(&self) -> (r: bool)
        ensures
            r == (self.old != self.current),
    {
        self.old != self.current
    }
}

impl Pair<u8> {
    pub fn changed(&self) -> (r: bool)
        ensures
            r == (self.old != self.current),
    {
        self.old != self.current
    }
}

impl Pair<i128> {
    pub fn changed(&self) -> (r: bool)
        ensures
            r == (self.old != self.current),
    {
        self.old != self.current
    }

    pub fn decreased(&self) -> (r: bool)
        ensures
            r == (self.current < self.old),
    {
        self.current < self.old
    }
}

} // verus!
