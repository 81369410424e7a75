use vstd::prelude::*;

verus! {

/// A growable column vector of 64-bit integer scalars, viewed as the
/// sequence of its entries.
#[derive(Debug, Clone)]
pub struct Vector {
    pub data: Vec<i64>,
}

impl View for Vector {
    type V = Seq<i64>;

    closed spec fn view(&self) -> Seq<i64> {
        self.data@
    }
}

impl Vector {
    /// Wraps a vector of entries.
    pub fn new(data: Vec<i64>) -> (v: Vector)
        ensures
            v@ == data@,
    {
        Vector { data }
    }

    /// A vector of `n` zero entries.
    pub fn zeros(n: usize) -> (v: Vector)
        ensures
            v@ == Seq::new(n as nat, |i: int| 0i64),
    {
        let data: Vec<i64> = vec![0i64; n];
        proof {
            assert(data@ =~= Seq::new(n as nat, |i: int| 0i64));
        }
        Vector { data }
    }

    /// The number of entries.
    pub fn len(&self) -> (n: usize)
        ensures
            n == self@.len(),
    {
        self.data.len()
    }

    /// The entry at position `i`.
    pub fn get(&self, i: usize) -> (x: i64)
        requires
            i < self@.len(),
        ensures
            x == self@[i as int],
    {
        self.data[i]
    }

    /// Replaces the entry at position `i`.
    pub fn set(&mut self, i: usize, x: i64)
        requires
            i < old(self)@.len(),
        ensures
            final(self)@ == old(self)@.update(i as int, x),
    {
        self.data.set(i, x);
    }
}

} // verus!
