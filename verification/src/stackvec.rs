//! A vector with a fixed upper bound on its length.
use vstd::prelude::*;
use vstd::std_specs::cmp::PartialEqSpec;

verus! {

/// A sequence of at most `CAPACITY` copyable values.
pub struct StackVec<T: Copy, const CAPACITY: usize> {
    buffer: Vec<T>,
}

impl<T: Copy, const CAPACITY: usize> View for StackVec<T, CAPACITY> {
    type V = Seq<T>;

    closed spec fn view(&self) -> Seq<T> {
        self.buffer@
    }
}

impl<T: Copy, const CAPACITY: usize> StackVec<T, CAPACITY> {
    /// The vector never holds more than `CAPACITY` values.
    pub closed spec fn wf(&self) -> bool {
        self.buffer@.len() <= CAPACITY
    }

    pub fn new() -> (result: Self)
        ensures
            result.wf(),
            result@ == Seq::<T>::empty(),
    {
        StackVec { buffer: Vec::new() }
    }

    /// Appends `val` and gives the new length; a full vector is left as it
    /// is and gives an error.
    pub fn push(&mut self, val: T) -> (result: Result<usize, ()>)
        requires
            old(self).wf(),
        ensures
            final(self).wf(),
            old(self)@.len() < CAPACITY ==> final(self)@ == old(self)@.push(val) && result == Ok::<
                usize,
                (),
            >(final(self)@.len() as usize),
            old(self)@.len() >= CAPACITY ==> final(self)@ == old(self)@ && result == Err::<usize, ()>(()),
    {
        if self.buffer.len() >= CAPACITY {
            return Err(());
        }
        self.buffer.push(val);
        Ok(self.buffer.len())
    }

    pub fn len(&self) -> (result: usize)
        ensures
            result == self@.len(),
    {
        self.buffer.len()
    }

    pub fn capacity(&self) -> (result: usize)
        ensures
            result == CAPACITY,
    {
        CAPACITY
    }

    /// The value at `index`, which must be one of the pushed positions.
    pub fn index(&self, index: usize) -> (result: T)
        requires
            index < self@.len(),
        ensures
            result == self@[index as int],
    {
        self.buffer[index]
    }

    pub fn into_iter(self) -> (result: StackVecIter<T, CAPACITY>)
        ensures
            result.items() == self@,
            result.position() == 0,
    {
        StackVecIter { vec: self, index: 0 }
    }

    /// Whether some pushed value equals `v`.
    pub fn contains(&self, v: T) -> (result: bool)
        where T: PartialEq,
        ensures
            T::obeys_eq_spec() ==> (result <==> exists|j: int|
                0 <= j < self@.len() && #[trigger] self@[j].eq_spec(&v)),
    {
        let mut i: usize = 0;
        while i < self.buffer.len()
            invariant
                i <= self.buffer@.len(),
                T::obeys_eq_spec() ==> forall|j: int|
                    0 <= j < i ==> !(#[trigger] self.buffer@[j]).eq_spec(&v),
            decreases self.buffer@.len() - i,
        {
            if self.buffer[i] == v {
                assert(T::obeys_eq_spec() ==> self@[i as int].eq_spec(&v));
                return true;
            }
            i = i + 1;
        }
        false
    }
}

/// Walks the values of a `StackVec` front to back.
pub struct StackVecIter<T: Copy, const CAPACITY: usize> {
    vec: StackVec<T, CAPACITY>,
    index: usize,
}

impl<T: Copy, const CAPACITY: usize> StackVecIter<T, CAPACITY> {
    pub closed spec fn items(&self) -> Seq<T> {
        self.vec@
    }

    pub closed spec fn position(&self) -> int {
        self.index as int
    }

    /// The next value, or `None` once every value was handed out.
    pub fn next(&mut self) -> (result: Option<T>)
        ensures
            final(self).items() == old(self).items(),
            if old(self).position() >= old(self).items().len() {
                result == None::<T> && final(self).position() == old(self).position()
            } else {
                result == Some(old(self).items()[old(self).position()])
                    && final(self).position() == old(self).position() + 1
            },
    {
        if self.index >= self.vec.len() {
            None
        } else {
            let value = self.vec.index(self.index);
            self.index = self.index + 1;
            Some(value)
        }
    }
}

/// Conversion of a fixed-size collection into a `StackVec` of the same capacity.
pub trait ToStackVec<Output: Copy, const CAPACITY: usize>: Sized {
    spec fn source(&self) -> Seq<Output>;

    fn to_stack_vec(self) -> (result: StackVec<Output, CAPACITY>)
        ensures
            result.wf(),
            result@ == self.source(),
    ;
}

impl<T: Copy, const N: usize> ToStackVec<T, N> for [T; N] {
    open spec fn source(&self) -> Seq<T> {
        self@
    }

    fn to_stack_vec(self) -> (result: StackVec<T, N>) {
        let mut result: StackVec<T, N> = StackVec::new();
        let mut i: usize = 0;
        while i < N
            invariant
                i <= N,
                self@.len() == N,
                result.wf(),
                result@ == self@.subrange(0, i as int),
            decreases N - i,
        {
            result.push(self[i]);
            assert(self@.subrange(0, i as int).push(self@[i as int]) =~= self@.subrange(
                0,
                i + 1,
            ));
            i = i + 1;
        }
        assert(self@.subrange(0, N as int) =~= self@);
        result
    }
}

} // verus!
