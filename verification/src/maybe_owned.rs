//! Optionally owned containers.

use vstd::prelude::*;

verus! {

/// A vector that can hold either `&'r [T]` or `Vec<T>`.
pub enum MaybeOwnedVec<'r, T: 'r> {
    Owned(Vec<T>),
    Slice(&'r [T]),
}

impl<'r, T> MaybeOwnedVec<'r, T> {
    /// The elements, whoever owns them.
    pub open spec fn view(&self) -> Seq<T> {
        match *self {
            MaybeOwnedVec::Owned(v) => v@,
            MaybeOwnedVec::Slice(s) => s@,
        }
    }

    /// Returns `true` if the vector is owned.
    #[inline]
    pub fn is_owned(&self) -> (r: bool)
        ensures
            r == (*self is Owned),
    {
        match *self {
            MaybeOwnedVec::Owned(..) => true,
            MaybeOwnedVec::Slice(..) => false,
        }
    }

    /// Returns `true` if the vector is borrowed.
    #[inline]
    pub fn is_slice(&self) -> (r: bool)
        ensures
            r == (*self is Slice),
    {
        match *self {
            MaybeOwnedVec::Owned(..) => false,
            MaybeOwnedVec::Slice(..) => true,
        }
    }

    /// Returns the length of vector.
    #[inline]
    pub fn len(&self) -> (n: usize)
        ensures
            n == self@.len(),
    {
        self.as_slice().len()
    }

    /// Returns the elements as a slice.
    #[inline]
    pub fn as_slice(&self) -> (s: &[T])
        ensures
            s@ == self@,
    {
        match self {
            MaybeOwnedVec::Owned(v) => v.as_slice(),
            MaybeOwnedVec::Slice(s) => s,
        }
    }
}

impl<'r, T: Copy> MaybeOwnedVec<'r, T> {
    /// Returns a vector with the same elements: a copy of an owned one, the same slice of
    /// a borrowed one.
    pub fn duplicate(&self) -> (r: MaybeOwnedVec<'r, T>)
        ensures
            r@ == self@,
            (r is Owned) == (*self is Owned),
    {
        match self {
            MaybeOwnedVec::Owned(v) => {
                let n: usize = v.len();
                let mut w: Vec<T> = Vec::new();
                let mut i: usize = 0;
                while i < n
                    invariant
                        n == v@.len(),
                        0 <= i <= n,
                        w@ == v@.take(i as int),
                    decreases n - i,
                {
                    w.push(v[i]);
                    i += 1;
                    assert(w@ =~= v@.take(i as int));
                }
                assert(v@.take(n as int) =~= v@);
                MaybeOwnedVec::Owned(w)
            },
            MaybeOwnedVec::Slice(s) => MaybeOwnedVec::Slice(*s),
        }
    }
}

/// A trait for moving into an `MaybeOwnedVec`.
pub trait IntoMaybeOwnedVec<'r, T>: Sized {
    /// The elements that the value holds.
    spec fn elements(&self) -> Seq<T>;

    /// Moves `self` into an `MaybeOwnedVec`.
    fn into_maybe_owned_vec(self) -> (r: MaybeOwnedVec<'r, T>)
        ensures
            r@ == self.elements(),
    ;
}

impl<T> IntoMaybeOwnedVec<'static, T> for Vec<T> {
    open spec fn elements(&self) -> Seq<T> {
        self@
    }

    #[inline]
    fn into_maybe_owned_vec(self) -> (r: MaybeOwnedVec<'static, T>) {
        MaybeOwnedVec::Owned(self)
    }
}

impl<'r, T> IntoMaybeOwnedVec<'r, T> for &'r [T] {
    open spec fn elements(&self) -> Seq<T> {
        self@
    }

    #[inline]
    fn into_maybe_owned_vec(self) -> (r: MaybeOwnedVec<'r, T>) {
        MaybeOwnedVec::Slice(self)
    }
}

} // verus!
