//! A one-dimensional array of vertex indices, stored as an `ndarray` array.

use vstd::prelude::*;

verus! {

/// A one-dimensional `ndarray` array of `u32` vertex indices.
#[verifier::external_body]
#[derive(Debug)]
pub struct IndexArray {
    inner: ndarray::Array1<u32>,
}

/// The elements of an index array, in order.
pub uninterp spec fn index_array_contents(a: IndexArray) -> Seq<u32>;

impl View for IndexArray {
    type V = Seq<u32>;

    open spec fn view(&self) -> Seq<u32> {
        index_array_contents(*self)
    }
}

/// Trusted: `ndarray::Array::from_vec` builds a one-dimensional array that
/// holds the vector's elements in the same order.
#[verifier::external_body]
fn ndarray_from_vec(v: Vec<u32>) -> (a: IndexArray)
    ensures
        index_array_contents(a) == v@,
{
    IndexArray { inner: ndarray::Array::from_vec(v) }
}

/// Trusted: `ArrayBase::len` returns the number of elements.
#[verifier::external_body]
fn ndarray_len(a: &IndexArray) -> (n: usize)
    ensures
        n == index_array_contents(*a).len(),
{
    a.inner.len()
}

/// Trusted: indexing a one-dimensional array (`Index<usize>`) returns the
/// element at that position; it panics out of bounds, which `requires`
/// rules out.
#[verifier::external_body]
fn ndarray_index(a: &IndexArray, i: usize) -> (x: u32)
    requires
        i < a@.len(),
    ensures
        x == index_array_contents(*a)[i as int],
{
    a.inner[i]
}

/// Trusted: `&array + scalar` (ndarray's `Add<B> for &ArrayBase`) maps every
/// element `e` to `e + scalar`; `u32` addition panics on overflow in debug
/// builds, which `requires` rules out.
#[verifier::external_body]
fn ndarray_add_scalar(a: &IndexArray, k: u32) -> (r: IndexArray)
    requires
        forall|i: int| 0 <= i < a@.len() ==> a@[i] + k <= u32::MAX,
    ensures
        index_array_contents(r).len() == a@.len(),
        forall|i: int|
            0 <= i < a@.len() ==> index_array_contents(r)[i] == index_array_contents(*a)[i] + k,
{
    IndexArray { inner: &a.inner + k }
}

impl IndexArray {
    /// Builds an index array that holds `indices` in order.
    pub fn new(indices: Vec<u32>) -> (a: IndexArray)
        ensures
            a@ == indices@,
    {
        ndarray_from_vec(indices)
    }

    /// The number of indices.
    pub fn len(&self) -> (n: usize)
        ensures
            n == self@.len(),
    {
        ndarray_len(self)
    }

    /// The index at position `i`.
    pub fn get(&self, i: usize) -> (x: u32)
        requires
            i < self@.len(),
        ensures
            x == self@[i as int],
    {
        ndarray_index(self, i)
    }

    /// A new array with `k` added to every index.
    pub fn plus(&self, k: u32) -> (r: IndexArray)
        requires
            forall|i: int| 0 <= i < self@.len() ==> self@[i] + k <= u32::MAX,
        ensures
            r@.len() == self@.len(),
            forall|i: int| 0 <= i < self@.len() ==> r@[i] == self@[i] + k,
    {
        ndarray_add_scalar(self, k)
    }

    /// The indices, copied into a vector.
    pub fn to_vec(&self) -> (v: Vec<u32>)
        ensures
            v@ == self@,
    {
        let n = self.len();
        let mut v: Vec<u32> = Vec::new();
        let mut i: usize = 0;
        while i < n
            invariant
                n == self@.len(),
                i <= n,
                v@ == self@.subrange(0, i as int),
            decreases n - i,
        {
            let x = self.get(i);
            v.push(x);
            i = i + 1;
        }
        v
    }
}

impl Clone for IndexArray {
    /// A copy that holds the same indices.
    fn clone(&self) -> (r: Self)
        ensures
            r@ == self@,
    {
        IndexArray::new(self.to_vec())
    }
}

} // verus!
