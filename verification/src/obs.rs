//! Fixed-size observation vectors.

use vstd::prelude::*;
use crate::binary32::{fold, folds_to, is_zero, magnitude_of, INFINITY, ZERO};
use crate::error::Error;

verus! {

/// An observation: exactly `N` binary32 encodings.
#[derive(Debug, Clone, Copy, PartialEq)]
pub struct Obs<const N: usize> {
    data: [u32; N],
}

impl<const N: usize> View for Obs<N> {
    type V = Seq<u32>;

    closed spec fn view(&self) -> Seq<u32> {
        self.data@
    }
}

impl<const N: usize> Obs<N> {
    /// What `from_slice` makes of a sequence: its elements when there are
    /// exactly `N` of them, else a size error with `N` and the length found.
    pub open spec fn from_slice_spec(s: Seq<u32>) -> Result<Seq<u32>, Error> {
        if s.len() == N {
            Ok(s)
        } else {
            Err(Error::InvalidObsSize { expected: N, actual: s.len() as usize })
        }
    }

    /// An observation always has `N` elements.
    pub proof fn lemma_len(&self)
        ensures
            self@.len() == N,
    {
    }

    /// Wraps an array.
    pub fn new(data: [u32; N]) -> (r: Self)
        ensures
            r@ == data@,
    {
        Obs { data }
    }

    /// Copies a slice of exactly `N` elements; any other length is refused.
    pub fn from_slice(slice: &[u32]) -> (r: Result<Self, Error>)
        ensures
            r matches Ok(v) ==> Self::from_slice_spec(slice@) == Ok::<Seq<u32>, Error>(v@),
            r matches Err(e) ==> Self::from_slice_spec(slice@) == Err::<Seq<u32>, Error>(e),
    {
        if slice.len() != N {
            return Err(Error::InvalidObsSize { expected: N, actual: slice.len() });
        }
        let zero: u32 = 0;
        let mut data: [u32; N] = [zero;N];
        let mut i: usize = 0;
        while i < N
            invariant
                i <= N,
                slice@.len() == N,
                forall|k: int| 0 <= k < i ==> data@[k] == slice@[k],
            decreases N - i,
        {
            data[i] = slice[i];
            i += 1;
        }
        assert(data@ =~= slice@);
        Ok(Obs { data })
    }

    /// The elements as an array.
    pub fn as_array(&self) -> (r: &[u32; N])
        ensures
            r@ == self@,
    {
        &self.data
    }

    /// The elements as a slice.
    pub fn as_slice(&self) -> (r: &[u32])
        ensures
            r@ == self@,
    {
        self.data.as_slice()
    }

    /// The elements as a slice that can be written through.
    pub fn as_mut_slice(&mut self) -> (r: &mut [u32])
        ensures
            r@ == old(self)@,
            final(self)@ == final(r)@,
    {
        &mut self.data
    }

    /// The element at `index`, if there is one.
    pub fn get(&self, index: usize) -> (r: Option<u32>)
        ensures
            index < N ==> r == Some(self@[index as int]),
            index >= N ==> r is None,
    {
        if index < N {
            Some(self.data[index])
        } else {
            None
        }
    }

    /// Replaces the element at `index`. An index past the end is refused and
    /// leaves the observation as it was.
    pub fn set(&mut self, index: usize, value: u32) -> (r: Result<(), Error>)
        requires
            index < usize::MAX,
        ensures
            index < N ==> r is Ok && final(self)@ == old(self)@.update(index as int, value),
            index >= N ==> r == Err::<(), Error>(
                Error::InvalidObsSize { expected: N, actual: (index + 1) as usize },
            ) && final(self)@ == old(self)@,
    {
        if index >= N {
            return Err(Error::InvalidObsSize { expected: N, actual: index + 1 });
        }
        self.data[index] = value;
        Ok(())
    }

    /// Applies `f` to every element together with `with`.
    pub fn map_with<F: Fn(u32, u32) -> u32>(&self, with: u32, f: F) -> (r: Self)
        requires
            forall|i: int| 0 <= i < N ==> call_requires(f, (#[trigger] self@[i], with)),
        ensures
            forall|i: int| 0 <= i < N ==> call_ensures(f, (self@[i], with), #[trigger] r@[i]),
    {
        let mut data: [u32; N] = self.data;
        let mut i: usize = 0;
        while i < N
            invariant
                i <= N,
                forall|k: int| 0 <= k < N ==> call_requires(f, (#[trigger] self@[k], with)),
                forall|k: int|
                    0 <= k < i ==> call_ensures(f, (self@[k], with), #[trigger] data@[k]),
            decreases N - i,
        {
            let x: u32 = self.data[i];
            let y: u32 = f(x, with);
            data[i] = y;
            i += 1;
        }
        Obs { data }
    }

    /// Combines the two vectors element by element with `f`.
    pub fn zip_map<F: Fn(u32, u32) -> u32>(&self, other: &Self, f: F) -> (r: Self)
        requires
            forall|i: int| 0 <= i < N ==> call_requires(f, (#[trigger] self@[i], other@[i])),
        ensures
            forall|i: int|
                0 <= i < N ==> call_ensures(f, (self@[i], other@[i]), #[trigger] r@[i]),
    {
        let mut data: [u32; N] = self.data;
        let mut i: usize = 0;
        while i < N
            invariant
                i <= N,
                forall|k: int|
                    0 <= k < N ==> call_requires(f, (#[trigger] self@[k], other@[k])),
                forall|k: int|
                    0 <= k < i ==> call_ensures(f, (self@[k], other@[k]), #[trigger] data@[k]),
            decreases N - i,
        {
            let x: u32 = self.data[i];
            let y: u32 = other.data[i];
            assert(x == self@[i as int] && y == other@[i as int]);
            let z: u32 = f(x, y);
            data[i] = z;
            i += 1;
        }
        Obs { data }
    }

    /// Divides element by element. Where the divisor is a zero of either
    /// sign the result is positive infinity, whatever the dividend; elsewhere
    /// it is what `quotient` makes of dividend and divisor. Never fails.
    pub fn div<F: Fn(u32, u32) -> u32>(&self, other: &Self, quotient: F) -> (r: Result<
        Self,
        Error,
    >)
        requires
            forall|i: int|
                0 <= i < N && !is_zero(other@[i]) ==> call_requires(
                    quotient,
                    (#[trigger] self@[i], other@[i]),
                ),
        ensures
            r is Ok,
            forall|i: int|
                0 <= i < N && is_zero(other@[i]) ==> (#[trigger] r->Ok_0@[i]) == INFINITY,
            forall|i: int|
                0 <= i < N && !is_zero(other@[i]) ==> call_ensures(
                    quotient,
                    (self@[i], other@[i]),
                    #[trigger] r->Ok_0@[i],
                ),
    {
        let mut data: [u32; N] = self.data;
        let mut i: usize = 0;
        while i < N
            invariant
                i <= N,
                forall|k: int|
                    0 <= k < N && !is_zero(other@[k]) ==> call_requires(
                        quotient,
                        (#[trigger] self@[k], other@[k]),
                    ),
                forall|k: int| 0 <= k < i && is_zero(other@[k]) ==> (#[trigger] data@[k]) == INFINITY,
                forall|k: int|
                    0 <= k < i && !is_zero(other@[k]) ==> call_ensures(
                        quotient,
                        (self@[k], other@[k]),
                        #[trigger] data@[k],
                    ),
            decreases N - i,
        {
            let x: u32 = self.data[i];
            let y: u32 = other.data[i];
            assert(x == self@[i as int] && y == other@[i as int]);
            if magnitude_of(y) == 0 {
                data[i] = INFINITY;
            } else {
                let z: u32 = quotient(x, y);
                data[i] = z;
            }
            i += 1;
        }
        Ok(Obs { data })
    }

    /// The dot product with `other`: the products of matching elements,
    /// each as `product` gives it, folded from the left with `sum`, starting
    /// from `init`.
    pub fn dot<P: Fn(u32, u32) -> u32, S: Fn(u32, u32) -> u32>(
        &self,
        other: &Self,
        init: u32,
        product: P,
        sum: S,
    ) -> (r: u32)
        requires
            forall|a: u32, b: u32| call_requires(product, (a, b)),
            forall|a: u32, b: u32| call_requires(sum, (a, b)),
        ensures
            exists|products: Seq<u32>|
                {
                    &&& products.len() == N
                    &&& forall|i: int|
                        0 <= i < N ==> call_ensures(
                            product,
                            (self@[i], other@[i]),
                            #[trigger] products[i],
                        )
                    &&& folds_to(sum, products, init, r)
                },
    {
        let products: Self = self.zip_map(other, product);
        let r: u32 = fold(products.data.as_slice(), init, sum);
        assert(products@.len() == N);
        r
    }

    /// The length of the vector: the squares of the elements, each as
    /// `square` gives it, folded from the left with `sum`, starting from
    /// `init`, and then what `root` makes of the total.
    pub fn norm<Q: Fn(u32) -> u32, S: Fn(u32, u32) -> u32, R: FnOnce(u32) -> u32>(
        &self,
        init: u32,
        square: Q,
        sum: S,
        root: R,
    ) -> (r: u32)
        requires
            forall|a: u32| call_requires(square, (a,)),
            forall|a: u32, b: u32| call_requires(sum, (a, b)),
            forall|a: u32| call_requires(root, (a,)),
        ensures
            exists|squares: Seq<u32>, total: u32|
                {
                    &&& squares.len() == N
                    &&& forall|i: int|
                        0 <= i < N ==> call_ensures(square, (self@[i],), #[trigger] squares[i])
                    &&& folds_to(sum, squares, init, total)
                    &&& call_ensures(root, (total,), r)
                },
    {
        let squares: Self = self.map(square);
        let total: u32 = fold(squares.data.as_slice(), init, sum);
        let r: u32 = root(total);
        assert(squares@.len() == N);
        r
    }

    /// The vector scaled to unit length, given its length `norm`: all zeros
    /// when `norm` is a zero of either sign, else each element as `ratio`
    /// gives it for the element and `norm`.
    pub fn normalize<F: Fn(u32, u32) -> u32>(&self, norm: u32, ratio: F) -> (r: Self)
        requires
            forall|a: u32, b: u32| call_requires(ratio, (a, b)),
        ensures
            is_zero(norm) ==> r@ == Seq::new(N as nat, |i: int| ZERO),
            !is_zero(norm) ==> forall|i: int|
                0 <= i < N ==> call_ensures(ratio, (self@[i], norm), #[trigger] r@[i]),
    {
        if magnitude_of(norm) == 0 {
            let data: [u32; N] = [ZERO;N];
            return Obs { data };
        }
        self.map_with(norm, ratio)
    }

    /// Applies `f` to every element.
    pub fn map<F: Fn(u32) -> u32>(&self, f: F) -> (r: Self)
        requires
            forall|i: int| 0 <= i < N ==> call_requires(f, (#[trigger] self@[i],)),
        ensures
            forall|i: int| 0 <= i < N ==> call_ensures(f, (self@[i],), #[trigger] r@[i]),
    {
        let mut data: [u32; N] = self.data;
        let mut i: usize = 0;
        while i < N
            invariant
                i <= N,
                forall|k: int| 0 <= k < N ==> call_requires(f, (#[trigger] self@[k],)),
                forall|k: int| 0 <= k < i ==> call_ensures(f, (self@[k],), #[trigger] data@[k]),
            decreases N - i,
        {
            let x: u32 = self.data[i];
            assert(x == self@[i as int]);
            let y: u32 = f(x);
            data[i] = y;
            i += 1;
        }
        Obs { data }
    }
}

impl<const N: usize> Default for Obs<N> {
    /// The observation whose elements are all `+0.0`.
    fn default() -> (r: Self)
        ensures
            r@ == Seq::new(N as nat, |i: int| 0u32),
    {
        let zero: u32 = 0;
        let data: [u32; N] = [zero;N];
        Obs { data }
    }
}

impl<const N: usize> From<[u32; N]> for Obs<N> {
    /// Wraps an array.
    fn from(data: [u32; N]) -> (r: Self) {
        Obs { data }
    }
}

impl<const N: usize> vstd::std_specs::convert::FromSpecImpl<[u32; N]> for Obs<N> {
    open spec fn obeys_from_spec() -> bool {
        true
    }

    closed spec fn from_spec(data: [u32; N]) -> Self {
        Obs { data }
    }
}

/// An array whose first `k` elements are those of `s`.
spec fn array_upto<const N: usize>(s: Seq<u32>, k: nat) -> [u32; N]
    decreases k,
{
    if k == 0 {
        vstd::array::spec_array_fill_for_copy_type::<u32, N>(0u32)
    } else {
        vstd::array::spec_array_update(array_upto::<N>(s, (k - 1) as nat), k - 1, s[k - 1])
    }
}

proof fn lemma_array_upto<const N: usize>(s: Seq<u32>, k: nat)
    requires
        k <= N,
        s.len() == N,
    ensures
        forall|i: int| 0 <= i < k ==> array_upto::<N>(s, k)@[i] == s[i],
    decreases k,
{
    broadcast use vstd::array::group_array_axioms;

    if k > 0 {
        lemma_array_upto::<N>(s, (k - 1) as nat);
    }
}

impl<'a, const N: usize> TryFrom<&'a [u32]> for Obs<N> {
    type Error = Error;

    /// Copies a slice of exactly `N` elements; any other length is refused.
    fn try_from(slice: &'a [u32]) -> (r: Result<Self, Error>) {
        let r = Obs::from_slice(slice);
        proof {
            if slice@.len() == N {
                let data = choose|data: [u32; N]| data@ == slice@;
                assert(r->Ok_0.data =~= data);
            }
        }
        r
    }
}

impl<'a, const N: usize> vstd::std_specs::convert::TryFromSpecImpl<&'a [u32]> for Obs<N> {
    open spec fn obeys_try_from_spec() -> bool {
        true
    }

    closed spec fn try_from_spec(slice: &'a [u32]) -> Result<Self, Error> {
        if slice@.len() == N {
            Ok(Obs { data: choose|data: [u32; N]| data@ == slice@ })
        } else {
            Err(Error::InvalidObsSize { expected: N, actual: slice@.len() as usize })
        }
    }
}

/// A conversion from a slice gives what `from_slice` gives.
pub proof fn lemma_obs_try_from<const N: usize>(slice: &[u32])
    ensures
        match <Obs<N> as vstd::std_specs::convert::TryFromSpec<&[u32]>>::try_from_spec(slice) {
            Ok(v) => Obs::<N>::from_slice_spec(slice@) == Ok::<Seq<u32>, Error>(v@),
            Err(e) => Obs::<N>::from_slice_spec(slice@) == Err::<Seq<u32>, Error>(e),
        },
{
    if slice@.len() == N {
        lemma_array_upto::<N>(slice@, N as nat);
        assert(array_upto::<N>(slice@, N as nat)@ =~= slice@);
    }
}

/// The observation made from an array has the elements of the array.
pub proof fn lemma_obs_from_array<const N: usize>(data: [u32; N])
    ensures
        <Obs<N> as vstd::std_specs::convert::FromSpec<[u32; N]>>::from_spec(data)@ == data@,
{
}

/// A slice of exactly `N` elements is accepted, and the observation made from
/// it reads back as the same elements.
pub proof fn lemma_obs_from_slice_round_trip<const N: usize>(a: Seq<u32>)
    requires
        a.len() == N,
    ensures
        Obs::<N>::from_slice_spec(a) == Ok::<Seq<u32>, Error>(a),
{
}

/// A slice of any other length is refused with a size error that carries `N`
/// as the expected and the slice's length as the actual size.
pub proof fn lemma_obs_from_slice_wrong_size<const N: usize>(a: Seq<u32>)
    requires
        a.len() != N,
    ensures
        Obs::<N>::from_slice_spec(a) == Err::<Seq<u32>, Error>(
            Error::InvalidObsSize { expected: N, actual: a.len() as usize },
        ),
{
}

} // verus!
