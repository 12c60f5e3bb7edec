//! Fixed-size action vectors.

use vstd::prelude::*;
use crate::binary32::{
    all_within, clamp_to, clamped, every_within, first_max_index, fold, folds_to,
    index_of_first_max, is_zero, le, magnitude_of, maximum, maximum_of, minimum, minimum_of,
    INFINITY, ONE, ZERO,
};
use crate::error::Error;

verus! {

/// An action: exactly `M` binary32 encodings.
#[derive(Debug, Clone, Copy, PartialEq)]
pub struct Action<const M: usize> {
    data: [u32; M],
}

impl<const M: usize> View for Action<M> {
    type V = Seq<u32>;

    closed spec fn view(&self) -> Seq<u32> {
        self.data@
    }
}

impl<const M: usize> Action<M> {
    /// What `from_slice` makes of a sequence: its elements when there are
    /// exactly `M` of them, else a size error with `M` and the length found.
    pub open spec fn from_slice_spec(s: Seq<u32>) -> Result<Seq<u32>, Error> {
        if s.len() == M {
            Ok(s)
        } else {
            Err(Error::InvalidActionSize { expected: M, actual: s.len() as usize })
        }
    }

    /// The elements of the action that is `1.0` at `index` and `+0.0` elsewhere;
    /// an index past the end marks nothing.
    pub open spec fn one_hot_spec(index: int) -> Seq<u32> {
        Seq::new(M as nat, |i: int| if i == index { ONE } else { ZERO })
    }

    /// The first `M` elements of `values`, followed by `+0.0` where `values` is
    /// shorter than `M`.
    pub open spec fn from_prefix_spec(values: Seq<u32>) -> Seq<u32> {
        Seq::new(M as nat, |i: int| if i < values.len() { values[i] } else { ZERO })
    }

    /// An action always has `M` elements.
    pub proof fn lemma_len(&self)
        ensures
            self@.len() == M,
    {
    }

    /// Wraps an array.
    pub fn new(data: [u32; M]) -> (r: Self)
        ensures
            r@ == data@,
    {
        Action { data }
    }

    /// Copies a slice of exactly `M` elements; any other length is refused.
    pub fn from_slice(slice: &[u32]) -> (r: Result<Self, Error>)
        ensures
            r matches Ok(v) ==> Self::from_slice_spec(slice@) == Ok::<Seq<u32>, Error>(v@),
            r matches Err(e) ==> Self::from_slice_spec(slice@) == Err::<Seq<u32>, Error>(e),
    {
        if slice.len() != M {
            return Err(Error::InvalidActionSize { expected: M, actual: slice.len() });
        }
        let zero: u32 = 0;
        let mut data: [u32; M] = [zero;M];
        let mut i: usize = 0;
        while i < M
            invariant
                i <= M,
                slice@.len() == M,
                forall|k: int| 0 <= k < i ==> data@[k] == slice@[k],
            decreases M - i,
        {
            data[i] = slice[i];
            i += 1;
        }
        assert(data@ =~= slice@);
        Ok(Action { data })
    }

    /// Takes the leading elements of `values`, dropping what does not fit and
    /// filling what is missing with `+0.0`.
    pub fn from_prefix(values: &[u32]) -> (r: Self)
        ensures
            r@ == Self::from_prefix_spec(values@),
    {
        let mut data: [u32; M] = [ZERO;M];
        let n: usize = values.len();
        let mut i: usize = 0;
        while i < M && i < n
            invariant
                i <= M,
                i <= n,
                n == values@.len(),
                forall|k: int| 0 <= k < i ==> data@[k] == values@[k],
                forall|k: int| i <= k < M ==> data@[k] == ZERO,
            decreases M - i,
        {
            data[i] = values[i];
            i += 1;
        }
        Action { data }
    }

    /// The action that is `1.0` at `index` and `+0.0` elsewhere. An index past
    /// the end gives the all-zero action.
    pub fn one_hot(index: usize) -> (r: Self)
        ensures
            r@ == Self::one_hot_spec(index as int),
    {
        let mut data: [u32; M] = [ZERO;M];
        if index < M {
            data[index] = ONE;
        }
        Action { data }
    }

    /// The elements as an array.
    pub fn as_array(&self) -> (r: &[u32; M])
        ensures
            r@ == self@,
    {
        &self.data
    }

    /// The elements as a slice.
    pub fn as_slice(&self) -> (r: &[u32])
        ensures
            r@ == self@,
    {
        self.data.as_slice()
    }

    /// The elements as a slice that can be written through.
    pub fn as_mut_slice(&mut self) -> (r: &mut [u32])
        ensures
            r@ == old(self)@,
            final(self)@ == final(r)@,
    {
        &mut self.data
    }

    /// The element at `index`, if there is one.
    pub fn get(&self, index: usize) -> (r: Option<u32>)
        ensures
            index < M ==> r == Some(self@[index as int]),
            index >= M ==> r is None,
    {
        if index < M {
            Some(self.data[index])
        } else {
            None
        }
    }

    /// Replaces the element at `index`. An index past the end is refused and
    /// leaves the action as it was.
    pub fn set(&mut self, index: usize, value: u32) -> (r: Result<(), Error>)
        requires
            index < usize::MAX,
        ensures
            index < M ==> r is Ok && final(self)@ == old(self)@.update(index as int, value),
            index >= M ==> r == Err::<(), Error>(
                Error::InvalidActionSize { expected: M, actual: (index + 1) as usize },
            ) && final(self)@ == old(self)@,
    {
        if index >= M {
            return Err(Error::InvalidActionSize { expected: M, actual: index + 1 });
        }
        self.data[index] = value;
        Ok(())
    }

    /// Applies `f` to every element together with `with`.
    pub fn map_with<F: Fn(u32, u32) -> u32>(&self, with: u32, f: F) -> (r: Self)
        requires
            forall|i: int| 0 <= i < M ==> call_requires(f, (#[trigger] self@[i], with)),
        ensures
            forall|i: int| 0 <= i < M ==> call_ensures(f, (self@[i], with), #[trigger] r@[i]),
    {
        let mut data: [u32; M] = self.data;
        let mut i: usize = 0;
        while i < M
            invariant
                i <= M,
                forall|k: int| 0 <= k < M ==> call_requires(f, (#[trigger] self@[k], with)),
                forall|k: int|
                    0 <= k < i ==> call_ensures(f, (self@[k], with), #[trigger] data@[k]),
            decreases M - i,
        {
            let x: u32 = self.data[i];
            let y: u32 = f(x, with);
            data[i] = y;
            i += 1;
        }
        Action { data }
    }

    /// Combines the two vectors element by element with `f`.
    pub fn zip_map<F: Fn(u32, u32) -> u32>(&self, other: &Self, f: F) -> (r: Self)
        requires
            forall|i: int| 0 <= i < M ==> call_requires(f, (#[trigger] self@[i], other@[i])),
        ensures
            forall|i: int|
                0 <= i < M ==> call_ensures(f, (self@[i], other@[i]), #[trigger] r@[i]),
    {
        let mut data: [u32; M] = self.data;
        let mut i: usize = 0;
        while i < M
            invariant
                i <= M,
                forall|k: int|
                    0 <= k < M ==> call_requires(f, (#[trigger] self@[k], other@[k])),
                forall|k: int|
                    0 <= k < i ==> call_ensures(f, (self@[k], other@[k]), #[trigger] data@[k]),
            decreases M - i,
        {
            let x: u32 = self.data[i];
            let y: u32 = other.data[i];
            assert(x == self@[i as int] && y == other@[i as int]);
            let z: u32 = f(x, y);
            data[i] = z;
            i += 1;
        }
        Action { data }
    }

    /// Divides element by element. Where the divisor is a zero of either
    /// sign the result is positive infinity, whatever the dividend; elsewhere
    /// it is what `quotient` makes of dividend and divisor. Never fails.
    pub fn div<F: Fn(u32, u32) -> u32>(&self, other: &Self, quotient: F) -> (r: Result<
        Self,
        Error,
    >)
        requires
            forall|i: int|
                0 <= i < M && !is_zero(other@[i]) ==> call_requires(
                    quotient,
                    (#[trigger] self@[i], other@[i]),
                ),
        ensures
            r is Ok,
            forall|i: int|
                0 <= i < M && is_zero(other@[i]) ==> (#[trigger] r->Ok_0@[i]) == INFINITY,
            forall|i: int|
                0 <= i < M && !is_zero(other@[i]) ==> call_ensures(
                    quotient,
                    (self@[i], other@[i]),
                    #[trigger] r->Ok_0@[i],
                ),
    {
        let mut data: [u32; M] = self.data;
        let mut i: usize = 0;
        while i < M
            invariant
                i <= M,
                forall|k: int|
                    0 <= k < M && !is_zero(other@[k]) ==> call_requires(
                        quotient,
                        (#[trigger] self@[k], other@[k]),
                    ),
                forall|k: int| 0 <= k < i && is_zero(other@[k]) ==> (#[trigger] data@[k]) == INFINITY,
                forall|k: int|
                    0 <= k < i && !is_zero(other@[k]) ==> call_ensures(
                        quotient,
                        (self@[k], other@[k]),
                        #[trigger] data@[k],
                    ),
            decreases M - i,
        {
            let x: u32 = self.data[i];
            let y: u32 = other.data[i];
            assert(x == self@[i as int] && y == other@[i as int]);
            if magnitude_of(y) == 0 {
                data[i] = INFINITY;
            } else {
                let z: u32 = quotient(x, y);
                data[i] = z;
            }
            i += 1;
        }
        Ok(Action { data })
    }

    /// Applies `f` to every element.
    pub fn map<F: Fn(u32) -> u32>(&self, f: F) -> (r: Self)
        requires
            forall|i: int| 0 <= i < M ==> call_requires(f, (#[trigger] self@[i],)),
        ensures
            forall|i: int| 0 <= i < M ==> call_ensures(f, (self@[i],), #[trigger] r@[i]),
    {
        let mut data: [u32; M] = self.data;
        let mut i: usize = 0;
        while i < M
            invariant
                i <= M,
                forall|k: int| 0 <= k < M ==> call_requires(f, (#[trigger] self@[k],)),
                forall|k: int| 0 <= k < i ==> call_ensures(f, (self@[k],), #[trigger] data@[k]),
            decreases M - i,
        {
            let x: u32 = self.data[i];
            assert(x == self@[i as int]);
            let y: u32 = f(x);
            data[i] = y;
            i += 1;
        }
        Action { data }
    }

    /// Every element times `factor`, each as `product` gives it.
    pub fn scale<F: Fn(u32, u32) -> u32>(&self, factor: u32, product: F) -> (r: Self)
        requires
            forall|i: int| 0 <= i < M ==> call_requires(product, (#[trigger] self@[i], factor)),
        ensures
            forall|i: int|
                0 <= i < M ==> call_ensures(product, (self@[i], factor), #[trigger] r@[i]),
    {
        self.map_with(factor, product)
    }

    /// The softmax of the action. The largest element is found first; each
    /// element and that maximum give an exponential through `shifted_exp`;
    /// the exponentials are folded from the left with `sum`, starting from
    /// `init`; and each exponential and the total give an element of the
    /// result through `ratio`. The three stand for `exp(x - max)`, addition
    /// and division.
    pub fn softmax<E, S, R>(&self, init: u32, shifted_exp: E, sum: S, ratio: R) -> (r: Self) where
        E: Fn(u32, u32) -> u32,
        S: Fn(u32, u32) -> u32,
        R: Fn(u32, u32) -> u32,

        requires
            forall|a: u32, b: u32| call_requires(shifted_exp, (a, b)),
            forall|a: u32, b: u32| call_requires(sum, (a, b)),
            forall|a: u32, b: u32| call_requires(ratio, (a, b)),
        ensures
            exists|exps: Seq<u32>, total: u32|
                {
                    &&& exps.len() == M
                    &&& forall|i: int|
                        0 <= i < M ==> call_ensures(
                            shifted_exp,
                            (self@[i], maximum(self@)),
                            #[trigger] exps[i],
                        )
                    &&& folds_to(sum, exps, init, total)
                    &&& forall|i: int|
                        0 <= i < M ==> call_ensures(ratio, (exps[i], total), #[trigger] r@[i])
                },
    {
        let max_val: u32 = self.max();
        let exps: Self = self.map_with(max_val, shifted_exp);
        let total: u32 = fold(exps.data.as_slice(), init, sum);
        exps.map_with(total, ratio)
    }

    /// Holds every element to the interval from `min` to `max`.
    pub fn clamp(&self, min: u32, max: u32) -> (r: Self)
        requires
            le(min, max),
        ensures
            r@ == Seq::new(M as nat, |i: int| clamped(self@[i], min, max)),
    {
        let mut data: [u32; M] = self.data;
        let mut i: usize = 0;
        while i < M
            invariant
                i <= M,
                forall|k: int| 0 <= k < i ==> data@[k] == clamped(self@[k], min, max),
                forall|k: int| i <= k < M ==> data@[k] == self@[k],
            decreases M - i,
        {
            data[i] = clamp_to(data[i], min, max);
            i += 1;
        }
        Action { data }
    }

    /// The index of the largest element, the first one among equals.
    pub fn argmax(&self) -> (r: usize)
        ensures
            r == first_max_index(self@),
            M > 0 ==> r < M,
    {
        index_of_first_max(self.data.as_slice())
    }

    /// The largest element, NaNs passed over.
    pub fn max(&self) -> (r: u32)
        ensures
            r == maximum(self@),
    {
        maximum_of(self.data.as_slice())
    }

    /// The smallest element, NaNs passed over.
    pub fn min(&self) -> (r: u32)
        ensures
            r == minimum(self@),
    {
        minimum_of(self.data.as_slice())
    }

    /// Whether every element lies in the closed interval from `min` to `max`.
    pub fn is_within_bounds(&self, min: u32, max: u32) -> (r: bool)
        ensures
            r == all_within(self@, min, max),
    {
        every_within(self.data.as_slice(), min, max)
    }
}

impl<const M: usize> Default for Action<M> {
    /// The action whose elements are all `+0.0`.
    fn default() -> (r: Self)
        ensures
            r@ == Seq::new(M as nat, |i: int| 0u32),
    {
        let zero: u32 = 0;
        let data: [u32; M] = [zero;M];
        Action { data }
    }
}

impl<const M: usize> From<[u32; M]> for Action<M> {
    /// Wraps an array.
    fn from(data: [u32; M]) -> (r: Self) {
        Action { data }
    }
}

impl<const M: usize> vstd::std_specs::convert::FromSpecImpl<[u32; M]> for Action<M> {
    open spec fn obeys_from_spec() -> bool {
        true
    }

    closed spec fn from_spec(data: [u32; M]) -> Self {
        Action { data }
    }
}

/// An array whose first `k` elements are those of `s`.
spec fn array_upto<const M: usize>(s: Seq<u32>, k: nat) -> [u32; M]
    decreases k,
{
    if k == 0 {
        vstd::array::spec_array_fill_for_copy_type::<u32, M>(0u32)
    } else {
        vstd::array::spec_array_update(array_upto::<M>(s, (k - 1) as nat), k - 1, s[k - 1])
    }
}

proof fn lemma_array_upto<const M: usize>(s: Seq<u32>, k: nat)
    requires
        k <= M,
        s.len() == M,
    ensures
        forall|i: int| 0 <= i < k ==> array_upto::<M>(s, k)@[i] == s[i],
    decreases k,
{
    broadcast use vstd::array::group_array_axioms;

    if k > 0 {
        lemma_array_upto::<M>(s, (k - 1) as nat);
    }
}

impl<'a, const M: usize> TryFrom<&'a [u32]> for Action<M> {
    type Error = Error;

    /// Copies a slice of exactly `M` elements; any other length is refused.
    fn try_from(slice: &'a [u32]) -> (r: Result<Self, Error>) {
        let r = Action::from_slice(slice);
        proof {
            if slice@.len() == M {
                let data = choose|data: [u32; M]| data@ == slice@;
                assert(r->Ok_0.data =~= data);
            }
        }
        r
    }
}

impl<'a, const M: usize> vstd::std_specs::convert::TryFromSpecImpl<&'a [u32]> for Action<M> {
    open spec fn obeys_try_from_spec() -> bool {
        true
    }

    closed spec fn try_from_spec(slice: &'a [u32]) -> Result<Self, Error> {
        if slice@.len() == M {
            Ok(Action { data: choose|data: [u32; M]| data@ == slice@ })
        } else {
            Err(Error::InvalidActionSize { expected: M, actual: slice@.len() as usize })
        }
    }
}

/// A conversion from a slice gives what `from_slice` gives.
pub proof fn lemma_action_try_from<const M: usize>(slice: &[u32])
    ensures
        match <Action<M> as vstd::std_specs::convert::TryFromSpec<&[u32]>>::try_from_spec(slice) {
            Ok(v) => Action::<M>::from_slice_spec(slice@) == Ok::<Seq<u32>, Error>(v@),
            Err(e) => Action::<M>::from_slice_spec(slice@) == Err::<Seq<u32>, Error>(e),
        },
{
    if slice@.len() == M {
        lemma_array_upto::<M>(slice@, M as nat);
        assert(array_upto::<M>(slice@, M as nat)@ =~= slice@);
    }
}

/// The action made from an array has the elements of the array.
pub proof fn lemma_action_from_array<const M: usize>(data: [u32; M])
    ensures
        <Action<M> as vstd::std_specs::convert::FromSpec<[u32; M]>>::from_spec(data)@ == data@,
{
}

/// A slice of exactly `M` elements is accepted, and the action made from it
/// reads back as the same elements.
pub proof fn lemma_action_from_slice_round_trip<const M: usize>(a: Seq<u32>)
    requires
        a.len() == M,
    ensures
        Action::<M>::from_slice_spec(a) == Ok::<Seq<u32>, Error>(a),
{
}

/// A slice of any other length is refused with a size error that carries `M`
/// as the expected and the slice's length as the actual size.
pub proof fn lemma_action_from_slice_wrong_size<const M: usize>(a: Seq<u32>)
    requires
        a.len() != M,
    ensures
        Action::<M>::from_slice_spec(a) == Err::<Seq<u32>, Error>(
            Error::InvalidActionSize { expected: M, actual: a.len() as usize },
        ),
{
}

} // verus!
