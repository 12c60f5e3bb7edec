//! IEEE 754 binary32 values held as their 32-bit encodings.
//!
//! An encoding has a sign bit (the top bit), eight exponent bits and
//! twenty-three fraction bits. Everything here is a function of the encoding
//! alone: classification, the numeric order, and the selection of the larger or
//! smaller of two values. No arithmetic on the encoded values is performed.

use vstd::prelude::*;

verus! {

/// Encoding of `+0.0`.
pub const ZERO: u32 = 0;

/// Encoding of `1.0`.
pub const ONE: u32 = 0x3F80_0000;

/// Encoding of `-1.0`.
pub const NEG_ONE: u32 = 0xBF80_0000;

/// Encoding of positive infinity.
pub const INFINITY: u32 = 0x7F80_0000;

/// Encoding of negative infinity.
pub const NEG_INFINITY: u32 = 0xFF80_0000;

/// The sign bit of an encoding.
pub const SIGN_BIT: u32 = 0x8000_0000;

/// Whether the sign bit is set.
pub open spec fn is_negative(bits: u32) -> bool {
    bits >= SIGN_BIT
}

/// The encoding with its sign bit cleared: exponent and fraction, read as one
/// integer. Among values of one sign a larger magnitude is further from zero.
pub open spec fn magnitude(bits: u32) -> int {
    if bits >= SIGN_BIT {
        bits - SIGN_BIT
    } else {
        bits as int
    }
}

/// Not a number: all exponent bits set and a fraction other than zero.
pub open spec fn is_nan(bits: u32) -> bool {
    magnitude(bits) > INFINITY
}

/// Neither an infinity nor a NaN: some exponent bit is clear.
pub open spec fn is_finite(bits: u32) -> bool {
    magnitude(bits) < INFINITY
}

/// Positive or negative zero.
pub open spec fn is_zero(bits: u32) -> bool {
    magnitude(bits) == 0
}

/// The place of a value in the numeric order: for encodings `a` and `b` that
/// are not NaN, `a` is numerically below `b` exactly when `rank(a) < rank(b)`.
/// Both zeros have rank 0.
pub open spec fn rank(bits: u32) -> int {
    if is_negative(bits) {
        -magnitude(bits)
    } else {
        magnitude(bits)
    }
}

/// Numeric `a < b`. False when either side is NaN.
pub open spec fn lt(a: u32, b: u32) -> bool {
    !is_nan(a) && !is_nan(b) && rank(a) < rank(b)
}

/// Numeric `a <= b`. False when either side is NaN.
pub open spec fn le(a: u32, b: u32) -> bool {
    !is_nan(a) && !is_nan(b) && rank(a) <= rank(b)
}

/// Numeric `a == b`: the zeros are equal to each other, a NaN to nothing.
pub open spec fn numerically_equal(a: u32, b: u32) -> bool {
    !is_nan(a) && !is_nan(b) && rank(a) == rank(b)
}

/// Whether `min <= x <= max` numerically.
pub open spec fn within(x: u32, min: u32, max: u32) -> bool {
    le(min, x) && le(x, max)
}

/// The larger of two values, a NaN giving way to the other side. Of two
/// numerically equal values the first is kept.
pub open spec fn larger(a: u32, b: u32) -> u32 {
    if is_nan(b) {
        a
    } else if is_nan(a) {
        b
    } else if rank(a) < rank(b) {
        b
    } else {
        a
    }
}

/// The smaller of two values, a NaN giving way to the other side. Of two
/// numerically equal values the first is kept.
pub open spec fn smaller(a: u32, b: u32) -> u32 {
    if is_nan(b) {
        a
    } else if is_nan(a) {
        b
    } else if rank(b) < rank(a) {
        b
    } else {
        a
    }
}

/// `x` held to the interval from `min` to `max`: `min` when `x` is below it,
/// `max` when `x` is above it, else `x` itself. A NaN stays as it is.
pub open spec fn clamped(x: u32, min: u32, max: u32) -> u32 {
    if lt(x, min) {
        min
    } else if lt(max, x) {
        max
    } else {
        x
    }
}

/// Computes `magnitude`.
pub fn magnitude_of(bits: u32) -> (m: u32)
    ensures
        m == magnitude(bits),
{
    if bits >= SIGN_BIT {
        bits - SIGN_BIT
    } else {
        bits
    }
}

/// Computes `is_nan`.
pub fn nan(bits: u32) -> (r: bool)
    ensures
        r == is_nan(bits),
{
    magnitude_of(bits) > INFINITY
}

/// Computes `is_finite`.
pub fn finite(bits: u32) -> (r: bool)
    ensures
        r == is_finite(bits),
{
    magnitude_of(bits) < INFINITY
}

/// Computes `rank`.
pub fn rank_of(bits: u32) -> (r: i64)
    ensures
        r == rank(bits),
{
    let m: i64 = magnitude_of(bits) as i64;
    if bits >= SIGN_BIT {
        -m
    } else {
        m
    }
}

/// Computes `lt`.
pub fn less(a: u32, b: u32) -> (r: bool)
    ensures
        r == lt(a, b),
{
    !nan(a) && !nan(b) && rank_of(a) < rank_of(b)
}

/// Computes `le`.
pub fn less_or_equal(a: u32, b: u32) -> (r: bool)
    ensures
        r == le(a, b),
{
    !nan(a) && !nan(b) && rank_of(a) <= rank_of(b)
}

/// Computes `larger`.
pub fn larger_of(a: u32, b: u32) -> (r: u32)
    ensures
        r == larger(a, b),
{
    if nan(b) {
        a
    } else if nan(a) {
        b
    } else if rank_of(a) < rank_of(b) {
        b
    } else {
        a
    }
}

/// Computes `smaller`.
pub fn smaller_of(a: u32, b: u32) -> (r: u32)
    ensures
        r == smaller(a, b),
{
    if nan(b) {
        a
    } else if nan(a) {
        b
    } else if rank_of(b) < rank_of(a) {
        b
    } else {
        a
    }
}

/// Computes `clamped`.
pub fn clamp_to(x: u32, min: u32, max: u32) -> (r: u32)
    ensures
        r == clamped(x, min, max),
{
    if less(x, min) {
        min
    } else if less(max, x) {
        max
    } else {
        x
    }
}

/// On values that are not NaN the order is total, and a clamped value lies in
/// the interval whenever the interval is not empty.
pub proof fn lemma_order(a: u32, b: u32, x: u32)
    requires
        !is_nan(a),
        !is_nan(b),
    ensures
        lt(a, b) || numerically_equal(a, b) || lt(b, a),
        le(a, b) <==> !lt(b, a),
        le(a, b) && !is_nan(x) ==> within(clamped(x, a, b), a, b),
        within(x, a, b) ==> clamped(x, a, b) == x,
        within(x, NEG_ONE, ONE) ==> is_finite(x),
{
}

/// Every element lies in the closed interval from `min` to `max`.
pub open spec fn all_within(s: Seq<u32>, min: u32, max: u32) -> bool {
    forall|i: int| 0 <= i < s.len() ==> within(#[trigger] s[i], min, max)
}

/// Every element is finite.
pub open spec fn all_finite(s: Seq<u32>) -> bool {
    forall|i: int| 0 <= i < s.len() ==> is_finite(#[trigger] s[i])
}

/// No element is a NaN.
pub open spec fn none_nan(s: Seq<u32>) -> bool {
    forall|i: int| 0 <= i < s.len() ==> !is_nan(#[trigger] s[i])
}

/// The index that a left-to-right scan settles on when it moves only to an
/// element numerically above the one it holds; 0 for an empty sequence.
pub open spec fn first_max_index(s: Seq<u32>) -> int
    decreases s.len(),
{
    if s.len() <= 1 {
        0
    } else {
        let held = first_max_index(s.drop_last());
        if lt(s[held], s.last()) {
            s.len() - 1
        } else {
            held
        }
    }
}

/// The largest element, NaNs passed over; negative infinity when there is none.
pub open spec fn maximum(s: Seq<u32>) -> u32
    decreases s.len(),
{
    if s.len() == 0 {
        NEG_INFINITY
    } else {
        larger(maximum(s.drop_last()), s.last())
    }
}

/// The smallest element, NaNs passed over; positive infinity when there is none.
pub open spec fn minimum(s: Seq<u32>) -> u32
    decreases s.len(),
{
    if s.len() == 0 {
        INFINITY
    } else {
        smaller(minimum(s.drop_last()), s.last())
    }
}

/// The scan stays inside the sequence.
pub proof fn lemma_first_max_index_in_range(s: Seq<u32>)
    ensures
        0 <= first_max_index(s),
        s.len() > 0 ==> first_max_index(s) < s.len(),
    decreases s.len(),
{
    if s.len() > 1 {
        lemma_first_max_index_in_range(s.drop_last());
    }
}

/// Without NaNs the scan ends on a maximal element, and on the first such:
/// nothing is above it and everything before it is strictly below it.
pub proof fn lemma_first_max_index_is_first_max(s: Seq<u32>)
    requires
        s.len() > 0,
        none_nan(s),
    ensures
        0 <= first_max_index(s) < s.len(),
        forall|j: int| 0 <= j < s.len() ==> rank(#[trigger] s[j]) <= rank(s[first_max_index(s)]),
        forall|j: int|
            0 <= j < first_max_index(s) ==> rank(#[trigger] s[j]) < rank(s[first_max_index(s)]),
    decreases s.len(),
{
    if s.len() > 1 {
        let front = s.drop_last();
        lemma_first_max_index_is_first_max(front);
        let held = first_max_index(front);
        assert(forall|j: int| 0 <= j < front.len() ==> front[j] == s[j]);
    }
}

/// The maximum is never a NaN, no element that is a number exceeds it, and it
/// is negative infinity or one of the elements.
pub proof fn lemma_maximum(s: Seq<u32>)
    ensures
        !is_nan(maximum(s)),
        forall|j: int|
            0 <= j < s.len() && !is_nan(#[trigger] s[j]) ==> rank(s[j]) <= rank(maximum(s)),
        maximum(s) == NEG_INFINITY || exists|j: int| 0 <= j < s.len() && s[j] == maximum(s),
    decreases s.len(),
{
    if s.len() > 0 {
        let front = s.drop_last();
        lemma_maximum(front);
        assert(forall|j: int| 0 <= j < front.len() ==> front[j] == s[j]);
    }
}

/// The minimum is never a NaN, no element that is a number is below it, and it
/// is positive infinity or one of the elements.
pub proof fn lemma_minimum(s: Seq<u32>)
    ensures
        !is_nan(minimum(s)),
        forall|j: int|
            0 <= j < s.len() && !is_nan(#[trigger] s[j]) ==> rank(minimum(s)) <= rank(s[j]),
        minimum(s) == INFINITY || exists|j: int| 0 <= j < s.len() && s[j] == minimum(s),
    decreases s.len(),
{
    if s.len() > 0 {
        let front = s.drop_last();
        lemma_minimum(front);
        assert(forall|j: int| 0 <= j < front.len() ==> front[j] == s[j]);
    }
}

/// Computes `first_max_index`.
pub fn index_of_first_max(s: &[u32]) -> (r: usize)
    ensures
        r == first_max_index(s@),
        s@.len() > 0 ==> r < s@.len(),
{
    let n: usize = s.len();
    if n == 0 {
        return 0;
    }
    let mut held: usize = 0;
    let mut i: usize = 1;
    while i < n
        invariant
            n == s@.len(),
            1 <= i <= n,
            held < i,
            held == first_max_index(s@.take(i as int)),
        decreases n - i,
    {
        proof {
            assert(s@.take(i + 1).drop_last() =~= s@.take(i as int));
        }
        if less(s[held], s[i]) {
            held = i;
        }
        i += 1;
    }
    assert(s@.take(n as int) =~= s@);
    held
}

/// Computes `maximum`.
pub fn maximum_of(s: &[u32]) -> (r: u32)
    ensures
        r == maximum(s@),
{
    let n: usize = s.len();
    let mut best: u32 = NEG_INFINITY;
    let mut i: usize = 0;
    while i < n
        invariant
            n == s@.len(),
            i <= n,
            best == maximum(s@.take(i as int)),
        decreases n - i,
    {
        proof {
            assert(s@.take(i + 1).drop_last() =~= s@.take(i as int));
        }
        best = larger_of(best, s[i]);
        i += 1;
    }
    assert(s@.take(n as int) =~= s@);
    best
}

/// Computes `minimum`.
pub fn minimum_of(s: &[u32]) -> (r: u32)
    ensures
        r == minimum(s@),
{
    let n: usize = s.len();
    let mut best: u32 = INFINITY;
    let mut i: usize = 0;
    while i < n
        invariant
            n == s@.len(),
            i <= n,
            best == minimum(s@.take(i as int)),
        decreases n - i,
    {
        proof {
            assert(s@.take(i + 1).drop_last() =~= s@.take(i as int));
        }
        best = smaller_of(best, s[i]);
        i += 1;
    }
    assert(s@.take(n as int) =~= s@);
    best
}

/// Decides `all_within`.
pub fn every_within(s: &[u32], min: u32, max: u32) -> (r: bool)
    ensures
        r == all_within(s@, min, max),
{
    let n: usize = s.len();
    let mut i: usize = 0;
    while i < n
        invariant
            n == s@.len(),
            i <= n,
            forall|k: int| 0 <= k < i ==> within(#[trigger] s@[k], min, max),
        decreases n - i,
    {
        if !(less_or_equal(min, s[i]) && less_or_equal(s[i], max)) {
            return false;
        }
        i += 1;
    }
    true
}

/// Decides `all_finite`.
pub fn every_finite(s: &[u32]) -> (r: bool)
    ensures
        r == all_finite(s@),
{
    let n: usize = s.len();
    let mut i: usize = 0;
    while i < n
        invariant
            n == s@.len(),
            i <= n,
            forall|k: int| 0 <= k < i ==> is_finite(#[trigger] s@[k]),
        decreases n - i,
    {
        if !finite(s[i]) {
            return false;
        }
        i += 1;
    }
    true
}

/// Whether folding `s` from the left with `f`, starting from `init`, can end
/// in `out`.
pub open spec fn folds_to<F: Fn(u32, u32) -> u32>(f: F, s: Seq<u32>, init: u32, out: u32) -> bool
    decreases s.len(),
{
    if s.len() == 0 {
        out == init
    } else {
        exists|mid: u32|
            folds_to(f, s.drop_last(), init, mid) && #[trigger] call_ensures(
                f,
                (mid, s.last()),
                out,
            )
    }
}

/// A fold over a run that is not empty ends with one application of `f`: to
/// a value that the fold over all but the last element can end in, and the
/// last element.
pub proof fn lemma_fold_last_step<F: Fn(u32, u32) -> u32>(f: F, s: Seq<u32>, init: u32, out: u32)
    requires
        folds_to(f, s, init, out),
        s.len() > 0,
    ensures
        exists|mid: u32|
            folds_to(f, s.drop_last(), init, mid) && #[trigger] call_ensures(
                f,
                (mid, s.last()),
                out,
            ),
{
}

/// Folds a run from the left: `f(... f(f(init, s[0]), s[1]) ..., s[n - 1])`.
pub fn fold<F: Fn(u32, u32) -> u32>(s: &[u32], init: u32, f: F) -> (r: u32)
    requires
        forall|acc: u32, x: u32| call_requires(f, (acc, x)),
    ensures
        folds_to(f, s@, init, r),
{
    let n: usize = s.len();
    let mut acc: u32 = init;
    let mut i: usize = 0;
    while i < n
        invariant
            n == s@.len(),
            i <= n,
            forall|acc: u32, x: u32| call_requires(f, (acc, x)),
            folds_to(f, s@.take(i as int), init, acc),
        decreases n - i,
    {
        let next: u32 = f(acc, s[i]);
        proof {
            let longer = s@.take(i + 1);
            assert(longer.drop_last() =~= s@.take(i as int));
            assert(longer.last() == s@[i as int]);
        }
        acc = next;
        i += 1;
    }
    assert(s@.take(n as int) =~= s@);
    acc
}

/// A run of `n` encodings of `+0.0`.
pub fn zeros(n: usize) -> (v: Vec<u32>)
    ensures
        v@ == Seq::new(n as nat, |i: int| ZERO),
{
    let mut v: Vec<u32> = Vec::new();
    let mut i: usize = 0;
    while i < n
        invariant
            i <= n,
            v@ == Seq::new(i as nat, |k: int| ZERO),
        decreases n - i,
    {
        v.push(ZERO);
        i += 1;
    }
    v
}

/// A run of `n` encodings of `+0.0`, or nothing when the memory for it
/// cannot be had. The memory is asked for before anything is written.
pub fn try_zeros(n: usize) -> (r: Option<Vec<u32>>)
    ensures
        r matches Some(v) ==> v@ == Seq::new(n as nat, |i: int| ZERO),
{
    let mut v: Vec<u32> = Vec::new();
    if v.try_reserve(n).is_err() {
        return None;
    }
    let mut i: usize = 0;
    while i < n
        invariant
            i <= n,
            v@ == Seq::new(i as nat, |k: int| ZERO),
        decreases n - i,
    {
        v.push(ZERO);
        assert(v@ =~= Seq::new((i + 1) as nat, |k: int| ZERO));
        i += 1;
    }
    Some(v)
}

} // verus!
