//! Pieces that the algorithms share: the affine map of a layer and the
//! rectifier.

use vstd::prelude::*;
use crate::action::Action;
use crate::binary32::{less, lt, ZERO};
use crate::obs::Obs;

verus! {

/// The rectified value: `x` when it is above zero, else `+0.0`. A NaN and a
/// zero of either sign give `+0.0`.
pub open spec fn rectified(x: u32) -> u32 {
    if lt(ZERO, x) {
        x
    } else {
        ZERO
    }
}

/// The rectified linear unit.
pub fn relu(x: u32) -> (r: u32)
    ensures
        r == rectified(x),
{
    if less(ZERO, x) {
        x
    } else {
        ZERO
    }
}

/// Whether `out` is a value that `affine` can give for a row of weights, an
/// input and a bias.
pub open spec fn affine_gives<F: Fn(&[u32], &[u32], u32) -> u32>(
    affine: F,
    row: Seq<u32>,
    input: Seq<u32>,
    bias: u32,
    out: u32,
) -> bool {
    exists|r: &[u32], x: &[u32]| r@ == row && x@ == input && call_ensures(affine, (r, x, bias), out)
}

/// The affine map `weights * input + bias`: element `i` of the result is what
/// `affine` makes of row `i` of `weights`, the input and element `i` of
/// `bias`. `affine` stands for `row . input + bias`.
pub fn linear_transform<const IN: usize, const OUT: usize, F: Fn(&[u32], &[u32], u32) -> u32>(
    input: &Obs<IN>,
    weights: &[[u32; IN]; OUT],
    bias: &[u32; OUT],
    affine: F,
) -> (r: Action<OUT>)
    requires
        forall|row: &[u32], x: &[u32], b: u32|
            row@.len() == IN && x@ == input@ ==> call_requires(affine, (row, x, b)),
    ensures
        forall|i: int|
            0 <= i < OUT ==> affine_gives(
                affine,
                weights@[i]@,
                input@,
                bias@[i],
                #[trigger] r@[i],
            ),
{
    let x: &[u32] = input.as_slice();
    let mut out: [u32; OUT] = [ZERO;OUT];
    let mut i: usize = 0;
    while i < OUT
        invariant
            i <= OUT,
            x@ == input@,
            forall|row: &[u32], x: &[u32], b: u32|
                row@.len() == IN && x@ == input@ ==> call_requires(affine, (row, x, b)),
            forall|k: int|
                0 <= k < i ==> affine_gives(
                    affine,
                    weights@[k]@,
                    input@,
                    bias@[k],
                    #[trigger] out@[k],
                ),
        decreases OUT - i,
    {
        let row: &[u32] = weights[i].as_slice();
        let value: u32 = affine(row, x, bias[i]);
        out[i] = value;
        i += 1;
    }
    Action::new(out)
}

} // verus!
