//! Choice of the vector-math backend.
//!
//! The portable backend is always there and defines what is correct. An
//! accelerated backend is chosen when it was built in and the machine can run
//! it. The choice depends on nothing but these facts.

use vstd::prelude::*;
use crate::action::Action;
use crate::algorithms::utils::{affine_gives, linear_transform};
use crate::obs::Obs;

verus! {

/// The portable backend.
#[derive(Debug, Clone, Copy, PartialEq, Eq, Structural)]
pub struct ScalarBackend;

/// The backend for x86-64 machines with AVX2.
#[derive(Debug, Clone, Copy, PartialEq, Eq, Structural)]
pub struct Avx2Backend;

/// The backend for 64-bit ARM machines with NEON.
#[derive(Debug, Clone, Copy, PartialEq, Eq, Structural)]
pub struct NeonBackend;

/// One of the backends.
#[derive(Debug, Clone, Copy, PartialEq, Eq, Structural)]
pub enum Backend {
    Scalar(ScalarBackend),
    Avx2(Avx2Backend),
    Neon(NeonBackend),
}

/// What is known of the build and of the machine.
#[derive(Debug, Clone, Copy, PartialEq, Eq, Structural)]
pub struct Capabilities {
    /// The AVX2 backend was built in.
    pub avx2_built: bool,
    /// The processor reports AVX2.
    pub avx2_detected: bool,
    /// The NEON backend was built in.
    pub neon_built: bool,
    /// The machine is a 64-bit ARM machine, where NEON is always present.
    pub aarch64: bool,
}

/// The backend for the given capabilities: AVX2 where it was built in and is
/// detected; else NEON where it was built in and the machine is 64-bit ARM;
/// else the portable backend.
pub open spec fn selected(caps: Capabilities) -> Backend {
    if caps.avx2_built && caps.avx2_detected {
        Backend::Avx2(Avx2Backend)
    } else if caps.neon_built && caps.aarch64 {
        Backend::Neon(NeonBackend)
    } else {
        Backend::Scalar(ScalarBackend)
    }
}

/// Chooses the backend.
pub fn select_backend(caps: Capabilities) -> (r: Backend)
    ensures
        r == selected(caps),
{
    if caps.avx2_built && caps.avx2_detected {
        Backend::Avx2(Avx2Backend)
    } else if caps.neon_built && caps.aarch64 {
        Backend::Neon(NeonBackend)
    } else {
        Backend::Scalar(ScalarBackend)
    }
}

/// An accelerated backend is chosen only where it was built in and the
/// machine can run it; without any, the portable backend is chosen.
pub proof fn lemma_selection_is_sound(caps: Capabilities)
    ensures
        selected(caps) is Avx2 ==> caps.avx2_built && caps.avx2_detected,
        selected(caps) is Neon ==> caps.neon_built && caps.aarch64,
        !caps.avx2_built && !caps.neon_built ==> selected(caps) is Scalar,
{
}

impl ScalarBackend {
    /// The product of a matrix and a vector with a bias added: element `i` of
    /// the result is what `affine` makes of row `i` of `weights`, the input
    /// and element `i` of `bias`. `affine` stands for `row . input + bias`.
    pub fn matrix_vector_mul<const IN: usize, const OUT: usize, F: Fn(&[u32], &[u32], u32) -> u32>(
        input: &Obs<IN>,
        weights: &[[u32; IN]; OUT],
        bias: &[u32; OUT],
        affine: F,
    ) -> (r: Action<OUT>)
        requires
            forall|row: &[u32], x: &[u32], b: u32|
                row@.len() == IN && x@ == input@ ==> call_requires(affine, (row, x, b)),
        ensures
            forall|i: int|
                0 <= i < OUT ==> affine_gives(
                    affine,
                    weights@[i]@,
                    input@,
                    bias@[i],
                    #[trigger] r@[i],
                ),
    {
        linear_transform(input, weights, bias, affine)
    }

    /// Combines two arrays element by element with `f`, which stands for
    /// addition, subtraction or multiplication.
    pub fn vector_zip<const N: usize, F: Fn(u32, u32) -> u32>(a: &[u32; N], b: &[u32; N], f: F) -> (r:
        [u32; N])
        requires
            forall|x: u32, y: u32| call_requires(f, (x, y)),
        ensures
            forall|i: int| 0 <= i < N ==> call_ensures(f, (a@[i], b@[i]), #[trigger] r@[i]),
    {
        let mut out: [u32; N] = *a;
        let mut i: usize = 0;
        while i < N
            invariant
                i <= N,
                forall|x: u32, y: u32| call_requires(f, (x, y)),
                forall|k: int| 0 <= k < i ==> call_ensures(f, (a@[k], b@[k]), #[trigger] out@[k]),
            decreases N - i,
        {
            let z: u32 = f(a[i], b[i]);
            out[i] = z;
            i += 1;
        }
        out
    }

    /// Every element of `a` times `scale`, each as `product` gives it.
    pub fn vector_scale<const N: usize, F: Fn(u32, u32) -> u32>(
        a: &[u32; N],
        scale: u32,
        product: F,
    ) -> (r: [u32; N])
        requires
            forall|x: u32, y: u32| call_requires(product, (x, y)),
        ensures
            forall|i: int| 0 <= i < N ==> call_ensures(product, (a@[i], scale), #[trigger] r@[i]),
    {
        let mut out: [u32; N] = *a;
        let mut i: usize = 0;
        while i < N
            invariant
                i <= N,
                forall|x: u32, y: u32| call_requires(product, (x, y)),
                forall|k: int|
                    0 <= k < i ==> call_ensures(product, (a@[k], scale), #[trigger] out@[k]),
            decreases N - i,
        {
            let z: u32 = product(a[i], scale);
            out[i] = z;
            i += 1;
        }
        out
    }
}

} // verus!
