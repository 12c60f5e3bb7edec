//! Verified core of an inference-time runtime for small reinforcement-learning
//! policies: weight-buffer formats, parameter storage, the environment state
//! machine and the safety check on actions.
//!
//! Every 32-bit floating-point quantity is held as its IEEE 754 binary32
//! encoding in a `u32`. The library decodes, stores, orders and re-encodes
//! these words exactly. It performs no arithmetic on them: where an operation
//! needs a sum, a product or an activation function, the caller hands it in
//! as a function on encodings, and the contract of the operation says which
//! values that function is applied to and where its results go.

use vstd::prelude::*;

pub mod text;
pub mod error;
pub mod binary32;
pub mod wire;
pub mod obs;
pub mod action;
pub mod algorithms;
pub mod env;
pub mod simd;

pub use action::Action;
pub use env::Env;
pub use error::{Error, Result};
pub use obs::Obs;

verus! {

/// A number of elements.
pub type Dim = usize;

} // verus!
