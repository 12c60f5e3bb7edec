//! A policy that always answers with the same action, for tests of callers.

use vstd::prelude::*;
use crate::action::Action;
use crate::error::Error;
use crate::obs::Obs;

verus! {

/// A policy with one fixed action and no weights.
pub struct MockPolicy<const OBS_DIM: usize, const ACTION_DIM: usize> {
    fixed_action: Action<ACTION_DIM>,
}

impl<const OBS_DIM: usize, const ACTION_DIM: usize> View for MockPolicy<OBS_DIM, ACTION_DIM> {
    type V = Seq<u32>;

    /// The elements of the fixed action.
    closed spec fn view(&self) -> Seq<u32> {
        self.fixed_action@
    }
}

impl<const OBS_DIM: usize, const ACTION_DIM: usize> MockPolicy<OBS_DIM, ACTION_DIM> {
    /// A policy that answers with `fixed_action`.
    pub fn new(fixed_action: Action<ACTION_DIM>) -> (r: Self)
        ensures
            r@ == fixed_action@,
    {
        MockPolicy { fixed_action }
    }

    /// A policy that answers with zeros.
    pub fn zeros() -> (r: Self)
        ensures
            r@ == Seq::new(ACTION_DIM as nat, |i: int| 0u32),
    {
        MockPolicy { fixed_action: Action::default() }
    }

    /// A policy that answers with a ramp: element `i` is what `value` gives
    /// for `i`.
    pub fn random_like<F: Fn(usize) -> u32>(value: F) -> (r: Self)
        requires
            forall|i: usize| i < ACTION_DIM ==> call_requires(value, (i,)),
        ensures
            r@.len() == ACTION_DIM,
            forall|i: usize| i < ACTION_DIM ==> call_ensures(value, (i,), #[trigger] r@[i as int]),
    {
        let mut values: [u32; ACTION_DIM] = [0u32;ACTION_DIM];
        let mut i: usize = 0;
        while i < ACTION_DIM
            invariant
                i <= ACTION_DIM,
                forall|k: usize| k < ACTION_DIM ==> call_requires(value, (k,)),
                forall|k: usize| k < i ==> call_ensures(value, (k,), #[trigger] values@[k as int]),
            decreases ACTION_DIM - i,
        {
            let v: u32 = value(i);
            values[i] = v;
            i += 1;
        }
        MockPolicy { fixed_action: Action::new(values) }
    }

    /// The fixed action, whatever the observation.
    pub fn act(&self, obs: &Obs<OBS_DIM>) -> (r: Action<ACTION_DIM>)
        ensures
            r@ == self@,
    {
        self.fixed_action
    }

    /// Accepts any buffer and changes nothing.
    pub fn load_weights(&mut self, weights: &[u8]) -> (r: Result<(), Error>)
        ensures
            r is Ok,
            final(self)@ == old(self)@,
    {
        Ok(())
    }

    /// An empty buffer: the policy has no weights.
    pub fn get_weights(&self) -> (r: Result<Vec<u8>, Error>)
        ensures
            r matches Ok(bytes) && bytes@.len() == 0,
    {
        Ok(Vec::new())
    }

    /// The name of the policy.
    pub fn algorithm_name(&self) -> (r: &'static str)
        ensures
            r@ == "MockPolicy"@,
    {
        "MockPolicy"
    }
}

} // verus!
