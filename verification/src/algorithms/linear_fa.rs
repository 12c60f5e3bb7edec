//! Linear function approximation: one weight per pair of action and
//! observation element, and one bias per action element.
//!
//! Wire format of the parameters: the learning rate, then the weights, action
//! row by action row, then the biases.

use vstd::prelude::*;
use vstd::slice::slice_subrange;
use crate::action::Action;
use crate::algorithms::utils::affine_gives;
use crate::binary32::{zeros, ZERO};
use crate::obs::Obs;
use crate::error::{invalid_weights, Error, ErrorModel};
use crate::wire::{
    lemma_word_of_bytes, lemma_words_at_words_bytes, push_word, push_words, read_word,
    read_words, word_at, word_bytes, words_at, words_bytes,
};

verus! {

/// Encoding of the learning rate of a fresh policy, `0.01`.
pub const HUNDREDTH: u32 = 0x3C23_D70A;

/// Length of the header of the wire format.
pub const HEADER_LEN: usize = 4;

/// What a linear policy holds.
pub struct LinearModel {
    /// Learning rate.
    pub alpha: u32,
    /// The weights, action row by action row.
    pub weights: Seq<u32>,
    /// One bias for each action element.
    pub bias: Seq<u32>,
}

impl LinearModel {
    /// The parameters have the shape that `obs_dim` and `action_dim` ask for.
    pub open spec fn wf(self, obs_dim: nat, action_dim: nat) -> bool {
        &&& self.weights.len() == action_dim * obs_dim
        &&& self.weights.len() <= usize::MAX
        &&& self.bias.len() == action_dim
    }

    /// The weight that takes observation element `obs_idx` to action element
    /// `action_idx`.
    pub open spec fn weight(self, obs_dim: nat, action_idx: int, obs_idx: int) -> u32 {
        self.weights[action_idx * obs_dim + obs_idx]
    }

    /// The weights of one action element.
    pub open spec fn weight_row(self, obs_dim: nat, action_idx: int) -> Seq<u32> {
        self.weights.subrange(action_idx * obs_dim, (action_idx + 1) * obs_dim)
    }

    /// The bytes of the wire format.
    pub open spec fn encoding(self) -> Seq<u8> {
        word_bytes(self.alpha) + words_bytes(self.weights) + words_bytes(self.bias)
    }
}

/// Length of the wire format for the given dimensions.
pub open spec fn full_len(obs_dim: nat, action_dim: nat) -> nat {
    HEADER_LEN as nat + 4 * (action_dim * obs_dim + action_dim)
}

/// The policy that a buffer of full length describes.
pub open spec fn parsed(bytes: Seq<u8>, obs_dim: nat, action_dim: nat) -> LinearModel {
    LinearModel {
        alpha: word_at(bytes, 0),
        weights: words_at(bytes, HEADER_LEN as int, action_dim * obs_dim),
        bias: words_at(bytes, HEADER_LEN + 4 * (action_dim * obs_dim), action_dim),
    }
}

/// What building a policy makes of a buffer: the policy it describes, or the
/// refusal of a buffer that is short of full length.
pub open spec fn from_weights_spec(bytes: Seq<u8>, obs_dim: nat, action_dim: nat) -> Result<
    LinearModel,
    ErrorModel,
> {
    if bytes.len() < full_len(obs_dim, action_dim) {
        Err(ErrorModel::InvalidWeights("Insufficient weights for LinearFA"@))
    } else {
        Ok(parsed(bytes, obs_dim, action_dim))
    }
}

/// What replacing the parameters of a policy makes of a buffer: the policy
/// that the buffer describes, whatever the policy held before, or the refusal
/// of a buffer that is short of full length.
pub open spec fn load_weights_spec(
    m: LinearModel,
    bytes: Seq<u8>,
    obs_dim: nat,
    action_dim: nat,
) -> Result<LinearModel, ErrorModel> {
    from_weights_spec(bytes, obs_dim, action_dim)
}

/// An action's row of weights lies inside the weights, and the rows follow one
/// another without gaps.
pub proof fn lemma_row_in_weights(action_dim: int, obs_dim: int, action_idx: int)
    requires
        0 <= action_idx < action_dim,
        0 <= obs_dim,
    ensures
        0 <= action_idx * obs_dim,
        (action_idx + 1) * obs_dim <= action_dim * obs_dim,
        (action_idx + 1) * obs_dim == action_idx * obs_dim + obs_dim,
{
    assert(0 <= action_idx * obs_dim) by (nonlinear_arith)
        requires
            0 <= action_idx,
            0 <= obs_dim,
    ;
    assert((action_idx + 1) * obs_dim <= action_dim * obs_dim) by (nonlinear_arith)
        requires
            action_idx + 1 <= action_dim,
            0 <= obs_dim,
    ;
    assert((action_idx + 1) * obs_dim == action_idx * obs_dim + obs_dim) by (nonlinear_arith);
}

/// Serialising a policy and loading the bytes again gives back the same
/// parameters, bit for bit, into the policy itself and into a fresh one.
pub proof fn lemma_linear_round_trip(m: LinearModel, obs_dim: nat, action_dim: nat)
    requires
        m.wf(obs_dim, action_dim),
    ensures
        m.encoding().len() == full_len(obs_dim, action_dim),
        from_weights_spec(m.encoding(), obs_dim, action_dim) == Ok::<LinearModel, ErrorModel>(m),
        load_weights_spec(m, m.encoding(), obs_dim, action_dim) == Ok::<
            LinearModel,
            ErrorModel,
        >(m),
{
    let head = word_bytes(m.alpha);
    let body = words_bytes(m.weights);
    let tail = words_bytes(m.bias);
    lemma_words_at_words_bytes(head, m.weights, tail);
    lemma_words_at_words_bytes(head + body, m.bias, Seq::<u8>::empty());
    lemma_word_of_bytes(m.alpha);
}

/// Whether `out` is a value that `tanh` can give for a sum that `affine` can
/// give for a row of weights, an input and a bias.
pub open spec fn bounded_sum_gives<F: Fn(&[u32], &[u32], u32) -> u32, T: Fn(u32) -> u32>(
    affine: F,
    tanh: T,
    row: Seq<u32>,
    input: Seq<u32>,
    bias: u32,
    out: u32,
) -> bool {
    exists|sum: u32|
        affine_gives(affine, row, input, bias, sum) && #[trigger] call_ensures(tanh, (sum,), out)
}

/// Whether one action element has taken its gradient step: some gradient
/// that `gradient` can give for the target, the current value and the learning
/// rate takes the old bias to `bias` under `shifted` and each old weight of
/// the row, with the matching element of the observation, to the weight in
/// `row` under `moved`.
pub open spec fn step_taken<G, S, M>(
    gradient: G,
    shifted: S,
    moved: M,
    before: LinearModel,
    bias: u32,
    row: Seq<u32>,
    obs: Seq<u32>,
    target: u32,
    current: u32,
    i: int,
) -> bool where G: Fn(u32, u32, u32) -> u32, S: Fn(u32, u32) -> u32, M: Fn(u32, u32, u32) -> u32 {
    exists|g: u32|
        {
            &&& #[trigger] call_ensures(gradient, (target, current, before.alpha), g)
            &&& call_ensures(shifted, (before.bias[i], g), bias)
            &&& row.len() == obs.len()
            &&& forall|j: int|
                0 <= j < obs.len() ==> call_ensures(
                    moved,
                    (before.weight(obs.len(), i, j), g, obs[j]),
                    #[trigger] row[j],
                )
        }
}

/// With every weight and every bias `+0.0`, every action that `act` can give
/// is all `+0.0`, provided that `affine` gives `+0.0` for a row of zeros and
/// a zero bias on this observation and that `tanh` gives `+0.0` for `+0.0`.
pub proof fn lemma_zero_parameters_act_zero<F: Fn(&[u32], &[u32], u32) -> u32, T: Fn(u32) -> u32>(
    affine: F,
    tanh: T,
    m: LinearModel,
    obs_dim: nat,
    action_dim: nat,
    obs: Seq<u32>,
    action: Seq<u32>,
)
    requires
        m.wf(obs_dim, action_dim),
        forall|k: int| 0 <= k < m.weights.len() ==> m.weights[k] == ZERO,
        forall|k: int| 0 <= k < m.bias.len() ==> m.bias[k] == ZERO,
        action.len() == action_dim,
        forall|i: int|
            0 <= i < action_dim ==> bounded_sum_gives(
                affine,
                tanh,
                m.weight_row(obs_dim, i),
                obs,
                m.bias[i],
                #[trigger] action[i],
            ),
        forall|row: &[u32], x: &[u32], out: u32|
            x@ == obs && (forall|k: int| 0 <= k < row@.len() ==> row@[k] == ZERO)
                && #[trigger] call_ensures(affine, (row, x, ZERO), out) ==> out == ZERO,
        forall|y: u32| #[trigger] call_ensures(tanh, (ZERO,), y) ==> y == ZERO,
    ensures
        forall|i: int| 0 <= i < action_dim ==> #[trigger] action[i] == ZERO,
{
    assert forall|i: int| 0 <= i < action_dim implies #[trigger] action[i] == ZERO by {
        lemma_row_in_weights(action_dim as int, obs_dim as int, i);
        let row = m.weight_row(obs_dim, i);
        assert(bounded_sum_gives(affine, tanh, row, obs, m.bias[i], action[i]));
        let sum = choose|sum: u32|
            affine_gives(affine, row, obs, m.bias[i], sum) && #[trigger] call_ensures(
                tanh,
                (sum,),
                action[i],
            );
        let (r, x) = choose|r: &[u32], x: &[u32]|
            r@ == row && x@ == obs && call_ensures(affine, (r, x, m.bias[i]), sum);
        assert(forall|k: int| 0 <= k < r@.len() ==> r@[k] == ZERO);
        assert(sum == ZERO);
    }
}

/// A linear policy from observations of `OBS_DIM` to actions of `ACTION_DIM`
/// elements.
pub struct LinearFA<const OBS_DIM: usize, const ACTION_DIM: usize> {
    weights: Vec<u32>,
    bias: Vec<u32>,
    alpha: u32,
}

impl<const OBS_DIM: usize, const ACTION_DIM: usize> View for LinearFA<OBS_DIM, ACTION_DIM> {
    type V = LinearModel;

    closed spec fn view(&self) -> LinearModel {
        LinearModel { alpha: self.alpha, weights: self.weights@, bias: self.bias@ }
    }
}

/// The number of words after the header, when it can be counted in a `usize`.
fn payload_words(obs_dim: usize, action_dim: usize) -> (r: Option<usize>)
    ensures
        r matches Some(n) ==> n == action_dim * obs_dim + action_dim,
        r is None ==> action_dim * obs_dim + action_dim > usize::MAX,
{
    match action_dim.checked_mul(obs_dim) {
        Some(cells) => cells.checked_add(action_dim),
        None => {
            None
        },
    }
}

impl<const OBS_DIM: usize, const ACTION_DIM: usize> LinearFA<OBS_DIM, ACTION_DIM> {
    /// The parameters have the shape that the dimensions ask for.
    pub open spec fn wf(&self) -> bool {
        self@.wf(OBS_DIM as nat, ACTION_DIM as nat)
    }

    /// A policy with learning rate `0.01`, biases of zero, and each weight as
    /// `init` gives it for its action and observation index.
    pub fn new<F: Fn(usize, usize) -> u32>(init: F) -> (r: Self)
        requires
            ACTION_DIM * OBS_DIM <= usize::MAX,
            forall|i: usize, j: usize|
                i < ACTION_DIM && j < OBS_DIM ==> call_requires(init, (i, j)),
        ensures
            r.wf(),
            r@.alpha == HUNDREDTH,
            r@.bias == Seq::new(ACTION_DIM as nat, |i: int| ZERO),
            forall|i: usize, j: usize|
                i < ACTION_DIM && j < OBS_DIM ==> call_ensures(
                    init,
                    (i, j),
                    #[trigger] r@.weight(OBS_DIM as nat, i as int, j as int),
                ),
    {
        let mut weights: Vec<u32> = Vec::new();
        let mut i: usize = 0;
        while i < ACTION_DIM
            invariant
                i <= ACTION_DIM,
                ACTION_DIM * OBS_DIM <= usize::MAX,
                weights@.len() == i * OBS_DIM,
                forall|a: usize, b: usize|
                    i <= a < ACTION_DIM && b < OBS_DIM ==> call_requires(init, (a, b)),
                forall|a: usize, b: usize|
                    a < i && b < OBS_DIM ==> call_ensures(
                        init,
                        (a, b),
                        #[trigger] weights@[a * OBS_DIM + b],
                    ),
            decreases ACTION_DIM - i,
        {
            let mut j: usize = 0;
            proof {
                lemma_row_in_weights(ACTION_DIM as int, OBS_DIM as int, i as int);
            }
            while j < OBS_DIM
                invariant
                    i < ACTION_DIM,
                    j <= OBS_DIM,
                    weights@.len() == i * OBS_DIM + j,
                    forall|b: usize| b < OBS_DIM ==> call_requires(init, (i, b)),
                    forall|a: usize, b: usize|
                        a < i && b < OBS_DIM ==> call_ensures(
                            init,
                            (a, b),
                            #[trigger] weights@[a * OBS_DIM + b],
                        ),
                    forall|b: usize|
                        b < j ==> call_ensures(init, (i, b), #[trigger] weights@[i * OBS_DIM + b]),
                decreases OBS_DIM - j,
            {
                let w: u32 = init(i, j);
                weights.push(w);
                proof {
                    assert forall|a: usize, b: usize| a < i && b < OBS_DIM implies call_ensures(
                        init,
                        (a, b),
                        #[trigger] weights@[a * OBS_DIM + b],
                    ) by {
                        lemma_row_in_weights(i as int, OBS_DIM as int, a as int);
                    }
                }
                j += 1;
            }
            i += 1;
        }
        LinearFA { weights, bias: zeros(ACTION_DIM), alpha: HUNDREDTH }
    }

    /// Builds a policy from the wire format. The buffer must have full length.
    pub fn from_weights(weights: &[u8]) -> (r: Result<Self, Error>)
        ensures
            match r {
                Ok(p) => p.wf() && from_weights_spec(weights@, OBS_DIM as nat, ACTION_DIM as nat)
                    == Ok::<LinearModel, ErrorModel>(p@),
                Err(e) => from_weights_spec(weights@, OBS_DIM as nat, ACTION_DIM as nat) == Err::<
                    LinearModel,
                    ErrorModel,
                >(e@),
            },
    {
        if weights.len() < HEADER_LEN {
            return Err(invalid_weights("Insufficient weights for LinearFA"));
        }
        let alpha: u32 = read_word(weights, 0);
        let avail: usize = (weights.len() - HEADER_LEN) / 4;
        match payload_words(OBS_DIM, ACTION_DIM) {
            Some(n) => {
                if n > avail {
                    return Err(invalid_weights("Insufficient weights for LinearFA"));
                }
                let cells: usize = n - ACTION_DIM;
                let w: Vec<u32> = read_words(weights, HEADER_LEN, cells);
                let b: Vec<u32> = read_words(weights, HEADER_LEN + 4 * cells, ACTION_DIM);
                Ok(LinearFA { weights: w, bias: b, alpha })
            },
            None => Err(invalid_weights("Insufficient weights for LinearFA")),
        }
    }

    /// The affine part of the action: element `i` is what `affine` makes of
    /// row `i` of the weights, the observation and bias `i`.
    pub fn compute_action<F: Fn(&[u32], &[u32], u32) -> u32>(&self, obs: &Obs<OBS_DIM>, affine: F)
        -> (r: Action<ACTION_DIM>)
        requires
            self.wf(),
            forall|row: &[u32], x: &[u32], b: u32|
                row@.len() == OBS_DIM && x@ == obs@ ==> call_requires(affine, (row, x, b)),
        ensures
            forall|i: int|
                0 <= i < ACTION_DIM ==> affine_gives(
                    affine,
                    self@.weight_row(OBS_DIM as nat, i),
                    obs@,
                    self@.bias[i],
                    #[trigger] r@[i],
                ),
    {
        let input: &[u32] = obs.as_slice();
        let mut out: [u32; ACTION_DIM] = [ZERO;ACTION_DIM];
        let mut i: usize = 0;
        while i < ACTION_DIM
            invariant
                i <= ACTION_DIM,
                self.wf(),
                input@ == obs@,
                forall|row: &[u32], x: &[u32], b: u32|
                    row@.len() == OBS_DIM && x@ == obs@ ==> call_requires(affine, (row, x, b)),
                forall|k: int|
                    0 <= k < i ==> affine_gives(
                        affine,
                        self@.weight_row(OBS_DIM as nat, k),
                        obs@,
                        self@.bias[k],
                        #[trigger] out@[k],
                    ),
            decreases ACTION_DIM - i,
        {
            let row: &[u32] = self.weight_row(i);
            let bias: u32 = self.get_bias(i);
            let value: u32 = affine(row, input, bias);
            out[i] = value;
            i += 1;
        }
        Action::new(out)
    }

    /// The action for an observation, `tanh(weights * obs + bias)`: element
    /// `i` is what `tanh` makes of the sum that `affine` gives for row `i` of
    /// the weights, the observation and bias `i`.
    pub fn act<F: Fn(&[u32], &[u32], u32) -> u32, T: Fn(u32) -> u32>(
        &self,
        obs: &Obs<OBS_DIM>,
        affine: F,
        tanh: T,
    ) -> (r: Action<ACTION_DIM>)
        requires
            self.wf(),
            forall|row: &[u32], x: &[u32], b: u32|
                row@.len() == OBS_DIM && x@ == obs@ ==> call_requires(affine, (row, x, b)),
            forall|s: u32| call_requires(tanh, (s,)),
        ensures
            forall|i: int|
                0 <= i < ACTION_DIM ==> bounded_sum_gives(
                    affine,
                    tanh,
                    self@.weight_row(OBS_DIM as nat, i),
                    obs@,
                    self@.bias[i],
                    #[trigger] r@[i],
                ),
    {
        let sums: Action<ACTION_DIM> = self.compute_action(obs, affine);
        sums.map(tanh)
    }

    /// One gradient step toward `target`. For each action element `i` the
    /// gradient is what `gradient` makes of `target[i]`, `current[i]` and the
    /// learning rate; bias `i` becomes what `shifted` makes of it and the
    /// gradient, and each weight of row `i` what `moved` makes of it, the
    /// gradient and the matching element of the observation. The three stand
    /// for `(target - current) * alpha`, `bias + gradient` and
    /// `weight + gradient * obs`. The learning rate stays.
    pub fn update_weights<G, S, M>(
        &mut self,
        obs: &Obs<OBS_DIM>,
        target: &Action<ACTION_DIM>,
        current: &Action<ACTION_DIM>,
        gradient: G,
        shifted: S,
        moved: M,
    ) where G: Fn(u32, u32, u32) -> u32, S: Fn(u32, u32) -> u32, M: Fn(u32, u32, u32) -> u32
        requires
            old(self).wf(),
            forall|t: u32, c: u32, a: u32| call_requires(gradient, (t, c, a)),
            forall|b: u32, g: u32| call_requires(shifted, (b, g)),
            forall|w: u32, g: u32, x: u32| call_requires(moved, (w, g, x)),
        ensures
            final(self).wf(),
            final(self)@.alpha == old(self)@.alpha,
            forall|i: int|
                0 <= i < ACTION_DIM ==> step_taken(
                    gradient,
                    shifted,
                    moved,
                    old(self)@,
                    #[trigger] final(self)@.bias[i],
                    final(self)@.weight_row(OBS_DIM as nat, i),
                    obs@,
                    target@[i],
                    current@[i],
                    i,
                ),
    {
        proof {
            obs.lemma_len();
            target.lemma_len();
            current.lemma_len();
        }
        let ghost before = self@;
        let alpha: u32 = self.alpha;
        let cells: usize = self.weights.len();
        let mut i: usize = 0;
        while i < ACTION_DIM
            invariant
                i <= ACTION_DIM,
                self.wf(),
                before.wf(OBS_DIM as nat, ACTION_DIM as nat),
                self@.alpha == before.alpha,
                alpha == before.alpha,
                cells == ACTION_DIM * OBS_DIM,
                obs@.len() == OBS_DIM,
                target@.len() == ACTION_DIM,
                current@.len() == ACTION_DIM,
                forall|t: u32, c: u32, a: u32| call_requires(gradient, (t, c, a)),
                forall|b: u32, g: u32| call_requires(shifted, (b, g)),
                forall|w: u32, g: u32, x: u32| call_requires(moved, (w, g, x)),
                forall|k: int| i <= k < ACTION_DIM ==> self@.bias[k] == before.bias[k],
                forall|k: int|
                    i * OBS_DIM <= k < ACTION_DIM * OBS_DIM ==> self@.weights[k]
                        == before.weights[k],
                forall|k: int|
                    0 <= k < i ==> step_taken(
                        gradient,
                        shifted,
                        moved,
                        before,
                        #[trigger] self@.bias[k],
                        self@.weight_row(OBS_DIM as nat, k),
                        obs@,
                        target@[k],
                        current@[k],
                        k,
                    ),
            decreases ACTION_DIM - i,
        {
            proof {
                lemma_row_in_weights(ACTION_DIM as int, OBS_DIM as int, i as int);
            }
            let t: u32 = target.as_slice()[i];
            let c: u32 = current.as_slice()[i];
            let g: u32 = gradient(t, c, alpha);
            let from: usize = i * OBS_DIM;
            let ghost entering = self@;
            let mut j: usize = 0;
            while j < OBS_DIM
                invariant
                    j <= OBS_DIM,
                    i < ACTION_DIM,
                    from == i * OBS_DIM,
                    from + OBS_DIM <= ACTION_DIM * OBS_DIM,
                    self.wf(),
                    before.wf(OBS_DIM as nat, ACTION_DIM as nat),
                    self@.alpha == entering.alpha,
                    self@.bias == entering.bias,
                    self@.weights.len() == entering.weights.len(),
                    cells == ACTION_DIM * OBS_DIM,
                    obs@.len() == OBS_DIM,
                    forall|w: u32, g: u32, x: u32| call_requires(moved, (w, g, x)),
                    forall|k: int|
                        0 <= k < from ==> self@.weights[k] == entering.weights[k],
                    forall|k: int|
                        from + j <= k < ACTION_DIM * OBS_DIM ==> self@.weights[k]
                            == before.weights[k],
                    forall|k: int|
                        0 <= k < j ==> call_ensures(
                            moved,
                            (before.weights[from + k], g, obs@[k]),
                            #[trigger] self@.weights[from + k],
                        ),
                decreases OBS_DIM - j,
            {
                let x: u32 = obs.as_slice()[j];
                let w: u32 = self.weights[from + j];
                let changed: u32 = moved(w, g, x);
                self.weights[from + j] = changed;
                j += 1;
            }
            let b: u32 = self.bias[i];
            let new_bias: u32 = shifted(b, g);
            self.bias[i] = new_bias;
            proof {
                assert forall|k: int| 0 <= k < i implies step_taken(
                    gradient,
                    shifted,
                    moved,
                    before,
                    #[trigger] self@.bias[k],
                    self@.weight_row(OBS_DIM as nat, k),
                    obs@,
                    target@[k],
                    current@[k],
                    k,
                ) by {
                    lemma_row_in_weights(i as int, OBS_DIM as int, k);
                    assert(self@.weight_row(OBS_DIM as nat, k) =~= entering.weight_row(
                        OBS_DIM as nat,
                        k,
                    ));
                }
            }
            i += 1;
        }
    }

    /// Replaces the parameters from the wire format. The buffer must have full
    /// length; a shorter one is refused before anything is written, and leaves
    /// the policy, its learning rate included, as it was.
    pub fn load_weights(&mut self, weights: &[u8]) -> (r: Result<(), Error>)
        requires
            old(self).wf(),
        ensures
            final(self).wf(),
            match r {
                Ok(_) => load_weights_spec(
                    old(self)@,
                    weights@,
                    OBS_DIM as nat,
                    ACTION_DIM as nat,
                ) == Ok::<LinearModel, ErrorModel>(final(self)@),
                Err(e) => load_weights_spec(
                    old(self)@,
                    weights@,
                    OBS_DIM as nat,
                    ACTION_DIM as nat,
                ) == Err::<LinearModel, ErrorModel>(e@) && final(self)@ == old(self)@,
            },
    {
        match Self::from_weights(weights) {
            Ok(loaded) => {
                self.alpha = loaded.alpha;
                self.weights = loaded.weights;
                self.bias = loaded.bias;
                Ok(())
            },
            Err(e) => Err(e),
        }
    }

    /// Writes the parameters in the wire format.
    pub fn get_weights(&self) -> (r: Result<Vec<u8>, Error>)
        ensures
            r matches Ok(bytes) && bytes@ == self@.encoding(),
    {
        let mut out: Vec<u8> = Vec::new();
        push_word(&mut out, self.alpha);
        push_words(&mut out, self.weights.as_slice());
        push_words(&mut out, self.bias.as_slice());
        Ok(out)
    }

    /// The name of the algorithm.
    pub fn algorithm_name(&self) -> (r: &'static str)
        ensures
            r@ == "LinearFA"@,
    {
        "LinearFA"
    }

    /// The learning rate.
    pub fn alpha(&self) -> (r: u32)
        ensures
            r == self@.alpha,
    {
        self.alpha
    }

    /// Sets the learning rate.
    pub fn set_alpha(&mut self, alpha: u32)
        ensures
            final(self)@ == (LinearModel { alpha, ..old(self)@ }),
    {
        self.alpha = alpha;
    }

    /// The weight that takes observation element `obs_idx` to action element
    /// `action_idx`.
    pub fn get_weight(&self, action_idx: usize, obs_idx: usize) -> (r: u32)
        requires
            self.wf(),
            action_idx < ACTION_DIM,
            obs_idx < OBS_DIM,
        ensures
            r == self@.weight(OBS_DIM as nat, action_idx as int, obs_idx as int),
    {
        proof {
            lemma_row_in_weights(ACTION_DIM as int, OBS_DIM as int, action_idx as int);
        }
        self.weights[action_idx * OBS_DIM + obs_idx]
    }

    /// Replaces one weight.
    pub fn set_weight(&mut self, action_idx: usize, obs_idx: usize, value: u32)
        requires
            old(self).wf(),
            action_idx < ACTION_DIM,
            obs_idx < OBS_DIM,
        ensures
            final(self).wf(),
            final(self)@ == (LinearModel {
                weights: old(self)@.weights.update(action_idx * OBS_DIM + obs_idx, value),
                ..old(self)@
            }),
    {
        proof {
            lemma_row_in_weights(ACTION_DIM as int, OBS_DIM as int, action_idx as int);
        }
        let at: usize = action_idx * OBS_DIM + obs_idx;
        self.weights[at] = value;
    }

    /// The weights of one action element, in the order of the observation.
    pub fn weight_row(&self, action_idx: usize) -> (r: &[u32])
        requires
            self.wf(),
            action_idx < ACTION_DIM,
        ensures
            r@ == self@.weight_row(OBS_DIM as nat, action_idx as int),
            r@.len() == OBS_DIM,
    {
        proof {
            lemma_row_in_weights(ACTION_DIM as int, OBS_DIM as int, action_idx as int);
        }
        let from: usize = action_idx * OBS_DIM;
        slice_subrange(self.weights.as_slice(), from, from + OBS_DIM)
    }

    /// The bias of one action element.
    pub fn get_bias(&self, action_idx: usize) -> (r: u32)
        requires
            self.wf(),
            action_idx < ACTION_DIM,
        ensures
            r == self@.bias[action_idx as int],
    {
        self.bias[action_idx]
    }

    /// Replaces one bias.
    pub fn set_bias(&mut self, action_idx: usize, value: u32)
        requires
            old(self).wf(),
            action_idx < ACTION_DIM,
        ensures
            final(self).wf(),
            final(self)@ == (LinearModel {
                bias: old(self)@.bias.update(action_idx as int, value),
                ..old(self)@
            }),
    {
        self.bias[action_idx] = value;
    }
}

} // verus!
