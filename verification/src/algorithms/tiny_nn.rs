//! A small feed-forward network: two to five layer sizes, and for each step
//! from one layer to the next a weight matrix, a bias vector and an
//! activation function.
//!
//! Wire format of the parameters: the number of layer sizes as a 16-bit
//! integer, one activation tag for each step, then for each step its weights,
//! output row by output row, followed by its biases. The layer sizes are not
//! part of the format.

use vstd::prelude::*;
use vstd::slice::{slice_subrange, slice_to_vec};
use crate::action::Action;
use crate::algorithms::utils::{affine_gives, rectified, relu};
use crate::binary32::{zeros, ZERO};
use crate::obs::Obs;
use crate::error::{invalid_weights, Error, ErrorModel};
use crate::text::{decimal, with_decimal};
use crate::wire::{
    half_bytes, half_of, lemma_half_of_bytes, lemma_words_at_words_bytes, push_half,
    push_words, read_half, read_words, words_at, words_bytes,
};

verus! {

/// The function that a layer applies to each of its sums.
#[derive(Debug, Clone, Copy, PartialEq, Eq, Structural)]
pub enum ActivationFunction {
    ReLU,
    Tanh,
    Sigmoid,
    Linear,
}

impl ActivationFunction {
    /// The tag that stands for the function in the wire format.
    pub open spec fn tag(self) -> u8 {
        match self {
            ActivationFunction::ReLU => 0,
            ActivationFunction::Tanh => 1,
            ActivationFunction::Sigmoid => 2,
            ActivationFunction::Linear => 3,
        }
    }

    /// The function that a tag stands for, if any.
    pub open spec fn of_tag(value: u8) -> Option<Self> {
        if value == 0 {
            Some(ActivationFunction::ReLU)
        } else if value == 1 {
            Some(ActivationFunction::Tanh)
        } else if value == 2 {
            Some(ActivationFunction::Sigmoid)
        } else if value == 3 {
            Some(ActivationFunction::Linear)
        } else {
            None
        }
    }

    /// Reads a tag. Tags above 3 stand for nothing and are refused.
    pub fn from_u8(value: u8) -> (r: Result<Self, Error>)
        ensures
            match r {
                Ok(a) => Self::of_tag(value) == Some(a),
                Err(e) => Self::of_tag(value) is None && e@ == ErrorModel::InvalidWeights(
                    "Unknown activation function: "@ + decimal(value as nat),
                ),
            },
    {
        if value == 0 {
            Ok(ActivationFunction::ReLU)
        } else if value == 1 {
            Ok(ActivationFunction::Tanh)
        } else if value == 2 {
            Ok(ActivationFunction::Sigmoid)
        } else if value == 3 {
            Ok(ActivationFunction::Linear)
        } else {
            Err(Error::InvalidWeights(with_decimal("Unknown activation function: ", value as u64)))
        }
    }

    /// Whether `y` is a value that the function can give for `x`: the
    /// rectified `x` for ReLU, `x` itself for Linear, and for the other two
    /// what `tanh` or `sigmoid` can give for `x`.
    pub open spec fn gives<T: Fn(u32) -> u32, S: Fn(u32) -> u32>(
        self,
        tanh: T,
        sigmoid: S,
        x: u32,
        y: u32,
    ) -> bool {
        match self {
            ActivationFunction::ReLU => y == rectified(x),
            ActivationFunction::Tanh => call_ensures(tanh, (x,), y),
            ActivationFunction::Sigmoid => call_ensures(sigmoid, (x,), y),
            ActivationFunction::Linear => y == x,
        }
    }

    /// Applies the function to `x`. ReLU and Linear are computed here; Tanh
    /// and Sigmoid are handed to `tanh` and `sigmoid`.
    pub fn apply<T: Fn(u32) -> u32, S: Fn(u32) -> u32>(&self, x: u32, tanh: &T, sigmoid: &S) -> (r:
        u32)
        requires
            call_requires(*tanh, (x,)),
            call_requires(*sigmoid, (x,)),
        ensures
            self.gives(*tanh, *sigmoid, x, r),
    {
        match self {
            ActivationFunction::ReLU => relu(x),
            ActivationFunction::Tanh => tanh(x),
            ActivationFunction::Sigmoid => sigmoid(x),
            ActivationFunction::Linear => x,
        }
    }

    /// Writes the tag.
    pub fn to_u8(self) -> (r: u8)
        ensures
            r == self.tag(),
            Self::of_tag(r) == Some(self),
    {
        match self {
            ActivationFunction::ReLU => 0,
            ActivationFunction::Tanh => 1,
            ActivationFunction::Sigmoid => 2,
            ActivationFunction::Linear => 3,
        }
    }
}

/// Every activation function is read back from the tag that is written for it.
pub proof fn lemma_activation_tag_round_trip(a: ActivationFunction)
    ensures
        ActivationFunction::of_tag(a.tag()) == Some(a),
        a.tag() <= 3,
{
}

/// One of the two blocks of parameters that a step has.
#[derive(Debug, Clone, Copy, PartialEq, Eq, Structural)]
pub enum Part {
    Weights,
    Biases,
}

/// Least number of bytes that a buffer must have to be looked at.
pub const MIN_LEN: usize = 8;

/// Input width of the first hidden layer of the standard architecture.
pub const HIDDEN_1: usize = 64;

/// Input width of the second hidden layer of the standard architecture.
pub const HIDDEN_2: usize = 32;

/// What a network holds.
pub struct TinyModel {
    /// Input width, hidden widths, output width.
    pub layer_sizes: Seq<nat>,
    /// One activation function for each step.
    pub activations: Seq<ActivationFunction>,
    /// For each step its weights, output row by output row.
    pub weights: Seq<Seq<u32>>,
    /// For each step one bias for each output.
    pub biases: Seq<Seq<u32>>,
}

/// Number of weights of step `l`.
pub open spec fn weight_count(sizes: Seq<nat>, l: int) -> nat {
    sizes[l + 1] * sizes[l]
}

/// Number of bytes that the first `n` steps take in the wire format.
pub open spec fn payload_len(sizes: Seq<nat>, n: int) -> nat
    decreases n,
{
    if n <= 0 {
        0
    } else {
        payload_len(sizes, n - 1) + 4 * (weight_count(sizes, n - 1) + sizes[n])
    }
}

/// The first block of parameters, from step `from` on, that does not fit in
/// `avail` bytes; `None` when all fit.
pub open spec fn missing(sizes: Seq<nat>, avail: int, from: int) -> Option<Part>
    decreases sizes.len() - from,
{
    if from < 0 || from + 1 >= sizes.len() {
        None
    } else if 4 * weight_count(sizes, from) > avail {
        Some(Part::Weights)
    } else if 4 * sizes[from + 1] > avail - 4 * weight_count(sizes, from) {
        Some(Part::Biases)
    } else {
        missing(sizes, avail - 4 * weight_count(sizes, from) - 4 * sizes[from + 1], from + 1)
    }
}

/// The first byte from `at` up to `end` that is no activation tag.
pub open spec fn first_bad_tag(bytes: Seq<u8>, at: int, end: int) -> Option<u8>
    decreases end - at,
{
    if at >= end {
        None
    } else if bytes[at] > 3 {
        Some(bytes[at])
    } else {
        first_bad_tag(bytes, at + 1, end)
    }
}

/// The layer sizes of the standard architecture: two hidden layers of 64 and
/// 32 units between the observation and the action.
pub open spec fn standard_sizes(obs_dim: nat, action_dim: nat) -> Seq<nat> {
    seq![obs_dim, HIDDEN_1 as nat, HIDDEN_2 as nat, action_dim]
}

/// The number of layer sizes that a buffer declares.
pub open spec fn declared_layers(bytes: Seq<u8>) -> nat {
    half_of(bytes[0], bytes[1]) as nat
}

/// Where the parameters start in a buffer that declares `count` layer sizes.
pub open spec fn header_len(count: nat) -> nat {
    (count + 1) as nat
}

/// The activation functions that the tags of a buffer stand for.
pub open spec fn parsed_activations(bytes: Seq<u8>, count: nat) -> Seq<ActivationFunction> {
    Seq::new((count - 1) as nat, |i: int| ActivationFunction::of_tag(bytes[2 + i]).unwrap())
}

/// The weights of every step, read from `start` on.
pub open spec fn parsed_weights(bytes: Seq<u8>, start: int, sizes: Seq<nat>) -> Seq<Seq<u32>> {
    Seq::new(
        (sizes.len() - 1) as nat,
        |l: int| words_at(bytes, start + payload_len(sizes, l), weight_count(sizes, l)),
    )
}

/// The biases of every step, read from `start` on.
pub open spec fn parsed_biases(bytes: Seq<u8>, start: int, sizes: Seq<nat>) -> Seq<Seq<u32>> {
    Seq::new(
        (sizes.len() - 1) as nat,
        |l: int|
            words_at(
                bytes,
                start + payload_len(sizes, l) + 4 * weight_count(sizes, l),
                sizes[l + 1],
            ),
    )
}

/// The text of the refusal for a block of parameters that does not fit.
pub open spec fn missing_text(part: Part) -> Seq<char> {
    match part {
        Part::Weights => "Insufficient data for weights"@,
        Part::Biases => "Insufficient data for biases"@,
    }
}

/// What building a network of the standard architecture makes of a buffer: the
/// network, or the text of the refusal. The checks come in this order: the
/// least length, the number of layer sizes, the activation tags, the
/// architecture, and the length of the parameters.
pub open spec fn from_weights_spec(bytes: Seq<u8>, obs_dim: nat, action_dim: nat) -> Result<
    TinyModel,
    ErrorModel,
> {
    let count = declared_layers(bytes);
    let sizes = standard_sizes(obs_dim, action_dim);
    let start = header_len(count) as int;
    if bytes.len() < MIN_LEN {
        Err(ErrorModel::InvalidWeights("Insufficient weights for TinyNN"@))
    } else if count < 2 || count > 5 {
        Err(ErrorModel::InvalidWeights("Invalid number of layers"@))
    } else if first_bad_tag(bytes, 2, start) is Some {
        Err(
            ErrorModel::InvalidWeights(
                "Unknown activation function: "@ + decimal(
                    first_bad_tag(bytes, 2, start).unwrap() as nat,
                ),
            ),
        )
    } else if count != 4 {
        Err(ErrorModel::InvalidWeights("Layer size mismatch"@))
    } else if missing(sizes, bytes.len() - start, 0) is Some {
        Err(ErrorModel::InvalidWeights(missing_text(missing(sizes, bytes.len() - start, 0).unwrap())))
    } else {
        Ok(
            TinyModel {
                layer_sizes: sizes,
                activations: parsed_activations(bytes, count),
                weights: parsed_weights(bytes, start, sizes),
                biases: parsed_biases(bytes, start, sizes),
            },
        )
    }
}

/// What replacing the parameters of a network makes of a buffer: the network
/// with the weights and biases of the buffer, or the text of the refusal. The
/// buffer must declare the number of layer sizes that the network has. Its
/// activation tags are passed over: the network keeps its own.
pub open spec fn load_weights_spec(m: TinyModel, bytes: Seq<u8>) -> Result<TinyModel, ErrorModel> {
    let count = declared_layers(bytes);
    let start = header_len(count) as int;
    if bytes.len() < MIN_LEN {
        Err(ErrorModel::InvalidWeights("Insufficient weights for TinyNN"@))
    } else if count != m.layer_sizes.len() {
        Err(ErrorModel::InvalidWeights("Layer size mismatch"@))
    } else if missing(m.layer_sizes, bytes.len() - start, 0) is Some {
        Err(
            ErrorModel::InvalidWeights(
                missing_text(missing(m.layer_sizes, bytes.len() - start, 0).unwrap()),
            ),
        )
    } else {
        Ok(
            TinyModel {
                weights: parsed_weights(bytes, start, m.layer_sizes),
                biases: parsed_biases(bytes, start, m.layer_sizes),
                ..m
            },
        )
    }
}

impl TinyModel {
    /// Number of steps from one layer to the next.
    pub open spec fn steps(self) -> int {
        self.layer_sizes.len() - 1
    }

    /// There are two to five layer sizes, and each step has an activation
    /// function, a weight for each pair of output and input, and a bias for
    /// each output.
    pub open spec fn wf(self) -> bool {
        &&& 2 <= self.layer_sizes.len() <= 5
        &&& self.activations.len() == self.steps()
        &&& self.weights.len() == self.steps()
        &&& self.biases.len() == self.steps()
        &&& forall|l: int|
            0 <= l < self.steps() ==> (#[trigger] self.weights[l]).len() == weight_count(
                self.layer_sizes,
                l,
            )
        &&& forall|l: int|
            0 <= l < self.steps() ==> (#[trigger] self.biases[l]).len() == self.layer_sizes[l + 1]
    }

    /// The weight of step `l` that takes input `in_idx` to output `out_idx`.
    pub open spec fn weight(self, l: int, out_idx: int, in_idx: int) -> u32 {
        self.weights[l][out_idx * self.layer_sizes[l] + in_idx]
    }

    /// The weights of step `l` that lead to output `out_idx`.
    pub open spec fn weight_row(self, l: int, out_idx: int) -> Seq<u32> {
        self.weights[l].subrange(
            out_idx * self.layer_sizes[l],
            (out_idx + 1) * self.layer_sizes[l],
        )
    }

    /// The tags of the activation functions.
    pub open spec fn tags(self) -> Seq<u8> {
        Seq::new(self.activations.len(), |i: int| self.activations[i].tag())
    }

    /// The bytes of the parameters of the first `n` steps.
    pub open spec fn payload(self, n: int) -> Seq<u8>
        decreases n,
    {
        if n <= 0 {
            Seq::<u8>::empty()
        } else {
            self.payload(n - 1) + words_bytes(self.weights[n - 1]) + words_bytes(
                self.biases[n - 1],
            )
        }
    }

    /// The bytes of the wire format.
    pub open spec fn encoding(self) -> Seq<u8> {
        half_bytes(self.layer_sizes.len() as u16) + self.tags() + self.payload(self.steps())
    }
}

/// The parameters of the first `n` steps take as many bytes as `payload_len` says.
pub proof fn lemma_payload_len(m: TinyModel, n: int)
    requires
        m.wf(),
        0 <= n <= m.steps(),
    ensures
        m.payload(n).len() == payload_len(m.layer_sizes, n),
    decreases n,
{
    if n > 0 {
        lemma_payload_len(m, n - 1);
    }
}

/// The bytes of the first `n` steps begin with those of the first `l`.
pub proof fn lemma_payload_prefix(m: TinyModel, l: int, n: int)
    requires
        m.wf(),
        0 <= l <= n <= m.steps(),
    ensures
        m.payload(l).len() <= m.payload(n).len(),
        m.payload(n).subrange(0, m.payload(l).len() as int) == m.payload(l),
    decreases n - l,
{
    if l < n {
        lemma_payload_prefix(m, l, n - 1);
    }
}

/// A buffer that holds everything from step `from` on lacks nothing.
pub proof fn lemma_nothing_missing(sizes: Seq<nat>, from: int, extra: int)
    requires
        0 <= from <= sizes.len() - 1,
        0 <= extra,
    ensures
        missing(
            sizes,
            payload_len(sizes, sizes.len() - 1) - payload_len(sizes, from) + extra,
            from,
        ) is None,
        payload_len(sizes, from) <= payload_len(sizes, sizes.len() - 1),
    decreases sizes.len() - from,
{
    if from + 1 < sizes.len() {
        lemma_nothing_missing(sizes, from + 1, extra);
    }
}

/// The weights and biases of every step are read back from the bytes that
/// were written for them, wherever the parameters start.
pub proof fn lemma_payload_round_trip(m: TinyModel, head: Seq<u8>)
    requires
        m.wf(),
    ensures
        parsed_weights(head + m.payload(m.steps()), head.len() as int, m.layer_sizes)
            == m.weights,
        parsed_biases(head + m.payload(m.steps()), head.len() as int, m.layer_sizes) == m.biases,
{
    let bytes = head + m.payload(m.steps());
    let start = head.len() as int;
    let sizes = m.layer_sizes;
    let pw = parsed_weights(bytes, start, sizes);
    let pb = parsed_biases(bytes, start, sizes);
    assert forall|l: int| 0 <= l < m.steps() implies pw[l] == m.weights[l] && pb[l]
        == m.biases[l] by {
        let w = m.weights[l];
        let b = m.biases[l];
        lemma_payload_len(m, l);
        lemma_payload_len(m, l + 1);
        lemma_payload_prefix(m, l + 1, m.steps());
        let upto = m.payload(l + 1);
        let whole = m.payload(m.steps());
        let rest = whole.subrange(upto.len() as int, whole.len() as int);
        assert(whole =~= whole.subrange(0, upto.len() as int) + rest);
        lemma_words_at_words_bytes(head + m.payload(l), w, words_bytes(b) + rest);
        lemma_words_at_words_bytes(head + m.payload(l) + words_bytes(w), b, rest);
    }
}

/// Serialising a network and loading the bytes again gives back the same
/// weights and biases, bit for bit, provided the bytes reach the least length
/// that a buffer must have.
pub proof fn lemma_tiny_round_trip(m: TinyModel)
    requires
        m.wf(),
        m.encoding().len() >= MIN_LEN,
    ensures
        load_weights_spec(m, m.encoding()) == Ok::<TinyModel, ErrorModel>(m),
{
    let bytes = m.encoding();
    let count = m.layer_sizes.len();
    let head = half_bytes(count as u16) + m.tags();
    lemma_half_of_bytes(count as u16);
    lemma_payload_len(m, m.steps());
    lemma_nothing_missing(m.layer_sizes, 0, 0);
    lemma_payload_round_trip(m, head);
}

/// Serialising a network of the standard architecture and building a network
/// from the bytes gives back the same network.
pub proof fn lemma_tiny_standard_round_trip(m: TinyModel, obs_dim: nat, action_dim: nat)
    requires
        m.wf(),
        m.layer_sizes == standard_sizes(obs_dim, action_dim),
    ensures
        from_weights_spec(m.encoding(), obs_dim, action_dim) == Ok::<TinyModel, ErrorModel>(m),
{
    let bytes = m.encoding();
    let count = m.layer_sizes.len();
    let head = half_bytes(count as u16) + m.tags();
    lemma_half_of_bytes(count as u16);
    lemma_payload_len(m, m.steps());
    lemma_nothing_missing(m.layer_sizes, 0, 0);
    lemma_payload_round_trip(m, head);
    lemma_activation_tag_round_trip(m.activations[0]);
    lemma_activation_tag_round_trip(m.activations[1]);
    lemma_activation_tag_round_trip(m.activations[2]);
    assert(first_bad_tag(bytes, 5, 5) is None);
    assert(first_bad_tag(bytes, 4, 5) is None);
    assert(first_bad_tag(bytes, 3, 5) is None);
    assert(parsed_activations(bytes, 4) =~= m.activations);
}

/// Whether `out` is a value that a unit can give: what its activation
/// function gives for a sum that `affine` can give for the unit's weights, the
/// input and the unit's bias.
pub open spec fn neuron_gives<F, T, S>(
    affine: F,
    tanh: T,
    sigmoid: S,
    row: Seq<u32>,
    input: Seq<u32>,
    bias: u32,
    activation: ActivationFunction,
    out: u32,
) -> bool where F: Fn(&[u32], &[u32], u32) -> u32, T: Fn(u32) -> u32, S: Fn(u32) -> u32 {
    exists|sum: u32| #[trigger]
        affine_gives(affine, row, input, bias, sum) && activation.gives(tanh, sigmoid, sum, out)
}

/// Whether step `l` of the network can take `input` to `output`: there is
/// one output for each unit of the next layer, and each is what the unit
/// gives for its weights and bias, the leading elements of the input that the
/// step reads, and the activation function of the step.
pub open spec fn layer_maps<F, T, S>(
    affine: F,
    tanh: T,
    sigmoid: S,
    m: TinyModel,
    l: int,
    input: Seq<u32>,
    output: Seq<u32>,
) -> bool where F: Fn(&[u32], &[u32], u32) -> u32, T: Fn(u32) -> u32, S: Fn(u32) -> u32 {
    &&& output.len() == m.layer_sizes[l + 1]
    &&& forall|o: int|
        0 <= o < output.len() ==> neuron_gives(
            affine,
            tanh,
            sigmoid,
            m.weight_row(l, o),
            input.take(m.layer_sizes[l] as int),
            m.biases[l][o],
            m.activations[l],
            #[trigger] output[o],
        )
}

/// Whether the first `n` steps of the network, one after the other, can take
/// `input` to `output`.
pub open spec fn forward_maps<F, T, S>(
    affine: F,
    tanh: T,
    sigmoid: S,
    m: TinyModel,
    n: int,
    input: Seq<u32>,
    output: Seq<u32>,
) -> bool where F: Fn(&[u32], &[u32], u32) -> u32, T: Fn(u32) -> u32, S: Fn(u32) -> u32
    decreases n,
{
    if n <= 0 {
        output == input
    } else {
        let before = n - 1;
        exists|mid: Seq<u32>|
            forward_maps(affine, tanh, sigmoid, m, before, input, mid) && #[trigger] layer_maps(
                affine,
                tanh,
                sigmoid,
                m,
                before,
                mid,
                output,
            )
    }
}

/// A forward pass of one step or more ends with its last step, applied to
/// what the steps before it can give.
pub proof fn lemma_forward_last_step<F, T, S>(
    affine: F,
    tanh: T,
    sigmoid: S,
    m: TinyModel,
    n: int,
    input: Seq<u32>,
    output: Seq<u32>,
) where F: Fn(&[u32], &[u32], u32) -> u32, T: Fn(u32) -> u32, S: Fn(u32) -> u32
    requires
        forward_maps(affine, tanh, sigmoid, m, n, input, output),
        n > 0,
    ensures
        exists|mid: Seq<u32>|
            forward_maps(affine, tanh, sigmoid, m, n - 1, input, mid) && #[trigger] layer_maps(
                affine,
                tanh,
                sigmoid,
                m,
                n - 1,
                mid,
                output,
            ),
{
}

/// The widths of a network as natural numbers.
pub open spec fn sizes_of(sizes: Seq<usize>) -> Seq<nat> {
    Seq::new(sizes.len(), |i: int| sizes[i] as nat)
}

/// The contents of a vector of blocks.
pub open spec fn blocks_of(blocks: Seq<Vec<u32>>) -> Seq<Seq<u32>> {
    Seq::new(blocks.len(), |l: int| blocks[l]@)
}

/// A small feed-forward network from observations of `OBS_DIM` to actions of
/// `ACTION_DIM` elements.
pub struct TinyNN<const OBS_DIM: usize, const ACTION_DIM: usize> {
    layer_sizes: Vec<usize>,
    weights: Vec<Vec<u32>>,
    biases: Vec<Vec<u32>>,
    activations: Vec<ActivationFunction>,
}

impl<const OBS_DIM: usize, const ACTION_DIM: usize> View for TinyNN<OBS_DIM, ACTION_DIM> {
    type V = TinyModel;

    closed spec fn view(&self) -> TinyModel {
        TinyModel {
            layer_sizes: sizes_of(self.layer_sizes@),
            activations: self.activations@,
            weights: blocks_of(self.weights@),
            biases: blocks_of(self.biases@),
        }
    }
}

/// An output's row of weights lies inside the weights of its step.
proof fn lemma_row_in_block(outputs: int, inputs: int, out_idx: int)
    requires
        0 <= out_idx < outputs,
        0 <= inputs,
    ensures
        0 <= out_idx * inputs,
        (out_idx + 1) * inputs <= outputs * inputs,
        (out_idx + 1) * inputs == out_idx * inputs + inputs,
{
    assert(0 <= out_idx * inputs) by (nonlinear_arith)
        requires
            0 <= out_idx,
            0 <= inputs,
    ;
    assert((out_idx + 1) * inputs <= outputs * inputs) by (nonlinear_arith)
        requires
            out_idx + 1 <= outputs,
            0 <= inputs,
    ;
    assert((out_idx + 1) * inputs == out_idx * inputs + inputs) by (nonlinear_arith);
}

/// The weights of one step, each as `init` gives it.
fn init_block<F: Fn(usize, usize, usize) -> u32>(
    init: &F,
    step: usize,
    outputs: usize,
    inputs: usize,
) -> (block: Vec<u32>)
    requires
        outputs * inputs <= usize::MAX,
        forall|o: usize, i: usize| o < outputs && i < inputs ==> call_requires(*init, (step, o, i)),
    ensures
        block@.len() == outputs * inputs,
        forall|o: usize, i: usize|
            o < outputs && i < inputs ==> call_ensures(
                *init,
                (step, o, i),
                #[trigger] block@[o * inputs + i],
            ),
{
    let mut block: Vec<u32> = Vec::new();
    let mut o: usize = 0;
    while o < outputs
        invariant
            o <= outputs,
            outputs * inputs <= usize::MAX,
            block@.len() == o * inputs,
            forall|a: usize, b: usize|
                a < outputs && b < inputs ==> call_requires(*init, (step, a, b)),
            forall|a: usize, b: usize|
                a < o && b < inputs ==> call_ensures(
                    *init,
                    (step, a, b),
                    #[trigger] block@[a * inputs + b],
                ),
        decreases outputs - o,
    {
        let mut i: usize = 0;
        proof {
            lemma_row_in_block(outputs as int, inputs as int, o as int);
        }
        while i < inputs
            invariant
                o < outputs,
                i <= inputs,
                block@.len() == o * inputs + i,
                forall|b: usize| b < inputs ==> call_requires(*init, (step, o, b)),
                forall|a: usize, b: usize|
                    a < o && b < inputs ==> call_ensures(
                        *init,
                        (step, a, b),
                        #[trigger] block@[a * inputs + b],
                    ),
                forall|b: usize|
                    b < i ==> call_ensures(*init, (step, o, b), #[trigger] block@[o * inputs + b]),
            decreases inputs - i,
        {
            let w: u32 = init(step, o, i);
            block.push(w);
            proof {
                assert forall|a: usize, b: usize| a < o && b < inputs implies call_ensures(
                    *init,
                    (step, a, b),
                    #[trigger] block@[a * inputs + b],
                ) by {
                    lemma_row_in_block(o as int, inputs as int, a as int);
                }
            }
            i += 1;
        }
        o += 1;
    }
    block
}

/// Reads the weights and biases of every step from `start` on, or says which
/// block is the first that the buffer does not hold.
fn read_blocks(data: &[u8], start: usize, sizes: &Vec<usize>) -> (r: Result<
    (Vec<Vec<u32>>, Vec<Vec<u32>>),
    Part,
>)
    requires
        start <= data@.len(),
        1 <= sizes@.len(),
    ensures
        match r {
            Ok((ws, bs)) => {
                &&& missing(sizes_of(sizes@), data@.len() - start, 0) is None
                &&& blocks_of(ws@) == parsed_weights(data@, start as int, sizes_of(sizes@))
                &&& blocks_of(bs@) == parsed_biases(data@, start as int, sizes_of(sizes@))
            },
            Err(part) => missing(sizes_of(sizes@), data@.len() - start, 0) == Some(part),
        },
{
    let ghost sz = sizes_of(sizes@);
    let steps: usize = sizes.len() - 1;
    let len: usize = data.len();
    let mut ws: Vec<Vec<u32>> = Vec::new();
    let mut bs: Vec<Vec<u32>> = Vec::new();
    let mut at: usize = start;
    let mut l: usize = 0;
    while l < steps
        invariant
            l <= steps,
            steps == sizes@.len() - 1,
            sz == sizes_of(sizes@),
            len == data@.len(),
            start <= at <= len,
            at == start + payload_len(sz, l as int),
            missing(sz, len - start, 0) == missing(sz, len - at, l as int),
            ws@.len() == l,
            bs@.len() == l,
            forall|k: int|
                0 <= k < l ==> (#[trigger] ws@[k])@ == words_at(
                    data@,
                    start + payload_len(sz, k),
                    weight_count(sz, k),
                ),
            forall|k: int|
                0 <= k < l ==> (#[trigger] bs@[k])@ == words_at(
                    data@,
                    start + payload_len(sz, k) + 4 * weight_count(sz, k),
                    sz[k + 1],
                ),
        decreases steps - l,
    {
        let inputs: usize = sizes[l];
        let outputs: usize = sizes[l + 1];
        let count: usize = match outputs.checked_mul(inputs) {
            Some(c) => c,
            None => {
                return Err(Part::Weights);
            },
        };
        if count > (len - at) / 4 {
            return Err(Part::Weights);
        }
        let w: Vec<u32> = read_words(data, at, count);
        let after_weights: usize = at + 4 * count;
        if outputs > (len - after_weights) / 4 {
            return Err(Part::Biases);
        }
        let b: Vec<u32> = read_words(data, after_weights, outputs);
        ws.push(w);
        bs.push(b);
        at = after_weights + 4 * outputs;
        l += 1;
    }
    Ok((ws, bs))
}

impl<const OBS_DIM: usize, const ACTION_DIM: usize> TinyNN<OBS_DIM, ACTION_DIM> {
    /// The parameters have the shape that the layer sizes ask for.
    pub open spec fn wf(&self) -> bool {
        self@.wf()
    }

    /// A network of the given layer sizes and activation functions, with
    /// biases of zero and each weight as `init` gives it for its step, output
    /// and input.
    pub fn with_architecture<F: Fn(usize, usize, usize) -> u32>(
        layer_sizes: Vec<usize>,
        activations: Vec<ActivationFunction>,
        init: F,
    ) -> (r: Self)
        requires
            2 <= layer_sizes@.len() <= 5,
            activations@.len() == layer_sizes@.len() - 1,
            forall|l: int|
                0 <= l < layer_sizes@.len() - 1 ==> #[trigger] weight_count(
                    sizes_of(layer_sizes@),
                    l,
                ) <= usize::MAX,
            forall|l: usize, o: usize, i: usize|
                l < layer_sizes@.len() - 1 && o < layer_sizes@[l + 1] && i < layer_sizes@[l as int]
                    ==> call_requires(init, (l, o, i)),
        ensures
            r.wf(),
            r@.layer_sizes == sizes_of(layer_sizes@),
            r@.activations == activations@,
            forall|l: int|
                0 <= l < layer_sizes@.len() - 1 ==> #[trigger] r@.biases[l] == Seq::new(
                    layer_sizes@[l + 1] as nat,
                    |i: int| ZERO,
                ),
            forall|l: usize, o: usize, i: usize|
                l < layer_sizes@.len() - 1 && o < layer_sizes@[l + 1] && i < layer_sizes@[l as int]
                    ==> call_ensures(
                    init,
                    (l, o, i),
                    #[trigger] r@.weight(l as int, o as int, i as int),
                ),
    {
        let steps: usize = layer_sizes.len() - 1;
        let mut weights: Vec<Vec<u32>> = Vec::new();
        let mut biases: Vec<Vec<u32>> = Vec::new();
        let mut l: usize = 0;
        while l < steps
            invariant
                l <= steps,
                steps == layer_sizes@.len() - 1,
                weights@.len() == l,
                biases@.len() == l,
                forall|k: int|
                    0 <= k < layer_sizes@.len() - 1 ==> #[trigger] weight_count(
                        sizes_of(layer_sizes@),
                        k,
                    ) <= usize::MAX,
                forall|k: usize, o: usize, i: usize|
                    k < layer_sizes@.len() - 1 && o < layer_sizes@[k + 1] && i < layer_sizes@[k as int]
                        ==> call_requires(init, (k, o, i)),
                forall|k: int|
                    0 <= k < l ==> (#[trigger] weights@[k])@.len() == layer_sizes@[k + 1]
                        * layer_sizes@[k],
                forall|k: int|
                    0 <= k < l ==> (#[trigger] biases@[k])@ == Seq::new(
                        layer_sizes@[k + 1] as nat,
                        |i: int| ZERO,
                    ),
                forall|k: usize, o: usize, i: usize|
                    k < l && o < layer_sizes@[k + 1] && i < layer_sizes@[k as int] ==> call_ensures(
                        init,
                        (k, o, i),
                        #[trigger] weights@[k as int]@[o * layer_sizes@[k as int] + i],
                    ),
            decreases steps - l,
        {
            let inputs: usize = layer_sizes[l];
            let outputs: usize = layer_sizes[l + 1];
            assert(weight_count(sizes_of(layer_sizes@), l as int) <= usize::MAX);
            let block: Vec<u32> = init_block(&init, l, outputs, inputs);
            weights.push(block);
            biases.push(zeros(outputs));
            l += 1;
        }
        TinyNN { layer_sizes, weights, biases, activations }
    }

    /// A network of the standard architecture: hidden layers of 64 and 32
    /// units with ReLU, and Tanh on the output.
    pub fn new<F: Fn(usize, usize, usize) -> u32>(init: F) -> (r: Self)
        requires
            HIDDEN_1 * OBS_DIM <= usize::MAX,
            ACTION_DIM * HIDDEN_2 <= usize::MAX,
            forall|l: usize, o: usize, i: usize| call_requires(init, (l, o, i)),
        ensures
            r.wf(),
            r@.layer_sizes == standard_sizes(OBS_DIM as nat, ACTION_DIM as nat),
            r@.activations == seq![
                ActivationFunction::ReLU,
                ActivationFunction::ReLU,
                ActivationFunction::Tanh,
            ],
            forall|l: int|
                0 <= l < 3 ==> #[trigger] r@.biases[l] == Seq::new(
                    r@.layer_sizes[l + 1],
                    |i: int| ZERO,
                ),
            forall|l: usize, o: usize, i: usize|
                l < 3 && o < r@.layer_sizes[l + 1] && i < r@.layer_sizes[l as int] ==> call_ensures(
                    init,
                    (l, o, i),
                    #[trigger] r@.weight(l as int, o as int, i as int),
                ),
    {
        let mut layer_sizes: Vec<usize> = Vec::new();
        layer_sizes.push(OBS_DIM);
        layer_sizes.push(HIDDEN_1);
        layer_sizes.push(HIDDEN_2);
        layer_sizes.push(ACTION_DIM);
        let mut activations: Vec<ActivationFunction> = Vec::new();
        activations.push(ActivationFunction::ReLU);
        activations.push(ActivationFunction::ReLU);
        activations.push(ActivationFunction::Tanh);
        proof {
            let sz = sizes_of(layer_sizes@);
            assert forall|l: int| 0 <= l < layer_sizes@.len() - 1 implies #[trigger] weight_count(
                sz,
                l,
            ) <= usize::MAX by {
                assert(weight_count(sz, 1) == HIDDEN_2 * HIDDEN_1);
            }
        }
        Self::with_architecture(layer_sizes, activations, init)
    }

    /// Builds a network of the standard architecture from the wire format.
    pub fn from_weights(weights: &[u8]) -> (r: Result<Self, Error>)
        ensures
            match r {
                Ok(p) => p.wf() && from_weights_spec(weights@, OBS_DIM as nat, ACTION_DIM as nat)
                    == Ok::<TinyModel, ErrorModel>(p@),
                Err(e) => from_weights_spec(weights@, OBS_DIM as nat, ACTION_DIM as nat) == Err::<
                    TinyModel,
                    ErrorModel,
                >(e@),
            },
    {
        if weights.len() < MIN_LEN {
            return Err(invalid_weights("Insufficient weights for TinyNN"));
        }
        let count: usize = read_half(weights, 0) as usize;
        if count < 2 || count > 5 {
            return Err(invalid_weights("Invalid number of layers"));
        }
        let start: usize = count + 1;
        let mut activations: Vec<ActivationFunction> = Vec::new();
        let mut i: usize = 0;
        while i < count - 1
            invariant
                2 <= count <= 5,
                count == declared_layers(weights@),
                start == count + 1,
                weights@.len() >= MIN_LEN,
                i <= count - 1,
                activations@.len() == i,
                first_bad_tag(weights@, 2, start as int) == first_bad_tag(
                    weights@,
                    2 + i,
                    start as int,
                ),
                forall|k: int|
                    0 <= k < i ==> ActivationFunction::of_tag(weights@[2 + k]) == Some(
                        #[trigger] activations@[k],
                    ),
            decreases count - 1 - i,
        {
            let tag: u8 = weights[2 + i];
            match ActivationFunction::from_u8(tag) {
                Ok(a) => {
                    activations.push(a);
                },
                Err(e) => {
                    return Err(e);
                },
            }
            i += 1;
        }
        assert(activations@ =~= parsed_activations(weights@, count as nat));
        if count != 4 {
            return Err(invalid_weights("Layer size mismatch"));
        }
        let mut layer_sizes: Vec<usize> = Vec::new();
        layer_sizes.push(OBS_DIM);
        layer_sizes.push(HIDDEN_1);
        layer_sizes.push(HIDDEN_2);
        layer_sizes.push(ACTION_DIM);
        assert(sizes_of(layer_sizes@) =~= standard_sizes(OBS_DIM as nat, ACTION_DIM as nat));
        match read_blocks(weights, start, &layer_sizes) {
            Ok((ws, bs)) => {
                Ok(TinyNN { layer_sizes, weights: ws, biases: bs, activations })
            },
            Err(Part::Weights) => Err(invalid_weights("Insufficient data for weights")),
            Err(Part::Biases) => Err(invalid_weights("Insufficient data for biases")),
        }
    }

    /// The action for an observation. The observation goes through the steps
    /// of the network one after the other; each output of a step is
    /// `activation(row . input + bias)`, the sum as `affine` gives it for the
    /// unit's weights, the step's input and the unit's bias, and the
    /// activation function of the step applied as `apply` does. The outputs
    /// of the last step become the action, cut or filled with zeros to its
    /// length.
    pub fn act<F, T, S>(&self, obs: &Obs<OBS_DIM>, affine: F, tanh: T, sigmoid: S) -> (r: Action<
        ACTION_DIM,
    >) where F: Fn(&[u32], &[u32], u32) -> u32, T: Fn(u32) -> u32, S: Fn(u32) -> u32
        requires
            self.wf(),
            self@.layer_sizes[0] <= OBS_DIM,
            forall|row: &[u32], x: &[u32], b: u32|
                row@.len() == x@.len() ==> call_requires(affine, (row, x, b)),
            forall|s: u32| call_requires(tanh, (s,)),
            forall|s: u32| call_requires(sigmoid, (s,)),
        ensures
            exists|last: Seq<u32>|
                forward_maps(affine, tanh, sigmoid, self@, self@.steps(), obs@, last) && r@
                    == Action::<ACTION_DIM>::from_prefix_spec(last),
    {
        proof {
            obs.lemma_len();
        }
        let mut current: Vec<u32> = slice_to_vec(obs.as_slice());
        let steps: usize = self.weights.len();
        let mut l: usize = 0;
        while l < steps
            invariant
                l <= steps,
                self.wf(),
                steps == self@.steps(),
                current@.len() >= self@.layer_sizes[l as int],
                forward_maps(affine, tanh, sigmoid, self@, l as int, obs@, current@),
                forall|row: &[u32], x: &[u32], b: u32|
                    row@.len() == x@.len() ==> call_requires(affine, (row, x, b)),
                forall|s: u32| call_requires(tanh, (s,)),
                forall|s: u32| call_requires(sigmoid, (s,)),
            decreases steps - l,
        {
            let inputs: usize = self.layer_sizes[l];
            let outputs: usize = self.layer_sizes[l + 1];
            let activation: ActivationFunction = self.activations[l];
            let block: &[u32] = self.weights[l].as_slice();
            let biases: &[u32] = self.biases[l].as_slice();
            let input: &[u32] = slice_subrange(current.as_slice(), 0, inputs);
            proof {
                assert(self@.weights[l as int] == self.weights@[l as int]@);
            }
            let cells: usize = block.len();
            let mut next: Vec<u32> = Vec::new();
            let mut o: usize = 0;
            while o < outputs
                invariant
                    o <= outputs,
                    l < steps,
                    cells == outputs * inputs,
                    self.wf(),
                    steps == self@.steps(),
                    inputs == self@.layer_sizes[l as int],
                    outputs == self@.layer_sizes[l + 1],
                    activation == self@.activations[l as int],
                    block@ == self@.weights[l as int],
                    biases@ == self@.biases[l as int],
                    block@.len() == outputs * inputs,
                    input@ == current@.take(inputs as int),
                    input@.len() == inputs,
                    next@.len() == o,
                    forall|row: &[u32], x: &[u32], b: u32|
                        row@.len() == x@.len() ==> call_requires(affine, (row, x, b)),
                    forall|s: u32| call_requires(tanh, (s,)),
                    forall|s: u32| call_requires(sigmoid, (s,)),
                    forall|k: int|
                        0 <= k < o ==> neuron_gives(
                            affine,
                            tanh,
                            sigmoid,
                            self@.weight_row(l as int, k),
                            current@.take(inputs as int),
                            self@.biases[l as int][k],
                            activation,
                            #[trigger] next@[k],
                        ),
                decreases outputs - o,
            {
                proof {
                    lemma_row_in_block(outputs as int, inputs as int, o as int);
                }
                let from: usize = o * inputs;
                let row: &[u32] = slice_subrange(block, from, from + inputs);
                let bias: u32 = biases[o];
                let sum: u32 = affine(row, input, bias);
                let value: u32 = activation.apply(sum, &tanh, &sigmoid);
                next.push(value);
                proof {
                    assert(affine_gives(
                        affine,
                        self@.weight_row(l as int, o as int),
                        current@.take(inputs as int),
                        self@.biases[l as int][o as int],
                        sum,
                    ));
                }
                o += 1;
            }
            proof {
                let n = l + 1;
                assert(layer_maps(affine, tanh, sigmoid, self@, n - 1, current@, next@));
            }
            current = next;
            l += 1;
        }
        Action::from_prefix(current.as_slice())
    }

    /// Replaces the weights and biases from the wire format. The buffer must
    /// declare the number of layer sizes that the network has and hold every
    /// block of parameters; a refused buffer leaves the network as it was.
    pub fn load_weights(&mut self, weights: &[u8]) -> (r: Result<(), Error>)
        requires
            old(self).wf(),
        ensures
            final(self).wf(),
            match r {
                Ok(_) => load_weights_spec(old(self)@, weights@) == Ok::<TinyModel, ErrorModel>(
                    final(self)@,
                ),
                Err(e) => load_weights_spec(old(self)@, weights@) == Err::<
                    TinyModel,
                    ErrorModel,
                >(e@) && final(self)@ == old(self)@,
            },
    {
        if weights.len() < MIN_LEN {
            return Err(invalid_weights("Insufficient weights for TinyNN"));
        }
        let count: usize = read_half(weights, 0) as usize;
        if count != self.layer_sizes.len() {
            return Err(invalid_weights("Layer size mismatch"));
        }
        let start: usize = count + 1;
        match read_blocks(weights, start, &self.layer_sizes) {
            Ok((ws, bs)) => {
                self.weights = ws;
                self.biases = bs;
                Ok(())
            },
            Err(Part::Weights) => Err(invalid_weights("Insufficient data for weights")),
            Err(Part::Biases) => Err(invalid_weights("Insufficient data for biases")),
        }
    }

    /// Writes the parameters in the wire format.
    pub fn get_weights(&self) -> (r: Result<Vec<u8>, Error>)
        requires
            self.wf(),
        ensures
            r matches Ok(bytes) && bytes@ == self@.encoding(),
    {
        let mut out: Vec<u8> = Vec::new();
        push_half(&mut out, self.layer_sizes.len() as u16);
        let steps: usize = self.activations.len();
        let mut i: usize = 0;
        while i < steps
            invariant
                i <= steps,
                steps == self.activations@.len(),
                out@ == half_bytes(self.layer_sizes@.len() as u16) + self@.tags().take(i as int),
            decreases steps - i,
        {
            out.push(self.activations[i].to_u8());
            i += 1;
        }
        let ghost head = out@;
        let mut l: usize = 0;
        while l < steps
            invariant
                l <= steps,
                self.wf(),
                steps == self@.steps(),
                out@ == head + self@.payload(l as int),
            decreases steps - l,
        {
            push_words(&mut out, self.weights[l].as_slice());
            push_words(&mut out, self.biases[l].as_slice());
            l += 1;
        }
        Ok(out)
    }

    /// The name of the algorithm.
    pub fn algorithm_name(&self) -> (r: &'static str)
        ensures
            r@ == "TinyNN"@,
    {
        "TinyNN"
    }

    /// The number of layer sizes.
    pub fn num_layers(&self) -> (r: usize)
        ensures
            r == self@.layer_sizes.len(),
    {
        self.layer_sizes.len()
    }

    /// The width of layer `layer_idx`.
    pub fn layer_size(&self, layer_idx: usize) -> (r: usize)
        requires
            layer_idx < self@.layer_sizes.len(),
        ensures
            r == self@.layer_sizes[layer_idx as int],
    {
        self.layer_sizes[layer_idx]
    }

    /// The activation function of step `layer_idx`.
    pub fn activation(&self, layer_idx: usize) -> (r: ActivationFunction)
        requires
            layer_idx < self@.activations.len(),
        ensures
            r == self@.activations[layer_idx as int],
    {
        self.activations[layer_idx]
    }

    /// The weight of step `layer_idx` that takes input `in_idx` to output
    /// `out_idx`.
    pub fn get_weight(&self, layer_idx: usize, out_idx: usize, in_idx: usize) -> (r: u32)
        requires
            self.wf(),
            layer_idx < self@.steps(),
            out_idx < self@.layer_sizes[layer_idx + 1],
            in_idx < self@.layer_sizes[layer_idx as int],
        ensures
            r == self@.weight(layer_idx as int, out_idx as int, in_idx as int),
    {
        let inputs: usize = self.layer_sizes[layer_idx];
        let outputs: usize = self.layer_sizes[layer_idx + 1];
        let cells: usize = self.weights[layer_idx].len();
        proof {
            assert(self@.weights[layer_idx as int] == self.weights@[layer_idx as int]@);
            lemma_row_in_block(outputs as int, inputs as int, out_idx as int);
            assert(out_idx * inputs + in_idx < cells);
        }
        self.weights[layer_idx][out_idx * inputs + in_idx]
    }

    /// The bias of output `out_idx` of step `layer_idx`.
    pub fn get_bias(&self, layer_idx: usize, out_idx: usize) -> (r: u32)
        requires
            self.wf(),
            layer_idx < self@.steps(),
            out_idx < self@.layer_sizes[layer_idx + 1],
        ensures
            r == self@.biases[layer_idx as int][out_idx as int],
    {
        proof {
            assert(self@.biases[layer_idx as int] == self.biases@[layer_idx as int]@);
        }
        self.biases[layer_idx][out_idx]
    }

    /// The weights of step `layer_idx`, output row by output row.
    pub fn layer_weights(&self, layer_idx: usize) -> (r: &[u32])
        requires
            self.wf(),
            layer_idx < self@.steps(),
        ensures
            r@ == self@.weights[layer_idx as int],
    {
        self.weights[layer_idx].as_slice()
    }

    /// The biases of step `layer_idx`.
    pub fn layer_biases(&self, layer_idx: usize) -> (r: &[u32])
        requires
            self.wf(),
            layer_idx < self@.steps(),
        ensures
            r@ == self@.biases[layer_idx as int],
    {
        self.biases[layer_idx].as_slice()
    }
}

} // verus!
