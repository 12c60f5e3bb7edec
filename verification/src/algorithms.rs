//! The learning algorithms whose parameters the runtime can hold, and the
//! closed choice among them that an environment owns.

use vstd::prelude::*;
use crate::env::AlgorithmType;
use crate::error::{Error, ErrorModel};

pub mod tabular_q;
pub mod linear_fa;
pub mod tiny_nn;
pub mod mock;
pub mod utils;

pub use tabular_q::TabularQLearning;
pub use linear_fa::LinearFA;
pub use tiny_nn::{ActivationFunction, TinyNN};
pub use mock::MockPolicy;

use linear_fa::LinearModel;
use tabular_q::TabularModel;
use tiny_nn::TinyModel;

verus! {

/// What every policy offers besides its action: loading and writing its
/// weights, and its name. The action is not part of the trait because each
/// algorithm asks its caller for arithmetic of its own.
pub trait Policy: Sized {
    /// What the policy holds, as plain values.
    type Model;

    /// The plain values of the policy.
    spec fn model(&self) -> Self::Model;

    /// The parameters have the shape that the algorithm asks for.
    spec fn valid(&self) -> bool;

    /// What loading a buffer into a policy gives: the policy with its new
    /// parameters, or the refusal.
    spec fn loaded(m: Self::Model, bytes: Seq<u8>) -> Result<Self::Model, ErrorModel>;

    /// What writing a policy gives: the bytes, or the refusal.
    spec fn written(m: Self::Model) -> Result<Seq<u8>, ErrorModel>;

    /// The name of the algorithm.
    spec fn name(m: Self::Model) -> Seq<char>;

    /// Replaces the weights from the wire format. A refused buffer leaves the
    /// policy as it was.
    fn update_weights(&mut self, weights: &[u8]) -> (r: Result<(), Error>)
        requires
            old(self).valid(),
        ensures
            final(self).valid(),
            match r {
                Ok(_) => Self::loaded(old(self).model(), weights@) == Ok::<
                    Self::Model,
                    ErrorModel,
                >(final(self).model()),
                Err(e) => Self::loaded(old(self).model(), weights@) == Err::<
                    Self::Model,
                    ErrorModel,
                >(e@) && final(self).model() == old(self).model(),
            },
    ;

    /// Writes the weights in the wire format.
    fn get_weights(&self) -> (r: Result<Vec<u8>, Error>)
        requires
            self.valid(),
        ensures
            match r {
                Ok(bytes) => Self::written(self.model()) == Ok::<Seq<u8>, ErrorModel>(bytes@),
                Err(e) => Self::written(self.model()) == Err::<Seq<u8>, ErrorModel>(e@),
            },
    ;

    /// The name of the algorithm.
    fn algorithm_name(&self) -> (r: &'static str)
        ensures
            r@ == Self::name(self.model()),
    ;
}

impl<const OBS_DIM: usize, const ACTION_DIM: usize> Policy for TabularQLearning<
    OBS_DIM,
    ACTION_DIM,
> {
    type Model = TabularModel;

    open spec fn model(&self) -> TabularModel {
        self@
    }

    open spec fn valid(&self) -> bool {
        self.wf()
    }

    open spec fn loaded(m: TabularModel, bytes: Seq<u8>) -> Result<TabularModel, ErrorModel> {
        tabular_q::load_weights_spec(m, bytes)
    }

    open spec fn written(m: TabularModel) -> Result<Seq<u8>, ErrorModel> {
        tabular_q::get_weights_spec(m)
    }

    open spec fn name(m: TabularModel) -> Seq<char> {
        "TabularQLearning"@
    }

    fn update_weights(&mut self, weights: &[u8]) -> (r: Result<(), Error>) {
        self.load_weights(weights)
    }

    fn get_weights(&self) -> (r: Result<Vec<u8>, Error>) {
        TabularQLearning::get_weights(self)
    }

    fn algorithm_name(&self) -> (r: &'static str) {
        TabularQLearning::algorithm_name(self)
    }
}

impl<const OBS_DIM: usize, const ACTION_DIM: usize> Policy for LinearFA<OBS_DIM, ACTION_DIM> {
    type Model = LinearModel;

    open spec fn model(&self) -> LinearModel {
        self@
    }

    open spec fn valid(&self) -> bool {
        self.wf()
    }

    open spec fn loaded(m: LinearModel, bytes: Seq<u8>) -> Result<LinearModel, ErrorModel> {
        linear_fa::load_weights_spec(m, bytes, OBS_DIM as nat, ACTION_DIM as nat)
    }

    open spec fn written(m: LinearModel) -> Result<Seq<u8>, ErrorModel> {
        Ok(m.encoding())
    }

    open spec fn name(m: LinearModel) -> Seq<char> {
        "LinearFA"@
    }

    fn update_weights(&mut self, weights: &[u8]) -> (r: Result<(), Error>) {
        self.load_weights(weights)
    }

    fn get_weights(&self) -> (r: Result<Vec<u8>, Error>) {
        LinearFA::get_weights(self)
    }

    fn algorithm_name(&self) -> (r: &'static str) {
        LinearFA::algorithm_name(self)
    }
}

impl<const OBS_DIM: usize, const ACTION_DIM: usize> Policy for TinyNN<OBS_DIM, ACTION_DIM> {
    type Model = TinyModel;

    open spec fn model(&self) -> TinyModel {
        self@
    }

    open spec fn valid(&self) -> bool {
        self.wf()
    }

    open spec fn loaded(m: TinyModel, bytes: Seq<u8>) -> Result<TinyModel, ErrorModel> {
        tiny_nn::load_weights_spec(m, bytes)
    }

    open spec fn written(m: TinyModel) -> Result<Seq<u8>, ErrorModel> {
        Ok(m.encoding())
    }

    open spec fn name(m: TinyModel) -> Seq<char> {
        "TinyNN"@
    }

    fn update_weights(&mut self, weights: &[u8]) -> (r: Result<(), Error>) {
        self.load_weights(weights)
    }

    fn get_weights(&self) -> (r: Result<Vec<u8>, Error>) {
        TinyNN::get_weights(self)
    }

    fn algorithm_name(&self) -> (r: &'static str) {
        TinyNN::algorithm_name(self)
    }
}

impl<const OBS_DIM: usize, const ACTION_DIM: usize> Policy for MockPolicy<OBS_DIM, ACTION_DIM> {
    type Model = Seq<u32>;

    open spec fn model(&self) -> Seq<u32> {
        self@
    }

    open spec fn valid(&self) -> bool {
        true
    }

    open spec fn loaded(m: Seq<u32>, bytes: Seq<u8>) -> Result<Seq<u32>, ErrorModel> {
        Ok(m)
    }

    open spec fn written(m: Seq<u32>) -> Result<Seq<u8>, ErrorModel> {
        Ok(Seq::<u8>::empty())
    }

    open spec fn name(m: Seq<u32>) -> Seq<char> {
        "MockPolicy"@
    }

    fn update_weights(&mut self, weights: &[u8]) -> (r: Result<(), Error>) {
        self.load_weights(weights)
    }

    fn get_weights(&self) -> (r: Result<Vec<u8>, Error>) {
        let r = MockPolicy::get_weights(self);
        assert(r->Ok_0@ =~= Seq::<u8>::empty());
        r
    }

    fn algorithm_name(&self) -> (r: &'static str) {
        MockPolicy::algorithm_name(self)
    }
}

/// A policy of one of the three algorithms.
pub enum PolicyInstance<const OBS_DIM: usize, const ACTION_DIM: usize> {
    TabularQLearning(TabularQLearning<OBS_DIM, ACTION_DIM>),
    LinearFA(LinearFA<OBS_DIM, ACTION_DIM>),
    TinyNN(TinyNN<OBS_DIM, ACTION_DIM>),
}

/// What a policy holds.
pub enum PolicyModel {
    TabularQLearning(TabularModel),
    LinearFA(LinearModel),
    TinyNN(TinyModel),
}

impl<const OBS_DIM: usize, const ACTION_DIM: usize> View for PolicyInstance<OBS_DIM, ACTION_DIM> {
    type V = PolicyModel;

    open spec fn view(&self) -> PolicyModel {
        match *self {
            PolicyInstance::TabularQLearning(p) => PolicyModel::TabularQLearning(p@),
            PolicyInstance::LinearFA(p) => PolicyModel::LinearFA(p@),
            PolicyInstance::TinyNN(p) => PolicyModel::TinyNN(p@),
        }
    }
}

impl PolicyModel {
    /// The algorithm of the policy.
    pub open spec fn algorithm(self) -> AlgorithmType {
        match self {
            PolicyModel::TabularQLearning(_) => AlgorithmType::TabularQLearning,
            PolicyModel::LinearFA(_) => AlgorithmType::LinearFA,
            PolicyModel::TinyNN(_) => AlgorithmType::TinyNN,
        }
    }

    /// The parameters have the shape that their algorithm asks for.
    pub open spec fn wf(self, obs_dim: nat, action_dim: nat) -> bool {
        match self {
            PolicyModel::TabularQLearning(m) => m.wf(),
            PolicyModel::LinearFA(m) => m.wf(obs_dim, action_dim),
            PolicyModel::TinyNN(m) => m.wf(),
        }
    }

    /// Whether building a policy of the given algorithm from a buffer has to
    /// make a table that the buffer does not carry. Only a tabular policy can
    /// ask for memory beyond what its buffer already measures.
    pub open spec fn needs_fresh_table(algorithm: AlgorithmType, bytes: Seq<u8>) -> bool {
        algorithm == AlgorithmType::TabularQLearning && tabular_q::needs_fresh_table(bytes)
    }

    /// Whether `outcome` is a result that building a policy may have: what
    /// `from_weights_spec` says, or, only where a table has to be made that
    /// the buffer does not carry, the refusal for want of memory.
    pub open spec fn from_weights_allows(
        algorithm: AlgorithmType,
        bytes: Seq<u8>,
        obs_dim: nat,
        action_dim: nat,
        outcome: Result<PolicyModel, ErrorModel>,
    ) -> bool {
        outcome == Self::from_weights_spec(algorithm, bytes, obs_dim, action_dim) || (
        Self::needs_fresh_table(algorithm, bytes) && outcome == Err::<PolicyModel, ErrorModel>(
            tabular_q::out_of_memory(),
        ))
    }

    /// What building a policy of the given algorithm makes of a buffer when
    /// the memory for it can be had.
    pub open spec fn from_weights_spec(
        algorithm: AlgorithmType,
        bytes: Seq<u8>,
        obs_dim: nat,
        action_dim: nat,
    ) -> Result<PolicyModel, ErrorModel> {
        match algorithm {
            AlgorithmType::TabularQLearning => match tabular_q::from_weights_spec(bytes) {
                Ok(m) => Ok(PolicyModel::TabularQLearning(m)),
                Err(e) => Err(e),
            },
            AlgorithmType::LinearFA => match linear_fa::from_weights_spec(
                bytes,
                obs_dim,
                action_dim,
            ) {
                Ok(m) => Ok(PolicyModel::LinearFA(m)),
                Err(e) => Err(e),
            },
            AlgorithmType::TinyNN => match tiny_nn::from_weights_spec(bytes, obs_dim, action_dim) {
                Ok(m) => Ok(PolicyModel::TinyNN(m)),
                Err(e) => Err(e),
            },
        }
    }

    /// What replacing the parameters of the policy makes of a buffer.
    pub open spec fn load_weights_spec(self, bytes: Seq<u8>, obs_dim: nat, action_dim: nat)
        -> Result<PolicyModel, ErrorModel> {
        match self {
            PolicyModel::TabularQLearning(m) => match tabular_q::load_weights_spec(m, bytes) {
                Ok(n) => Ok(PolicyModel::TabularQLearning(n)),
                Err(e) => Err(e),
            },
            PolicyModel::LinearFA(m) => match linear_fa::load_weights_spec(
                m,
                bytes,
                obs_dim,
                action_dim,
            ) {
                Ok(n) => Ok(PolicyModel::LinearFA(n)),
                Err(e) => Err(e),
            },
            PolicyModel::TinyNN(m) => match tiny_nn::load_weights_spec(m, bytes) {
                Ok(n) => Ok(PolicyModel::TinyNN(n)),
                Err(e) => Err(e),
            },
        }
    }

    /// What writing the policy gives.
    pub open spec fn get_weights_spec(self) -> Result<Seq<u8>, ErrorModel> {
        match self {
            PolicyModel::TabularQLearning(m) => tabular_q::get_weights_spec(m),
            PolicyModel::LinearFA(m) => Ok(m.encoding()),
            PolicyModel::TinyNN(m) => Ok(m.encoding()),
        }
    }

    /// The name of the algorithm.
    pub open spec fn name(self) -> Seq<char> {
        match self {
            PolicyModel::TabularQLearning(_) => "TabularQLearning"@,
            PolicyModel::LinearFA(_) => "LinearFA"@,
            PolicyModel::TinyNN(_) => "TinyNN"@,
        }
    }

    /// Whether the bytes that are written for the policy can be loaded into
    /// it again: always, but for a network so small that its bytes fall short
    /// of the least length of a buffer.
    pub open spec fn reloadable(self) -> bool {
        match self {
            PolicyModel::TinyNN(m) => m.encoding().len() >= tiny_nn::MIN_LEN,
            _ => true,
        }
    }
}

/// For each algorithm, serialising a policy and loading the bytes into it
/// again leaves every parameter as it was, bit for bit.
pub proof fn lemma_policy_round_trip(m: PolicyModel, obs_dim: nat, action_dim: nat)
    requires
        m.wf(obs_dim, action_dim),
        m.reloadable(),
        m.get_weights_spec() is Ok,
    ensures
        m.load_weights_spec(m.get_weights_spec()->Ok_0, obs_dim, action_dim) == Ok::<
            PolicyModel,
            ErrorModel,
        >(m),
{
    match m {
        PolicyModel::TabularQLearning(t) => {
            tabular_q::lemma_tabular_round_trip(t);
        },
        PolicyModel::LinearFA(l) => {
            linear_fa::lemma_linear_round_trip(l, obs_dim, action_dim);
        },
        PolicyModel::TinyNN(n) => {
            tiny_nn::lemma_tiny_round_trip(n);
        },
    }
}

impl<const OBS_DIM: usize, const ACTION_DIM: usize> PolicyInstance<OBS_DIM, ACTION_DIM> {
    /// The parameters have the shape that their algorithm asks for.
    pub open spec fn wf(&self) -> bool {
        self@.wf(OBS_DIM as nat, ACTION_DIM as nat)
    }

    /// Builds a policy of the given algorithm from the wire format. A table
    /// that the buffer declares but does not carry, and that memory cannot
    /// hold, is refused.
    pub fn from_weights(algorithm: AlgorithmType, weights: &[u8]) -> (r: Result<Self, Error>)
        ensures
            match r {
                Ok(p) => p.wf() && PolicyModel::from_weights_allows(
                    algorithm,
                    weights@,
                    OBS_DIM as nat,
                    ACTION_DIM as nat,
                    Ok::<PolicyModel, ErrorModel>(p@),
                ),
                Err(e) => PolicyModel::from_weights_allows(
                    algorithm,
                    weights@,
                    OBS_DIM as nat,
                    ACTION_DIM as nat,
                    Err::<PolicyModel, ErrorModel>(e@),
                ),
            },
    {
        match algorithm {
            AlgorithmType::TabularQLearning => match TabularQLearning::from_weights(weights) {
                Ok(p) => Ok(PolicyInstance::TabularQLearning(p)),
                Err(e) => Err(e),
            },
            AlgorithmType::LinearFA => match LinearFA::from_weights(weights) {
                Ok(p) => Ok(PolicyInstance::LinearFA(p)),
                Err(e) => Err(e),
            },
            AlgorithmType::TinyNN => match TinyNN::from_weights(weights) {
                Ok(p) => Ok(PolicyInstance::TinyNN(p)),
                Err(e) => Err(e),
            },
        }
    }

    /// Replaces the parameters from the wire format. A refused buffer leaves
    /// the policy as it was.
    pub fn load_weights(&mut self, weights: &[u8]) -> (r: Result<(), Error>)
        requires
            old(self).wf(),
        ensures
            final(self).wf(),
            match r {
                Ok(_) => old(self)@.load_weights_spec(
                    weights@,
                    OBS_DIM as nat,
                    ACTION_DIM as nat,
                ) == Ok::<PolicyModel, ErrorModel>(final(self)@),
                Err(e) => old(self)@.load_weights_spec(
                    weights@,
                    OBS_DIM as nat,
                    ACTION_DIM as nat,
                ) == Err::<PolicyModel, ErrorModel>(e@) && final(self)@ == old(self)@,
            },
    {
        match self {
            PolicyInstance::TabularQLearning(p) => p.load_weights(weights),
            PolicyInstance::LinearFA(p) => p.load_weights(weights),
            PolicyInstance::TinyNN(p) => p.load_weights(weights),
        }
    }

    /// Writes the parameters in the wire format.
    pub fn get_weights(&self) -> (r: Result<Vec<u8>, Error>)
        requires
            self.wf(),
        ensures
            match r {
                Ok(bytes) => self@.get_weights_spec() == Ok::<Seq<u8>, ErrorModel>(bytes@),
                Err(e) => self@.get_weights_spec() == Err::<Seq<u8>, ErrorModel>(e@),
            },
    {
        match self {
            PolicyInstance::TabularQLearning(p) => p.get_weights(),
            PolicyInstance::LinearFA(p) => p.get_weights(),
            PolicyInstance::TinyNN(p) => p.get_weights(),
        }
    }

    /// The name of the algorithm.
    pub fn algorithm_name(&self) -> (r: &'static str)
        ensures
            r@ == self@.name(),
    {
        match self {
            PolicyInstance::TabularQLearning(p) => p.algorithm_name(),
            PolicyInstance::LinearFA(p) => p.algorithm_name(),
            PolicyInstance::TinyNN(p) => p.algorithm_name(),
        }
    }

    /// The algorithm of the policy.
    pub fn algorithm(&self) -> (r: AlgorithmType)
        ensures
            r == self@.algorithm(),
    {
        match self {
            PolicyInstance::TabularQLearning(_) => AlgorithmType::TabularQLearning,
            PolicyInstance::LinearFA(_) => AlgorithmType::LinearFA,
            PolicyInstance::TinyNN(_) => AlgorithmType::TinyNN,
        }
    }
}

impl<const OBS_DIM: usize, const ACTION_DIM: usize> Policy for PolicyInstance<
    OBS_DIM,
    ACTION_DIM,
> {
    type Model = PolicyModel;

    open spec fn model(&self) -> PolicyModel {
        self@
    }

    open spec fn valid(&self) -> bool {
        self.wf()
    }

    open spec fn loaded(m: PolicyModel, bytes: Seq<u8>) -> Result<PolicyModel, ErrorModel> {
        m.load_weights_spec(bytes, OBS_DIM as nat, ACTION_DIM as nat)
    }

    open spec fn written(m: PolicyModel) -> Result<Seq<u8>, ErrorModel> {
        m.get_weights_spec()
    }

    open spec fn name(m: PolicyModel) -> Seq<char> {
        m.name()
    }

    fn update_weights(&mut self, weights: &[u8]) -> (r: Result<(), Error>) {
        self.load_weights(weights)
    }

    fn get_weights(&self) -> (r: Result<Vec<u8>, Error>) {
        PolicyInstance::get_weights(self)
    }

    fn algorithm_name(&self) -> (r: &'static str) {
        PolicyInstance::algorithm_name(self)
    }
}

} // verus!
