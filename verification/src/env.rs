//! The environment: a policy, a snapshot of the last observation, two
//! counters and a fingerprint of the weight buffer last loaded.
//!
//! A weight buffer starts with one byte that names the algorithm; the
//! parameters of that algorithm follow in its own wire format.

use vstd::prelude::*;
use vstd::slice::{slice_subrange, slice_to_vec};
use crate::action::Action;
use crate::algorithms::tabular_q::out_of_memory;
use crate::algorithms::{lemma_policy_round_trip, PolicyInstance, PolicyModel};
use crate::binary32::{all_finite, all_within, every_finite, NEG_ONE, ONE, ZERO};
use crate::error::{invalid_weights, Error, ErrorModel};
use crate::obs::Obs;
use crate::text::{decimal, with_decimal};

verus! {

/// The algorithms that a weight buffer can name.
#[derive(Debug, Clone, Copy, PartialEq, Eq, Structural)]
pub enum AlgorithmType {
    TabularQLearning,
    LinearFA,
    TinyNN,
}

impl AlgorithmType {
    /// The tag that stands for the algorithm in a weight buffer.
    pub open spec fn tag(self) -> u8 {
        match self {
            AlgorithmType::TabularQLearning => 0,
            AlgorithmType::LinearFA => 1,
            AlgorithmType::TinyNN => 2,
        }
    }

    /// The algorithm that a tag stands for, if any.
    pub open spec fn of_tag(value: u8) -> Option<Self> {
        if value == 0 {
            Some(AlgorithmType::TabularQLearning)
        } else if value == 1 {
            Some(AlgorithmType::LinearFA)
        } else if value == 2 {
            Some(AlgorithmType::TinyNN)
        } else {
            None
        }
    }

    /// Reads a tag. Tags above 2 stand for nothing and are refused.
    pub fn from_u8(value: u8) -> (r: Result<Self, Error>)
        ensures
            match r {
                Ok(a) => Self::of_tag(value) == Some(a),
                Err(e) => Self::of_tag(value) is None && e@ == ErrorModel::UnsupportedAlgorithm(
                    "Unknown algorithm: "@ + decimal(value as nat),
                ),
            },
    {
        if value == 0 {
            Ok(AlgorithmType::TabularQLearning)
        } else if value == 1 {
            Ok(AlgorithmType::LinearFA)
        } else if value == 2 {
            Ok(AlgorithmType::TinyNN)
        } else {
            Err(Error::UnsupportedAlgorithm(with_decimal("Unknown algorithm: ", value as u64)))
        }
    }

    /// Writes the tag.
    pub fn to_u8(self) -> (r: u8)
        ensures
            r == self.tag(),
            Self::of_tag(r) == Some(self),
    {
        match self {
            AlgorithmType::TabularQLearning => 0,
            AlgorithmType::LinearFA => 1,
            AlgorithmType::TinyNN => 2,
        }
    }
}

/// Every algorithm is read back from the tag that is written for it.
pub proof fn lemma_algorithm_tag_round_trip(a: AlgorithmType)
    ensures
        AlgorithmType::of_tag(a.tag()) == Some(a),
        a.tag() <= 2,
{
}

/// Number of leading bytes of a weight buffer that are kept as its fingerprint.
pub const FINGERPRINT_LEN: usize = 32;

/// What an environment keeps beside its policy.
#[derive(Debug, Clone, PartialEq)]
pub struct EnvState {
    /// The observation last handed in.
    pub current_obs: Vec<u32>,
    /// Steps since the last reset.
    pub step_count: u64,
    /// Resets so far.
    pub episode_count: u64,
    /// The algorithm that weight buffers must name.
    pub algorithm: AlgorithmType,
    /// The leading bytes of the weight buffer last loaded.
    pub weights_hash: [u8; 32],
}

/// An environment state as plain values.
pub struct StateModel {
    pub observation: Seq<u32>,
    pub step_count: u64,
    pub episode_count: u64,
    pub algorithm: AlgorithmType,
    pub fingerprint: Seq<u8>,
}

impl View for EnvState {
    type V = StateModel;

    open spec fn view(&self) -> StateModel {
        StateModel {
            observation: self.current_obs@,
            step_count: self.step_count,
            episode_count: self.episode_count,
            algorithm: self.algorithm,
            fingerprint: self.weights_hash@,
        }
    }
}

/// An environment as plain values.
pub struct EnvModel {
    pub state: StateModel,
    pub policy: PolicyModel,
}

/// The fingerprint after a buffer is loaded: its leading bytes when it has
/// enough of them, else `fallback`.
pub open spec fn fingerprint_of(bytes: Seq<u8>, fallback: Seq<u8>) -> Seq<u8> {
    if bytes.len() >= FINGERPRINT_LEN {
        bytes.take(FINGERPRINT_LEN as int)
    } else {
        fallback
    }
}

/// What the safety check makes of an observation and an action. The action is
/// looked at first: every element must lie between -1 and 1. Then every
/// element of the observation must be finite.
pub open spec fn check_invariant_spec(obs: Seq<u32>, action: Seq<u32>) -> Result<(), ErrorModel> {
    if !all_within(action, NEG_ONE, ONE) {
        Err(ErrorModel::InvariantViolation("Action out of bounds"@))
    } else if !all_finite(obs) {
        Err(ErrorModel::InvariantViolation("Observation contains NaN or infinite values"@))
    } else {
        Ok(())
    }
}

/// The safety check passes exactly when every element of the action lies
/// between -1 and 1 and every element of both vectors is finite. An action
/// with an element outside that interval, a NaN or an infinity among them, is
/// refused whatever the observation; so is an observation with an element
/// that is not finite, whatever the action.
pub proof fn lemma_check_invariant(obs: Seq<u32>, action: Seq<u32>)
    ensures
        check_invariant_spec(obs, action) is Ok <==> all_within(action, NEG_ONE, ONE)
            && all_finite(obs) && all_finite(action),
        !all_within(action, NEG_ONE, ONE) ==> check_invariant_spec(obs, action) is Err,
        !all_finite(action) ==> check_invariant_spec(obs, action) is Err,
        !all_finite(obs) ==> check_invariant_spec(obs, action) is Err,
{
}

impl EnvModel {
    /// The algorithm named in the state is that of the policy.
    pub open spec fn consistent(self) -> bool {
        self.policy.algorithm() == self.state.algorithm
    }

    /// Whether building an environment from a weight buffer has to make a
    /// table that the buffer does not carry: the buffer names the tabular
    /// algorithm and holds its header but not the whole table declared there.
    pub open spec fn needs_fresh_table(bytes: Seq<u8>) -> bool {
        bytes.len() >= 1 && AlgorithmType::of_tag(bytes[0]) == Some(
            AlgorithmType::TabularQLearning,
        ) && PolicyModel::needs_fresh_table(AlgorithmType::TabularQLearning, bytes.skip(1))
    }

    /// Whether `outcome` is a result that building an environment may have:
    /// what `from_weights_spec` says, or, only where a table has to be made
    /// that the buffer does not carry, the refusal for want of memory.
    pub open spec fn from_weights_allows(
        bytes: Seq<u8>,
        obs_dim: nat,
        action_dim: nat,
        outcome: Result<EnvModel, ErrorModel>,
    ) -> bool {
        outcome == Self::from_weights_spec(bytes, obs_dim, action_dim) || (Self::needs_fresh_table(
            bytes,
        ) && outcome == Err::<EnvModel, ErrorModel>(out_of_memory()))
    }

    /// The environment that a weight buffer describes when the memory for it
    /// can be had, or the refusal. The first byte names the algorithm; the
    /// rest goes to that algorithm.
    pub open spec fn from_weights_spec(bytes: Seq<u8>, obs_dim: nat, action_dim: nat) -> Result<
        EnvModel,
        ErrorModel,
    > {
        if bytes.len() < 1 {
            Err(ErrorModel::InvalidWeights("Empty weights data"@))
        } else {
            match AlgorithmType::of_tag(bytes[0]) {
                None => Err(
                    ErrorModel::UnsupportedAlgorithm(
                        "Unknown algorithm: "@ + decimal(bytes[0] as nat),
                    ),
                ),
                Some(algorithm) => match PolicyModel::from_weights_spec(
                    algorithm,
                    bytes.skip(1),
                    obs_dim,
                    action_dim,
                ) {
                    Err(e) => Err(e),
                    Ok(policy) => Ok(
                        EnvModel {
                            state: StateModel {
                                observation: Seq::new(obs_dim, |i: int| ZERO),
                                step_count: 0,
                                episode_count: 0,
                                algorithm,
                                fingerprint: fingerprint_of(
                                    bytes,
                                    Seq::new(FINGERPRINT_LEN as nat, |i: int| 0u8),
                                ),
                            },
                            policy,
                        },
                    ),
                },
            }
        }
    }

    /// The environment after a weight buffer is loaded into it, or the
    /// refusal. The buffer must name the algorithm of the environment; the
    /// rest goes to the policy.
    pub open spec fn update_weights_spec(self, bytes: Seq<u8>, obs_dim: nat, action_dim: nat)
        -> Result<EnvModel, ErrorModel> {
        if bytes.len() < 1 {
            Err(ErrorModel::InvalidWeights("Empty weights data"@))
        } else {
            match AlgorithmType::of_tag(bytes[0]) {
                None => Err(
                    ErrorModel::UnsupportedAlgorithm(
                        "Unknown algorithm: "@ + decimal(bytes[0] as nat),
                    ),
                ),
                Some(algorithm) => if algorithm != self.state.algorithm {
                    Err(ErrorModel::InvalidWeights("Algorithm type mismatch"@))
                } else {
                    match self.policy.load_weights_spec(bytes.skip(1), obs_dim, action_dim) {
                        Err(e) => Err(e),
                        Ok(policy) => Ok(
                            EnvModel {
                                state: StateModel {
                                    fingerprint: fingerprint_of(bytes, self.state.fingerprint),
                                    ..self.state
                                },
                                policy,
                            },
                        ),
                    }
                },
            }
        }
    }

    /// The weight buffer of the environment: the tag of its algorithm, then
    /// what its policy writes.
    pub open spec fn get_weights_spec(self) -> Result<Seq<u8>, ErrorModel> {
        match self.policy.get_weights_spec() {
            Ok(bytes) => Ok(seq![self.state.algorithm.tag()] + bytes),
            Err(e) => Err(e),
        }
    }

    /// The environment after a reset with `obs`.
    pub open spec fn after_reset(self, obs: Seq<u32>) -> EnvModel {
        EnvModel {
            state: StateModel {
                observation: obs,
                step_count: 0,
                episode_count: (self.state.episode_count + 1) as u64,
                ..self.state
            },
            ..self
        }
    }

    /// The environment after a step with `obs`.
    pub open spec fn after_step(self, obs: Seq<u32>) -> EnvModel {
        EnvModel {
            state: StateModel {
                observation: obs,
                step_count: (self.state.step_count + 1) as u64,
                ..self.state
            },
            ..self
        }
    }
}

/// A reset sets the step counter to 0 and keeps the observation as the
/// snapshot, whatever the state before; the algorithm, the fingerprint and
/// the policy stay. It adds exactly 1 to the episode counter wherever the
/// counter has room for it.
pub proof fn lemma_reset_counters(m: EnvModel, obs: Seq<u32>)
    ensures
        m.after_reset(obs).state.step_count == 0,
        m.after_reset(obs).state.observation == obs,
        m.after_reset(obs).state.algorithm == m.state.algorithm,
        m.after_reset(obs).state.fingerprint == m.state.fingerprint,
        m.after_reset(obs).policy == m.policy,
        m.state.episode_count < u64::MAX ==> m.after_reset(obs).state.episode_count
            == m.state.episode_count + 1,
{
}

/// A weight buffer that names a known algorithm other than that of the
/// environment is refused as an algorithm mismatch.
pub proof fn lemma_update_weights_tag_mismatch(
    m: EnvModel,
    bytes: Seq<u8>,
    obs_dim: nat,
    action_dim: nat,
)
    requires
        bytes.len() >= 1,
        AlgorithmType::of_tag(bytes[0]) is Some,
        AlgorithmType::of_tag(bytes[0]) != Some(m.state.algorithm),
    ensures
        m.update_weights_spec(bytes, obs_dim, action_dim) == Err::<EnvModel, ErrorModel>(
            ErrorModel::InvalidWeights("Algorithm type mismatch"@),
        ),
{
}

/// Loading the weight buffer that an environment writes back into it leaves
/// the policy as it was, bit for bit, and changes nothing but the fingerprint.
pub proof fn lemma_env_round_trip(m: EnvModel, obs_dim: nat, action_dim: nat)
    requires
        m.consistent(),
        m.policy.wf(obs_dim, action_dim),
        m.policy.reloadable(),
        m.get_weights_spec() is Ok,
    ensures
        m.update_weights_spec(m.get_weights_spec()->Ok_0, obs_dim, action_dim) == Ok::<
            EnvModel,
            ErrorModel,
        >(
            EnvModel {
                state: StateModel {
                    fingerprint: fingerprint_of(m.get_weights_spec()->Ok_0, m.state.fingerprint),
                    ..m.state
                },
                policy: m.policy,
            },
        ),
{
    let inner = m.policy.get_weights_spec()->Ok_0;
    let bytes = m.get_weights_spec()->Ok_0;
    lemma_policy_round_trip(m.policy, obs_dim, action_dim);
    lemma_algorithm_tag_round_trip(m.state.algorithm);
    assert(bytes.skip(1) =~= inner);
}

/// The runtime around one policy.
pub struct Env<const OBS_DIM: usize, const ACTION_DIM: usize> {
    state: EnvState,
    policy: PolicyInstance<OBS_DIM, ACTION_DIM>,
}

impl<const OBS_DIM: usize, const ACTION_DIM: usize> View for Env<OBS_DIM, ACTION_DIM> {
    type V = EnvModel;

    closed spec fn view(&self) -> EnvModel {
        EnvModel { state: self.state@, policy: self.policy@ }
    }
}

fn leading_bytes(bytes: &[u8], fallback: [u8; 32]) -> (r: [u8; 32])
    ensures
        r@ == fingerprint_of(bytes@, fallback@),
{
    if bytes.len() < FINGERPRINT_LEN {
        return fallback;
    }
    let mut out: [u8; 32] = fallback;
    let mut i: usize = 0;
    while i < FINGERPRINT_LEN
        invariant
            i <= FINGERPRINT_LEN,
            bytes@.len() >= FINGERPRINT_LEN,
            forall|k: int| 0 <= k < i ==> out@[k] == bytes@[k],
        decreases FINGERPRINT_LEN - i,
    {
        out[i] = bytes[i];
        i += 1;
    }
    out
}

impl<const OBS_DIM: usize, const ACTION_DIM: usize> Env<OBS_DIM, ACTION_DIM> {
    /// The policy that the environment owns.
    pub closed spec fn policy_spec(&self) -> PolicyInstance<OBS_DIM, ACTION_DIM> {
        self.policy
    }

    /// The parameters of the policy have the shape that its algorithm asks for.
    pub open spec fn wf(&self) -> bool {
        self@.policy.wf(OBS_DIM as nat, ACTION_DIM as nat)
    }

    /// Builds an environment from a weight buffer: a policy of the algorithm
    /// that the first byte names, an all-zero snapshot, both counters at 0,
    /// and the leading bytes of the buffer as the fingerprint, or zeros when
    /// the buffer is shorter than a fingerprint. A table that the buffer
    /// declares but does not carry, and that memory cannot hold, is refused.
    pub fn from_weights(weights: &[u8]) -> (r: Result<Self, Error>)
        ensures
            match r {
                Ok(env) => env.wf() && env@.consistent() && EnvModel::from_weights_allows(
                    weights@,
                    OBS_DIM as nat,
                    ACTION_DIM as nat,
                    Ok::<EnvModel, ErrorModel>(env@),
                ),
                Err(e) => EnvModel::from_weights_allows(
                    weights@,
                    OBS_DIM as nat,
                    ACTION_DIM as nat,
                    Err::<EnvModel, ErrorModel>(e@),
                ),
            },
    {
        if weights.len() < 1 {
            return Err(invalid_weights("Empty weights data"));
        }
        let algorithm = match AlgorithmType::from_u8(weights[0]) {
            Ok(a) => a,
            Err(e) => {
                return Err(e);
            },
        };
        let policy_weights: &[u8] = slice_subrange(weights, 1, weights.len());
        let policy = match PolicyInstance::<OBS_DIM, ACTION_DIM>::from_weights(
            algorithm,
            policy_weights,
        ) {
            Ok(p) => p,
            Err(e) => {
                return Err(e);
            },
        };
        let zero_byte: u8 = 0;
        let blank: [u8; 32] = [zero_byte;32];
        assert(blank@ =~= Seq::new(FINGERPRINT_LEN as nat, |i: int| 0u8));
        let weights_hash: [u8; 32] = leading_bytes(weights, blank);
        let snapshot: Obs<OBS_DIM> = Obs::default();
        let current_obs: Vec<u32> = slice_to_vec(snapshot.as_slice());
        let state = EnvState {
            current_obs,
            step_count: 0,
            episode_count: 0,
            algorithm,
            weights_hash,
        };
        Ok(Env { state, policy })
    }

    /// Starts an episode: keeps `obs` as the snapshot, sets the step counter
    /// to 0, adds 1 to the episode counter, and returns what `act` makes of
    /// the policy and the observation.
    pub fn reset<F>(&mut self, obs: &Obs<OBS_DIM>, act: F) -> (r: Action<ACTION_DIM>) where
        F: FnOnce(&PolicyInstance<OBS_DIM, ACTION_DIM>, &Obs<OBS_DIM>) -> Action<ACTION_DIM>,

        requires
            old(self)@.state.episode_count < u64::MAX,
            call_requires(act, (&old(self).policy_spec(), obs)),
        ensures
            final(self)@ == old(self)@.after_reset(obs@),
            final(self).policy_spec() == old(self).policy_spec(),
            call_ensures(act, (&old(self).policy_spec(), obs), r),
    {
        self.state.current_obs = slice_to_vec(obs.as_slice());
        self.state.step_count = 0;
        self.state.episode_count = self.state.episode_count + 1;
        act(&self.policy, obs)
    }

    /// Advances the episode: keeps `obs` as the snapshot, adds 1 to the step
    /// counter, and returns what `act` makes of the policy and the
    /// observation.
    pub fn step<F>(&mut self, obs: &Obs<OBS_DIM>, act: F) -> (r: Action<ACTION_DIM>) where
        F: FnOnce(&PolicyInstance<OBS_DIM, ACTION_DIM>, &Obs<OBS_DIM>) -> Action<ACTION_DIM>,

        requires
            old(self)@.state.step_count < u64::MAX,
            call_requires(act, (&old(self).policy_spec(), obs)),
        ensures
            final(self)@ == old(self)@.after_step(obs@),
            final(self).policy_spec() == old(self).policy_spec(),
            call_ensures(act, (&old(self).policy_spec(), obs), r),
    {
        self.state.current_obs = slice_to_vec(obs.as_slice());
        self.state.step_count = self.state.step_count + 1;
        act(&self.policy, obs)
    }

    /// The state of the environment.
    pub fn state(&self) -> (r: &EnvState)
        ensures
            r@ == self@.state,
    {
        &self.state
    }

    /// Replaces the state of the environment. The policy stays as it is.
    pub fn set_state(&mut self, state: EnvState)
        ensures
            final(self)@ == (EnvModel { state: state@, policy: old(self)@.policy }),
            final(self).policy_spec() == old(self).policy_spec(),
    {
        self.state = state;
    }

    /// The policy of the environment.
    pub fn policy(&self) -> (r: &PolicyInstance<OBS_DIM, ACTION_DIM>)
        ensures
            *r == self.policy_spec(),
            r@ == self@.policy,
    {
        &self.policy
    }

    /// Loads a weight buffer into the policy. The buffer must name the
    /// algorithm of the environment. On success the fingerprint is renewed
    /// from a buffer that is long enough for one; a refused buffer leaves the
    /// whole environment as it was.
    pub fn update_weights(&mut self, weights: &[u8]) -> (r: Result<(), Error>)
        requires
            old(self).wf(),
        ensures
            final(self).wf(),
            match r {
                Ok(_) => old(self)@.update_weights_spec(
                    weights@,
                    OBS_DIM as nat,
                    ACTION_DIM as nat,
                ) == Ok::<EnvModel, ErrorModel>(final(self)@),
                Err(e) => old(self)@.update_weights_spec(
                    weights@,
                    OBS_DIM as nat,
                    ACTION_DIM as nat,
                ) == Err::<EnvModel, ErrorModel>(e@) && final(self)@ == old(self)@,
            },
    {
        if weights.len() < 1 {
            return Err(invalid_weights("Empty weights data"));
        }
        let algorithm = match AlgorithmType::from_u8(weights[0]) {
            Ok(a) => a,
            Err(e) => {
                return Err(e);
            },
        };
        if algorithm != self.state.algorithm {
            return Err(invalid_weights("Algorithm type mismatch"));
        }
        let policy_weights: &[u8] = slice_subrange(weights, 1, weights.len());
        match self.policy.load_weights(policy_weights) {
            Ok(_) => {},
            Err(e) => {
                return Err(e);
            },
        }
        self.state.weights_hash = leading_bytes(weights, self.state.weights_hash);
        Ok(())
    }

    /// Writes the weight buffer of the environment: the tag of its algorithm,
    /// then the parameters of its policy.
    pub fn get_weights(&self) -> (r: Result<Vec<u8>, Error>)
        requires
            self.wf(),
        ensures
            match r {
                Ok(bytes) => self@.get_weights_spec() == Ok::<Seq<u8>, ErrorModel>(bytes@),
                Err(e) => self@.get_weights_spec() == Err::<Seq<u8>, ErrorModel>(e@),
            },
    {
        let mut out: Vec<u8> = Vec::new();
        out.push(self.state.algorithm.to_u8());
        let mut inner: Vec<u8> = match self.policy.get_weights() {
            Ok(bytes) => bytes,
            Err(e) => {
                return Err(e);
            },
        };
        out.append(&mut inner);
        Ok(out)
    }

    /// Checks an observation and an action against the safety invariant.
    /// Nothing in the environment is read or changed.
    pub fn check_invariant(&self, obs: &Obs<OBS_DIM>, action: &Action<ACTION_DIM>) -> (r: Result<
        (),
        Error,
    >)
        ensures
            match r {
                Ok(_) => check_invariant_spec(obs@, action@) is Ok,
                Err(e) => check_invariant_spec(obs@, action@) == Err::<(), ErrorModel>(e@),
            },
    {
        if !action.is_within_bounds(NEG_ONE, ONE) {
            return Err(Error::InvariantViolation(String::from_str("Action out of bounds")));
        }
        if !every_finite(obs.as_slice()) {
            return Err(
                Error::InvariantViolation(
                    String::from_str("Observation contains NaN or infinite values"),
                ),
            );
        }
        Ok(())
    }
}

/// The reset/step interface of an environment. The action is computed by a
/// function that the caller hands in; the environment keeps the snapshot and
/// the counters.
pub trait Environment<const OBS_DIM: usize, const ACTION_DIM: usize> {
    /// The policy that the environment owns.
    type Policy;

    /// The state as plain values.
    spec fn state_model(&self) -> StateModel;

    /// The policy of the environment.
    spec fn owned_policy(&self) -> Self::Policy;

    /// Starts an episode: keeps `obs` as the snapshot, sets the step counter
    /// to 0, adds 1 to the episode counter, and returns what `act` makes of
    /// the policy and the observation.
    fn reset<F>(&mut self, obs: &Obs<OBS_DIM>, act: F) -> (r: Action<ACTION_DIM>) where
        F: FnOnce(&Self::Policy, &Obs<OBS_DIM>) -> Action<ACTION_DIM>,

        requires
            old(self).state_model().episode_count < u64::MAX,
            call_requires(act, (&old(self).owned_policy(), obs)),
        ensures
            final(self).state_model() == (StateModel {
                observation: obs@,
                step_count: 0,
                episode_count: (old(self).state_model().episode_count + 1) as u64,
                ..old(self).state_model()
            }),
            final(self).owned_policy() == old(self).owned_policy(),
            call_ensures(act, (&old(self).owned_policy(), obs), r),
    ;

    /// Advances the episode: keeps `obs` as the snapshot, adds 1 to the step
    /// counter, and returns what `act` makes of the policy and the
    /// observation.
    fn step<F>(&mut self, obs: &Obs<OBS_DIM>, act: F) -> (r: Action<ACTION_DIM>) where
        F: FnOnce(&Self::Policy, &Obs<OBS_DIM>) -> Action<ACTION_DIM>,

        requires
            old(self).state_model().step_count < u64::MAX,
            call_requires(act, (&old(self).owned_policy(), obs)),
        ensures
            final(self).state_model() == (StateModel {
                observation: obs@,
                step_count: (old(self).state_model().step_count + 1) as u64,
                ..old(self).state_model()
            }),
            final(self).owned_policy() == old(self).owned_policy(),
            call_ensures(act, (&old(self).owned_policy(), obs), r),
    ;

    /// The state of the environment.
    fn state(&self) -> (r: &EnvState)
        ensures
            r@ == self.state_model(),
    ;

    /// Replaces the state of the environment. The policy stays as it is.
    fn set_state(&mut self, state: EnvState)
        ensures
            final(self).state_model() == state@,
            final(self).owned_policy() == old(self).owned_policy(),
    ;
}

impl<const OBS_DIM: usize, const ACTION_DIM: usize> Environment<OBS_DIM, ACTION_DIM> for Env<
    OBS_DIM,
    ACTION_DIM,
> {
    type Policy = PolicyInstance<OBS_DIM, ACTION_DIM>;

    open spec fn state_model(&self) -> StateModel {
        self@.state
    }

    open spec fn owned_policy(&self) -> PolicyInstance<OBS_DIM, ACTION_DIM> {
        self.policy_spec()
    }

    fn reset<F>(&mut self, obs: &Obs<OBS_DIM>, act: F) -> (r: Action<ACTION_DIM>) where
        F: FnOnce(&PolicyInstance<OBS_DIM, ACTION_DIM>, &Obs<OBS_DIM>) -> Action<ACTION_DIM>,
     {
        Env::reset(self, obs, act)
    }

    fn step<F>(&mut self, obs: &Obs<OBS_DIM>, act: F) -> (r: Action<ACTION_DIM>) where
        F: FnOnce(&PolicyInstance<OBS_DIM, ACTION_DIM>, &Obs<OBS_DIM>) -> Action<ACTION_DIM>,
     {
        Env::step(self, obs, act)
    }

    fn state(&self) -> (r: &EnvState) {
        Env::state(self)
    }

    fn set_state(&mut self, state: EnvState) {
        Env::set_state(self, state)
    }
}

} // verus!
