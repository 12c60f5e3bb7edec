use leanrl_core::action::Action;
use leanrl_core::algorithms::PolicyInstance;
use leanrl_core::env::{AlgorithmType, Env, EnvState, Environment};
use leanrl_core::error::Error;
use leanrl_core::obs::Obs;

fn tabular_buffer(states: u32, actions: u32, fill: f32) -> Vec<u8> {
    let mut weights = vec![0u8];
    weights.extend(states.to_le_bytes());
    weights.extend(actions.to_le_bytes());
    weights.extend(0.1f32.to_le_bytes());
    weights.extend(0.9f32.to_le_bytes());
    for _ in 0..(states * actions) {
        weights.extend(fill.to_le_bytes());
    }
    weights
}

fn linear_buffer(alpha: f32) -> Vec<u8> {
    let mut weights = vec![1u8];
    weights.extend(alpha.to_le_bytes());
    for i in 0..(4 * 2 + 2) {
        weights.extend((i as f32).to_le_bytes());
    }
    weights
}

fn obs_of(values: [f32; 4]) -> Obs<4> {
    Obs::new(values.map(|x| x.to_bits()))
}

fn action_of(values: [f32; 2]) -> Action<2> {
    Action::new(values.map(|x| x.to_bits()))
}

fn fixed_action(_policy: &PolicyInstance<4, 2>, obs: &Obs<4>) -> Action<2> {
    Action::new([obs.as_slice()[0], 7])
}

#[test]
fn construction_sets_counters_snapshot_and_fingerprint() {
    let weights = tabular_buffer(4, 2, 0.5);
    assert!(weights.len() >= 32);
    let env = Env::<4, 2>::from_weights(&weights).unwrap();
    let state = env.state();
    assert_eq!(state.step_count, 0);
    assert_eq!(state.episode_count, 0);
    assert_eq!(state.algorithm, AlgorithmType::TabularQLearning);
    assert_eq!(state.current_obs, vec![0u32; 4]);
    assert_eq!(&state.weights_hash[..], &weights[..32]);
    assert_eq!(env.policy().algorithm(), AlgorithmType::TabularQLearning);

    let short = tabular_buffer(1, 1, 0.5);
    assert!(short.len() < 32);
    let env = Env::<4, 2>::from_weights(&short).unwrap();
    assert_eq!(env.state().weights_hash, [0u8; 32]);
}

#[test]
fn construction_refusals() {
    assert_eq!(
        Env::<4, 2>::from_weights(&[]).err(),
        Some(Error::InvalidWeights("Empty weights data".to_string()))
    );
    assert_eq!(
        Env::<4, 2>::from_weights(&[3, 0, 0]).err(),
        Some(Error::UnsupportedAlgorithm("Unknown algorithm: 3".to_string()))
    );
    assert_eq!(
        Env::<4, 2>::from_weights(&[9]).err(),
        Some(Error::UnsupportedAlgorithm("Unknown algorithm: 9".to_string()))
    );
    let mut four_bytes = vec![0u8];
    four_bytes.extend(1.0f32.to_le_bytes());
    assert_eq!(
        Env::<4, 2>::from_weights(&four_bytes).err(),
        Some(Error::InvalidWeights("Insufficient weights for TabularQLearning".to_string()))
    );
    assert_eq!(
        Env::<4, 2>::from_weights(&[1, 0, 0, 0, 0]).err(),
        Some(Error::InvalidWeights("Insufficient weights for LinearFA".to_string()))
    );
    assert_eq!(
        Env::<4, 2>::from_weights(&[2, 4, 0, 0, 0, 1]).err(),
        Some(Error::InvalidWeights("Insufficient weights for TinyNN".to_string()))
    );
}

#[test]
fn reset_and_step_drive_the_counters() {
    let mut env = Env::<4, 2>::from_weights(&tabular_buffer(4, 2, 0.0)).unwrap();
    let obs = obs_of([1.0, 2.0, 3.0, 4.0]);

    let action = env.reset(&obs, fixed_action);
    assert_eq!(action.as_slice(), &[1.0f32.to_bits(), 7]);
    assert_eq!(env.state().episode_count, 1);
    assert_eq!(env.state().step_count, 0);
    assert_eq!(env.state().current_obs, obs.as_slice());

    let next = obs_of([0.5, 0.0, 0.0, 0.0]);
    let next_action = env.step(&next, fixed_action);
    assert_eq!(next_action.as_slice(), &[0.5f32.to_bits(), 7]);
    assert_eq!(env.state().step_count, 1);
    assert_eq!(env.state().episode_count, 1);
    assert_eq!(env.state().current_obs, next.as_slice());

    env.step(&next, fixed_action);
    env.step(&next, fixed_action);
    assert_eq!(env.state().step_count, 3);
    env.reset(&obs, fixed_action);
    assert_eq!(env.state().step_count, 0);
    assert_eq!(env.state().episode_count, 2);
}

#[test]
fn reset_does_not_depend_on_the_state_before() {
    let mut env = Env::<4, 2>::from_weights(&linear_buffer(0.5)).unwrap();
    let odd = EnvState {
        current_obs: vec![1, 2, 3],
        step_count: 987_654_321,
        episode_count: u64::MAX - 1,
        algorithm: AlgorithmType::TinyNN,
        weights_hash: [0xAB; 32],
    };
    env.set_state(odd.clone());
    assert_eq!(env.state(), &odd);
    let obs = obs_of([0.0, -1.0, 2.0, 3.5]);
    env.reset(&obs, fixed_action);
    assert_eq!(env.state().step_count, 0);
    assert_eq!(env.state().episode_count, u64::MAX);
    assert_eq!(env.state().algorithm, AlgorithmType::TinyNN);
    assert_eq!(env.state().weights_hash, [0xAB; 32]);
    assert_eq!(env.state().current_obs, obs.as_slice());
}

#[test]
fn get_weights_prepends_the_tag() {
    let weights = linear_buffer(0.25);
    let env = Env::<4, 2>::from_weights(&weights).unwrap();
    assert_eq!(env.get_weights().unwrap(), weights);
    let weights = tabular_buffer(3, 2, 1.5);
    let env = Env::<4, 2>::from_weights(&weights).unwrap();
    assert_eq!(env.get_weights().unwrap(), weights);
}

#[test]
fn update_weights_with_another_algorithm_changes_nothing() {
    let weights = tabular_buffer(4, 2, 0.5);
    let mut env = Env::<4, 2>::from_weights(&weights).unwrap();
    env.reset(&obs_of([1.0, 2.0, 3.0, 4.0]), fixed_action);
    let state = env.state().clone();

    assert_eq!(
        env.update_weights(&linear_buffer(0.5)),
        Err(Error::InvalidWeights("Algorithm type mismatch".to_string()))
    );
    assert_eq!(env.get_weights().unwrap(), weights);
    assert_eq!(env.state(), &state);

    assert_eq!(
        env.update_weights(&[2, 4, 0, 0, 0, 1, 0, 0, 0]),
        Err(Error::InvalidWeights("Algorithm type mismatch".to_string()))
    );
    assert_eq!(
        env.update_weights(&[]),
        Err(Error::InvalidWeights("Empty weights data".to_string()))
    );
    assert_eq!(
        env.update_weights(&[77, 1, 2]),
        Err(Error::UnsupportedAlgorithm("Unknown algorithm: 77".to_string()))
    );
    assert_eq!(
        env.update_weights(&tabular_buffer(5, 2, 0.5)),
        Err(Error::InvalidWeights("State/action dimensions mismatch".to_string()))
    );
    assert_eq!(env.get_weights().unwrap(), weights);
    assert_eq!(env.state(), &state);
}

#[test]
fn update_weights_swaps_parameters_and_fingerprint() {
    let mut env = Env::<4, 2>::from_weights(&tabular_buffer(4, 2, 0.5)).unwrap();
    env.reset(&obs_of([1.0, 2.0, 3.0, 4.0]), fixed_action);
    env.step(&obs_of([1.0, 2.0, 3.0, 4.0]), fixed_action);
    let new_weights = tabular_buffer(4, 2, -2.0);
    assert_eq!(env.update_weights(&new_weights), Ok(()));
    assert_eq!(env.get_weights().unwrap(), new_weights);
    assert_eq!(&env.state().weights_hash[..], &new_weights[..32]);
    assert_eq!(env.state().step_count, 1);
    assert_eq!(env.state().episode_count, 1);

    let mut rates_only = vec![0u8];
    rates_only.extend(4u32.to_le_bytes());
    rates_only.extend(2u32.to_le_bytes());
    rates_only.extend(0.75f32.to_le_bytes());
    rates_only.extend(0.5f32.to_le_bytes());
    assert_eq!(env.update_weights(&rates_only), Ok(()));
    assert_eq!(&env.state().weights_hash[..], &new_weights[..32]);

    let written = env.get_weights().unwrap();
    assert_eq!(env.update_weights(&written), Ok(()));
    assert_eq!(env.get_weights().unwrap(), written);
}

#[test]
fn invariant_accepts_bounded_finite_pairs() {
    let env = Env::<4, 2>::from_weights(&tabular_buffer(4, 2, 0.0)).unwrap();
    let obs = obs_of([1.0, 2.0, 3.0, 4.0]);
    assert!(env.check_invariant(&obs, &action_of([0.5, -0.3])).is_ok());
    assert!(env.check_invariant(&obs, &action_of([1.0, -1.0])).is_ok());
    assert!(env.check_invariant(&obs, &action_of([0.0, -0.0])).is_ok());
}

#[test]
fn invariant_rejects_what_is_out_of_bounds_or_not_finite() {
    let env = Env::<4, 2>::from_weights(&tabular_buffer(4, 2, 0.0)).unwrap();
    let obs = obs_of([1.0, 2.0, 3.0, 4.0]);
    let out_of_bounds = Err(Error::InvariantViolation("Action out of bounds".to_string()));
    assert_eq!(env.check_invariant(&obs, &action_of([1.5, -0.3])), out_of_bounds);
    assert_eq!(env.check_invariant(&obs, &action_of([0.5, -1.0000001])), out_of_bounds);
    assert_eq!(env.check_invariant(&obs, &action_of([f32::NAN, 0.0])), out_of_bounds);
    assert_eq!(env.check_invariant(&obs, &action_of([0.0, f32::INFINITY])), out_of_bounds);
    assert_eq!(env.check_invariant(&obs, &action_of([f32::NEG_INFINITY, 0.0])), out_of_bounds);
    let not_finite = Err(Error::InvariantViolation(
        "Observation contains NaN or infinite values".to_string(),
    ));
    let ok_action = action_of([0.5, -0.3]);
    assert_eq!(env.check_invariant(&obs_of([1.0, f32::NAN, 3.0, 4.0]), &ok_action), not_finite);
    assert_eq!(
        env.check_invariant(&obs_of([1.0, 2.0, 3.0, f32::INFINITY]), &ok_action),
        not_finite
    );
    assert_eq!(
        env.check_invariant(&obs_of([f32::NEG_INFINITY, 2.0, 3.0, 4.0]), &ok_action),
        not_finite
    );
    assert_eq!(
        env.check_invariant(&obs_of([f32::NAN, 2.0, 3.0, 4.0]), &action_of([2.0, 0.0])),
        out_of_bounds
    );
}

fn run_episode<E: Environment<4, 2>>(
    env: &mut E,
    act: fn(&E::Policy, &Obs<4>) -> Action<2>,
) -> (u64, u64) {
    let obs = obs_of([0.25, 0.0, 0.0, 0.0]);
    env.reset(&obs, act);
    env.step(&obs, act);
    env.step(&obs, act);
    (env.state().step_count, env.state().episode_count)
}

#[test]
fn the_environment_trait_drives_an_episode() {
    let mut env = Env::<4, 2>::from_weights(&linear_buffer(0.5)).unwrap();
    assert_eq!(run_episode(&mut env, fixed_action), (2, 1));
    assert_eq!(run_episode(&mut env, fixed_action), (2, 2));
    let mut state = env.state().clone();
    state.step_count = 40;
    Environment::set_state(&mut env, state);
    assert_eq!(Environment::state(&env).step_count, 40);
}

#[test]
fn result_alias_names_the_library_error() {
    let r: leanrl_core::Result<u8> = Err(leanrl_core::Error::Internal("x".to_string()));
    assert_eq!(r, Err(Error::Internal("x".to_string())));
    let env: leanrl_core::error::Result<leanrl_core::Env<4, 2>> =
        leanrl_core::Env::from_weights(&[]);
    assert!(env.is_err());
}

#[test]
fn test_env_creation() {
    let mut weights = vec![0u8];
    weights.extend(vec![1.0f32.to_le_bytes().to_vec()].concat());
    assert_eq!(weights.len(), 5);

    let env = Env::<4, 2>::from_weights(&weights);
    assert!(env.is_err());
    assert_eq!(
        env.err(),
        Some(Error::InvalidWeights("Insufficient weights for TabularQLearning".to_string()))
    );
}

#[test]
fn hot_swap_of_a_short_linear_buffer_changes_nothing() {
    let weights = linear_buffer(0.25);
    let mut env = Env::<4, 2>::from_weights(&weights).unwrap();
    let state = env.state().clone();
    assert_eq!(
        env.update_weights(&[1, 0, 0, 0, 63]),
        Err(Error::InvalidWeights("Insufficient weights for LinearFA".to_string()))
    );
    assert_eq!(
        env.update_weights(&weights[..weights.len() - 1]),
        Err(Error::InvalidWeights("Insufficient weights for LinearFA".to_string()))
    );
    assert_eq!(env.get_weights().unwrap(), weights);
    assert_eq!(env.state(), &state);
}

#[test]
fn construction_refuses_a_table_that_cannot_be_had() {
    let mut hostile = vec![0u8];
    hostile.extend(0xFFFF_FFFFu32.to_le_bytes());
    hostile.extend(0xFFFF_FFFFu32.to_le_bytes());
    hostile.extend(0.1f32.to_le_bytes());
    hostile.extend(0.9f32.to_le_bytes());
    assert_eq!(hostile.len(), 17);
    assert_eq!(
        Env::<4, 2>::from_weights(&hostile).err(),
        Some(Error::OutOfMemory("Q-table does not fit in memory".to_string()))
    );
}
