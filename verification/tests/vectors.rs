use leanrl_core::action::Action;
use leanrl_core::binary32;
use leanrl_core::error::Error;
use leanrl_core::obs::Obs;
use leanrl_core::simd::{
    select_backend, Avx2Backend, Backend, Capabilities, NeonBackend, ScalarBackend,
};

fn vec_bits(values: &[f32]) -> Vec<u32> {
    values.iter().map(|x| x.to_bits()).collect()
}

fn vec_floats(bits: &[u32]) -> Vec<f32> {
    bits.iter().map(|b| f32::from_bits(*b)).collect()
}

#[test]
fn test_action_creation() {
    let action = Action::new([0.5f32.to_bits(), (-0.3f32).to_bits()]);
    assert_eq!(vec_floats(action.as_slice()), [0.5, -0.3]);
}

#[test]
fn test_action_from_slice() {
    let action = Action::<2>::from_slice(&vec_bits(&[0.5, -0.3])).unwrap();
    assert_eq!(vec_floats(action.as_slice()), [0.5, -0.3]);
}

#[test]
fn test_action_from_slice_wrong_size() {
    let result = Action::<2>::from_slice(&vec_bits(&[0.5]));
    assert!(result.is_err());
}

#[test]
fn test_action_clamp() {
    let action = Action::new([1.5f32.to_bits(), (-2.0f32).to_bits(), 0.5f32.to_bits()]);
    let clamped = action.clamp((-1.0f32).to_bits(), 1.0f32.to_bits());
    assert_eq!(vec_floats(clamped.as_slice()), [1.0, -1.0, 0.5]);
}

#[test]
fn test_action_argmax() {
    let action = Action::new([0.1f32.to_bits(), 0.8f32.to_bits(), 0.3f32.to_bits()]);
    assert_eq!(action.argmax(), 1);
}

#[test]
fn test_obs_creation() {
    let obs = Obs::new([1.0f32.to_bits(), 2.0f32.to_bits(), 3.0f32.to_bits()]);
    assert_eq!(vec_floats(obs.as_slice()), [1.0, 2.0, 3.0]);
}

#[test]
fn test_obs_from_slice() {
    let obs = Obs::<3>::from_slice(&vec_bits(&[1.0, 2.0, 3.0])).unwrap();
    assert_eq!(vec_floats(obs.as_slice()), [1.0, 2.0, 3.0]);
}

#[test]
fn test_obs_from_slice_wrong_size() {
    let result = Obs::<3>::from_slice(&vec_bits(&[1.0, 2.0]));
    assert!(result.is_err());
}

#[test]
fn test_basic_types() {
    let obs = Obs::new([1.0f32.to_bits(), 2.0f32.to_bits(), 3.0f32.to_bits(), 4.0f32.to_bits()]);
    let action = Action::new([0.5f32.to_bits(), (-0.5f32).to_bits()]);
    assert_eq!(vec_floats(obs.as_slice()), [1.0, 2.0, 3.0, 4.0]);
    assert_eq!(vec_floats(action.as_slice()), [0.5, -0.5]);
}

#[test]
fn from_slice_round_trip_keeps_every_bit() {
    let a = [0x7FC0_0001u32, 0x8000_0000, 0, 0xFFFF_FFFF, 0x3F80_0000];
    let obs = Obs::<5>::from_slice(&a).unwrap();
    assert_eq!(obs.as_slice(), &a);
    assert_eq!(obs.as_array(), &a);
    let action = Action::<5>::from_slice(&a).unwrap();
    assert_eq!(action.as_slice(), &a);
}

#[test]
fn from_slice_size_errors_carry_both_sizes() {
    assert_eq!(
        Obs::<4>::from_slice(&[1, 2, 3, 4, 5, 6]).unwrap_err(),
        Error::InvalidObsSize { expected: 4, actual: 6 }
    );
    assert_eq!(
        Action::<2>::from_slice(&[]).unwrap_err(),
        Error::InvalidActionSize { expected: 2, actual: 0 }
    );
    assert_eq!(
        Obs::<0>::from_slice(&[7]).unwrap_err(),
        Error::InvalidObsSize { expected: 0, actual: 1 }
    );
}

#[test]
fn get_and_set_respect_the_length() {
    let mut obs = Obs::new([10u32, 20, 30]);
    assert_eq!(obs.get(0), Some(10));
    assert_eq!(obs.get(2), Some(30));
    assert_eq!(obs.get(3), None);
    assert_eq!(obs.set(1, 99), Ok(()));
    assert_eq!(obs.as_slice(), &[10, 99, 30]);
    assert_eq!(obs.set(3, 1), Err(Error::InvalidObsSize { expected: 3, actual: 4 }));
    assert_eq!(obs.as_slice(), &[10, 99, 30]);

    let mut action = Action::new([1u32, 2]);
    assert_eq!(action.get(1), Some(2));
    assert_eq!(action.get(2), None);
    assert_eq!(action.set(0, 5), Ok(()));
    assert_eq!(action.set(7, 5), Err(Error::InvalidActionSize { expected: 2, actual: 8 }));
    assert_eq!(action.as_slice(), &[5, 2]);
    action.as_mut_slice()[1] = 77;
    assert_eq!(action.as_slice(), &[5, 77]);
    obs.as_mut_slice()[0] = 11;
    assert_eq!(obs.as_slice(), &[11, 99, 30]);
}

#[test]
fn default_vectors_are_positive_zero() {
    assert_eq!(Obs::<4>::default().as_slice(), &[0u32; 4]);
    assert_eq!(Action::<3>::default().as_slice(), &[0u32; 3]);
    assert_eq!(vec_floats(Action::<3>::default().as_slice()), [0.0, 0.0, 0.0]);
}

#[test]
fn map_applies_the_function_to_each_element() {
    let obs = Obs::new([1.0f32.to_bits(), (-2.0f32).to_bits(), 0.25f32.to_bits()]);
    let doubled = obs.map(|b| (f32::from_bits(b) * 2.0).to_bits());
    assert_eq!(vec_floats(doubled.as_slice()), [2.0, -4.0, 0.5]);
    let action = Action::new([3u32, 4]);
    assert_eq!(action.map(|b| b + 1).as_slice(), &[4, 5]);
}

#[test]
fn one_hot_and_prefix() {
    assert_eq!(vec_floats(Action::<3>::one_hot(1).as_slice()), [0.0, 1.0, 0.0]);
    assert_eq!(vec_floats(Action::<3>::one_hot(3).as_slice()), [0.0, 0.0, 0.0]);
    assert_eq!(Action::<2>::from_prefix(&[5, 6, 7]).as_slice(), &[5, 6]);
    assert_eq!(Action::<4>::from_prefix(&[5, 6]).as_slice(), &[5, 6, 0, 0]);
    assert_eq!(Action::<0>::from_prefix(&[5, 6]).as_slice(), &[] as &[u32]);
}

#[test]
fn argmax_takes_the_first_of_equal_maxima() {
    let a = Action::new(vec_bits(&[0.5, 2.0, 2.0, -1.0]).try_into().unwrap());
    let a: Action<4> = a;
    assert_eq!(a.argmax(), 1);
    let zeros = Action::new([0.0f32.to_bits(), (-0.0f32).to_bits(), 0.0f32.to_bits()]);
    assert_eq!(zeros.argmax(), 0);
    let negatives = Action::new([(-3.0f32).to_bits(), (-1.0f32).to_bits(), (-2.0f32).to_bits()]);
    assert_eq!(negatives.argmax(), 1);
    assert_eq!(Action::<0>::new([]).argmax(), 0);
    let with_infinity = Action::new([1.0f32.to_bits(), f32::INFINITY.to_bits(), 5.0f32.to_bits()]);
    assert_eq!(with_infinity.argmax(), 1);
}

#[test]
fn max_and_min_pass_over_nan() {
    let a = Action::new([
        0.25f32.to_bits(),
        f32::NAN.to_bits(),
        (-7.5f32).to_bits(),
        3.0f32.to_bits(),
    ]);
    assert_eq!(f32::from_bits(a.max()), 3.0);
    assert_eq!(f32::from_bits(a.min()), -7.5);
    let only_nan = Action::new([f32::NAN.to_bits()]);
    assert_eq!(f32::from_bits(only_nan.max()), f32::NEG_INFINITY);
    assert_eq!(f32::from_bits(only_nan.min()), f32::INFINITY);
    assert_eq!(f32::from_bits(Action::<0>::new([]).max()), f32::NEG_INFINITY);
}

#[test]
fn bounds_are_inclusive() {
    let lo = (-1.0f32).to_bits();
    let hi = 1.0f32.to_bits();
    assert!(Action::new([1.0f32.to_bits(), (-1.0f32).to_bits(), 0.0f32.to_bits()])
        .is_within_bounds(lo, hi));
    assert!(!Action::new([1.0000001f32.to_bits()]).is_within_bounds(lo, hi));
    assert!(!Action::new([f32::NAN.to_bits()]).is_within_bounds(lo, hi));
    assert!(!Action::new([f32::NEG_INFINITY.to_bits()]).is_within_bounds(lo, hi));
    assert!(Action::<0>::new([]).is_within_bounds(lo, hi));
}

#[test]
fn clamp_keeps_nan_and_signed_zero() {
    let a = Action::new([f32::NAN.to_bits(), (-0.0f32).to_bits(), f32::INFINITY.to_bits()]);
    let c = a.clamp(0.0f32.to_bits(), 2.0f32.to_bits());
    assert!(f32::from_bits(c.as_slice()[0]).is_nan());
    assert_eq!(c.as_slice()[1], (-0.0f32).to_bits());
    assert_eq!(f32::from_bits(c.as_slice()[2]), 2.0);
}

#[test]
fn binary32_order_agrees_with_the_hardware() {
    let samples: [f32; 17] = [
        0.0,
        -0.0,
        1.0,
        -1.0,
        0.1,
        -0.1,
        f32::MIN_POSITIVE,
        -f32::MIN_POSITIVE,
        1.0e-45,
        -1.0e-45,
        f32::MAX,
        f32::MIN,
        f32::INFINITY,
        f32::NEG_INFINITY,
        f32::NAN,
        -f32::NAN,
        123456.79,
    ];
    for &a in samples.iter() {
        let x = a.to_bits();
        assert_eq!(binary32::nan(x), a.is_nan());
        assert_eq!(binary32::finite(x), a.is_finite());
        for &b in samples.iter() {
            let y = b.to_bits();
            assert_eq!(binary32::less(x, y), a < b, "{} < {}", a, b);
            assert_eq!(binary32::less_or_equal(x, y), a <= b, "{} <= {}", a, b);
            if !a.is_nan() && !b.is_nan() && a != b {
                assert_eq!(f32::from_bits(binary32::larger_of(x, y)), a.max(b));
                assert_eq!(f32::from_bits(binary32::smaller_of(x, y)), a.min(b));
            }
            if !b.is_nan() && b <= 1.0 {
                let got = f32::from_bits(binary32::clamp_to(x, y, 1.0f32.to_bits()));
                let want = a.clamp(b, 1.0);
                assert!(got == want || (got.is_nan() && want.is_nan()));
            }
        }
    }
    assert_eq!(binary32::ONE, 1.0f32.to_bits());
    assert_eq!(binary32::NEG_ONE, (-1.0f32).to_bits());
    assert_eq!(binary32::ZERO, 0.0f32.to_bits());
    assert_eq!(binary32::INFINITY, f32::INFINITY.to_bits());
    assert_eq!(binary32::NEG_INFINITY, f32::NEG_INFINITY.to_bits());
}

#[test]
fn div_gives_infinity_where_the_divisor_is_zero() {
    let a = Obs::new([6.0f32.to_bits(), 1.0f32.to_bits(), (-1.0f32).to_bits(), 0.0f32.to_bits()]);
    let b = Obs::new([3.0f32.to_bits(), 0.0f32.to_bits(), (-0.0f32).to_bits(), 0.0f32.to_bits()]);
    let q = a.div(&b, |x, y| (f32::from_bits(x) / f32::from_bits(y)).to_bits()).unwrap();
    assert_eq!(vec_floats(q.as_slice()), [2.0, f32::INFINITY, f32::INFINITY, f32::INFINITY]);
    let c = Action::new([1.0f32.to_bits(), 5.0f32.to_bits()]);
    let d = Action::new([4.0f32.to_bits(), (-0.0f32).to_bits()]);
    let q = c.div(&d, |x, y| (f32::from_bits(x) / f32::from_bits(y)).to_bits()).unwrap();
    assert_eq!(vec_floats(q.as_slice()), [0.25, f32::INFINITY]);
}

#[test]
fn zip_map_combines_element_by_element() {
    let a = Obs::new([1.0f32.to_bits(), 2.0f32.to_bits(), 3.0f32.to_bits()]);
    let b = Obs::new([4.0f32.to_bits(), 5.0f32.to_bits(), 6.0f32.to_bits()]);
    let sum = a.zip_map(&b, |x, y| (f32::from_bits(x) + f32::from_bits(y)).to_bits());
    assert_eq!(vec_floats(sum.as_slice()), [5.0, 7.0, 9.0]);
    let c = Action::new([10u32, 20]);
    let d = Action::new([1u32, 2]);
    assert_eq!(c.zip_map(&d, |x, y| x - y).as_slice(), &[9, 18]);
}

#[test]
fn test_obs_operations() {
    let obs1 = Obs::new([1.0f32.to_bits(), 2.0f32.to_bits(), 3.0f32.to_bits()]);
    let obs2 = Obs::new([4.0f32.to_bits(), 5.0f32.to_bits(), 6.0f32.to_bits()]);

    let sum = obs1.zip_map(&obs2, plus);
    assert_eq!(vec_floats(sum.as_slice()), [5.0, 7.0, 9.0]);

    let dot = f32::from_bits(obs1.dot(&obs2, 0, times, plus));
    assert_eq!(dot, 32.0);
}

#[test]
fn backend_choice_follows_the_capabilities() {
    let caps = |a, b, c, d| Capabilities {
        avx2_built: a,
        avx2_detected: b,
        neon_built: c,
        aarch64: d,
    };
    assert_eq!(select_backend(caps(false, false, false, false)), Backend::Scalar(ScalarBackend));
    assert_eq!(select_backend(caps(true, false, false, true)), Backend::Scalar(ScalarBackend));
    assert_eq!(select_backend(caps(false, true, true, false)), Backend::Scalar(ScalarBackend));
    assert_eq!(select_backend(caps(true, true, false, false)), Backend::Avx2(Avx2Backend));
    assert_eq!(select_backend(caps(true, true, true, true)), Backend::Avx2(Avx2Backend));
    assert_eq!(select_backend(caps(true, false, true, true)), Backend::Neon(NeonBackend));
    assert_eq!(select_backend(caps(false, false, true, true)), Backend::Neon(NeonBackend));
}

fn plus(a: u32, b: u32) -> u32 {
    (f32::from_bits(a) + f32::from_bits(b)).to_bits()
}

fn times(a: u32, b: u32) -> u32 {
    (f32::from_bits(a) * f32::from_bits(b)).to_bits()
}

fn over(a: u32, b: u32) -> u32 {
    (f32::from_bits(a) / f32::from_bits(b)).to_bits()
}

#[test]
fn test_action_softmax() {
    let action = Action::new([1.0f32.to_bits(), 2.0f32.to_bits(), 3.0f32.to_bits()]);
    let softmax = action.softmax(
        0,
        |x, max| (f32::from_bits(x) - f32::from_bits(max)).exp().to_bits(),
        plus,
        over,
    );
    let sum: f32 = vec_floats(softmax.as_slice()).iter().sum();
    assert!((sum - 1.0).abs() < 1e-6);
}

#[test]
fn test_obs_normalize() {
    let obs = Obs::new([3.0f32.to_bits(), 4.0f32.to_bits()]);
    let square = |x: u32| (f32::from_bits(x) * f32::from_bits(x)).to_bits();
    let root = |x: u32| f32::from_bits(x).sqrt().to_bits();
    let length = obs.norm(0, square, plus, root);
    assert_eq!(f32::from_bits(length), 5.0);
    let normalized = obs.normalize(length, over);
    let norm = f32::from_bits(normalized.norm(0, square, plus, root));
    assert!((norm - 1.0).abs() < 1e-6);
}

#[test]
fn softmax_shifts_by_the_maximum() {
    let action = Action::new([1000.0f32.to_bits(), 1001.0f32.to_bits()]);
    let softmax = action.softmax(
        0,
        |x, max| (f32::from_bits(x) - f32::from_bits(max)).exp().to_bits(),
        plus,
        over,
    );
    let values = vec_floats(softmax.as_slice());
    let e = (-1.0f32).exp();
    assert_eq!(values, [e / (e + 1.0), 1.0 / (e + 1.0)]);
    for v in values {
        assert!(v > 0.0 && v <= 1.0);
    }
}

#[test]
fn dot_folds_from_the_left() {
    let a = Obs::new([1.0f32.to_bits(), 2.0f32.to_bits(), 3.0f32.to_bits()]);
    let b = Obs::new([4.0f32.to_bits(), 5.0f32.to_bits(), 6.0f32.to_bits()]);
    assert_eq!(f32::from_bits(a.dot(&b, 0, times, plus)), 32.0);
    let order = Obs::new([1u32, 2, 3]);
    let traced = order.dot(&order, 0, |x, _| x, |acc, x| acc * 10 + x);
    assert_eq!(traced, 123);
}

#[test]
fn normalize_of_a_zero_vector_is_zero() {
    let obs = Obs::new([0.0f32.to_bits(), (-0.0f32).to_bits()]);
    assert_eq!(obs.normalize(0.0f32.to_bits(), over).as_slice(), &[0, 0]);
    assert_eq!(obs.normalize((-0.0f32).to_bits(), over).as_slice(), &[0, 0]);
}

#[test]
fn scale_multiplies_each_element() {
    let action = Action::new([0.5f32.to_bits(), (-0.25f32).to_bits()]);
    let scaled = action.scale(2.0f32.to_bits(), times);
    assert_eq!(vec_floats(scaled.as_slice()), [1.0, -0.5]);
    assert_eq!(action.map_with(7, |x, y| x ^ y).as_slice(), &[0.5f32.to_bits() ^ 7, (-0.25f32).to_bits() ^ 7]);
}

#[test]
fn reference_backend_operations() {
    let input = Obs::new([1.0f32.to_bits(), 2.0f32.to_bits()]);
    let weights = [
        [1.0f32.to_bits(), 0.5f32.to_bits()],
        [0.5f32.to_bits(), 1.0f32.to_bits()],
    ];
    let bias = [0.25f32.to_bits(), 0.5f32.to_bits()];
    let output = ScalarBackend::matrix_vector_mul(&input, &weights, &bias, |row, x, b| {
        let sum: f32 =
            x.iter().zip(row.iter()).map(|(x, w)| f32::from_bits(*x) * f32::from_bits(*w)).sum();
        (sum + f32::from_bits(b)).to_bits()
    });
    assert_eq!(vec_floats(output.as_slice()), [2.25, 3.0]);

    let a = [1.0f32.to_bits(), 2.0f32.to_bits(), 3.0f32.to_bits()];
    let b = [4.0f32.to_bits(), 5.0f32.to_bits(), 6.0f32.to_bits()];
    assert_eq!(vec_floats(&ScalarBackend::vector_zip(&a, &b, plus)), [5.0, 7.0, 9.0]);
    assert_eq!(
        vec_floats(&ScalarBackend::vector_zip(&a, &b, |x, y| {
            (f32::from_bits(x) - f32::from_bits(y)).to_bits()
        })),
        [-3.0, -3.0, -3.0]
    );
    assert_eq!(vec_floats(&ScalarBackend::vector_zip(&a, &b, times)), [4.0, 10.0, 18.0]);
    assert_eq!(
        vec_floats(&ScalarBackend::vector_scale(&a, 2.0f32.to_bits(), times)),
        [2.0, 4.0, 6.0]
    );
}

fn affine(row: &[u32], x: &[u32], bias: u32) -> u32 {
    let sum: f32 =
        x.iter().zip(row.iter()).map(|(x, w)| f32::from_bits(*x) * f32::from_bits(*w)).sum();
    (sum + f32::from_bits(bias)).to_bits()
}

#[test]
fn test_scalar_backend() {
    let input = Obs::new([1.0f32.to_bits(), 2.0f32.to_bits()]);
    let weights = [
        [1.0f32.to_bits(), 0.5f32.to_bits()],
        [0.5f32.to_bits(), 1.0f32.to_bits()],
    ];
    let bias = [0.1f32.to_bits(), 0.2f32.to_bits()];

    let output = ScalarBackend::matrix_vector_mul(&input, &weights, &bias, affine);
    assert_eq!(vec_floats(output.as_slice()), [2.1, 2.7]);
}

#[test]
fn test_vector_operations() {
    let a = [1.0f32.to_bits(), 2.0f32.to_bits(), 3.0f32.to_bits()];
    let b = [4.0f32.to_bits(), 5.0f32.to_bits(), 6.0f32.to_bits()];

    let sum = ScalarBackend::vector_zip(&a, &b, plus);
    assert_eq!(vec_floats(&sum), [5.0, 7.0, 9.0]);

    let diff =
        ScalarBackend::vector_zip(&a, &b, |x, y| (f32::from_bits(x) - f32::from_bits(y)).to_bits());
    assert_eq!(vec_floats(&diff), [-3.0, -3.0, -3.0]);

    let prod = ScalarBackend::vector_zip(&a, &b, times);
    assert_eq!(vec_floats(&prod), [4.0, 10.0, 18.0]);

    let scaled = ScalarBackend::vector_scale(&a, 2.0f32.to_bits(), times);
    assert_eq!(vec_floats(&scaled), [2.0, 4.0, 6.0]);
}

#[test]
fn conversions_from_arrays_and_slices() {
    let obs: Obs<3> = Obs::from([1u32, 2, 3]);
    assert_eq!(obs.as_slice(), &[1, 2, 3]);
    let action: Action<2> = [4u32, 5].into();
    assert_eq!(action.as_slice(), &[4, 5]);
    let slice: &[u32] = &[7, 8, 9];
    assert_eq!(Obs::<3>::try_from(slice).unwrap().as_slice(), slice);
    assert_eq!(
        Obs::<2>::try_from(slice),
        Err(Error::InvalidObsSize { expected: 2, actual: 3 })
    );
    assert_eq!(Action::<3>::try_from(slice).unwrap().as_slice(), slice);
    assert_eq!(
        Action::<4>::try_from(slice),
        Err(Error::InvalidActionSize { expected: 4, actual: 3 })
    );
}

#[test]
fn test_action_operations() {
    let action1 = Action::new([0.5f32.to_bits(), (-0.3f32).to_bits()]);
    let action2 = Action::new([0.2f32.to_bits(), 0.1f32.to_bits()]);

    let sum = vec_floats(action1.zip_map(&action2, plus).as_slice());
    assert_eq!(sum, [0.5f32 + 0.2f32, -0.3f32 + 0.1f32]);
    assert_eq!(sum[0], 0.7);
    assert!((sum[1] - -0.2).abs() <= f32::EPSILON);

    let scaled = action1.scale(2.0f32.to_bits(), times);
    assert_eq!(vec_floats(scaled.as_slice()), [1.0, -0.6]);
}

#[test]
fn zeros_are_made_only_where_memory_can_be_had() {
    assert_eq!(binary32::try_zeros(0), Some(vec![]));
    assert_eq!(binary32::try_zeros(5), Some(vec![0u32; 5]));
    assert_eq!(binary32::zeros(5), vec![0u32; 5]);
    assert_eq!(binary32::try_zeros(usize::MAX), None);
    assert_eq!(binary32::try_zeros(usize::MAX / 4), None);
}
