use multinomial::{Error, MultinomialConst, Weight};
use multinomial::randomness::binomial_draw;
use rand::rngs::StdRng;
use rand::SeedableRng;

#[test]
fn test_multinomial() {}

fn finite(values: &[i64]) -> Vec<Weight> {
    values.iter().map(|&v| Weight::Finite(v)).collect()
}

#[test]
fn sum_invariant_many_seeds() {
    let m = MultinomialConst::new(97, finite(&[3, 3, 4])).unwrap();
    for seed in 0..50u64 {
        let mut rng = StdRng::seed_from_u64(seed);
        let s = m.sample(&mut rng);
        assert_eq!(s.len(), 3);
        assert_eq!(s.iter().sum::<u64>(), 97);
    }
}

#[test]
fn sum_invariant_other_shapes() {
    let shapes: Vec<Vec<i64>> = vec![
        vec![1],
        vec![5, 5],
        vec![1, 2, 3, 4, 5],
        vec![0, 1, 0, 1],
    ];
    for (idx, shape) in shapes.iter().enumerate() {
        let m = MultinomialConst::new(31, finite(shape)).unwrap();
        let mut rng = StdRng::seed_from_u64(idx as u64);
        let s = m.sample(&mut rng);
        assert_eq!(s.len(), shape.len());
        assert_eq!(s.iter().sum::<u64>(), 31);
    }
}

#[test]
fn entries_non_negative() {
    let m = MultinomialConst::new(40, finite(&[1, 2, 3])).unwrap();
    for seed in 0..20u64 {
        let mut rng = StdRng::seed_from_u64(seed);
        let s = m.sample(&mut rng);
        for &entry in s.iter() {
            assert!(entry as i128 >= 0);
        }
    }
}

#[test]
fn zero_weight_category_gets_nothing() {
    // weights {0.5, 0.0, 0.5}: the zero-weight middle category stays empty
    let m = MultinomialConst::new(60, finite(&[1, 0, 1])).unwrap();
    for seed in 0..50u64 {
        let mut rng = StdRng::seed_from_u64(seed);
        let s = m.sample(&mut rng);
        assert_eq!(s[1], 0);
        assert_eq!(s[0] + s[2], 60);
    }
}

#[test]
fn zero_weight_last_category_gets_nothing() {
    // with an exact total, even a zero-weight last category stays empty
    let m = MultinomialConst::new(25, finite(&[2, 3, 0])).unwrap();
    for seed in 0..50u64 {
        let mut rng = StdRng::seed_from_u64(seed);
        let s = m.sample(&mut rng);
        assert_eq!(s[2], 0);
        assert_eq!(s[0] + s[1], 25);
    }
}

#[test]
fn degenerate_single_mass() {
    // weights {1.0, 0.0, 0.0} with n = 10 always yields {10, 0, 0}
    let m = MultinomialConst::new(10, finite(&[1, 0, 0])).unwrap();
    for seed in 0..50u64 {
        let mut rng = StdRng::seed_from_u64(seed);
        assert_eq!(m.sample(&mut rng), vec![10u64, 0, 0]);
    }
}

#[test]
fn all_to_last_category() {
    // weights {0.0, 0.0, 1.0} with n = 7 always yields {0, 0, 7}
    let m = MultinomialConst::new(7, finite(&[0, 0, 1])).unwrap();
    for seed in 0..50u64 {
        let mut rng = StdRng::seed_from_u64(seed);
        assert_eq!(m.sample(&mut rng), vec![0u64, 0, 7]);
    }
}

#[test]
fn rejects_negative_weight() {
    // weights {-0.1, 0.5, 0.6} in tenths
    let r = MultinomialConst::new(5, finite(&[-1, 5, 6]));
    assert_eq!(r.unwrap_err(), Error::ProbabilityNegative);
}

#[test]
fn rejects_nan_weight() {
    let r = MultinomialConst::new(5, vec![Weight::NotANumber, Weight::Finite(1)]);
    assert_eq!(r.unwrap_err(), Error::ProbabilityNegative);
}

#[test]
fn rejects_negative_infinity() {
    let r = MultinomialConst::new(5, vec![Weight::NegativeInfinity, Weight::Finite(1)]);
    assert_eq!(r.unwrap_err(), Error::ProbabilityNegative);
}

#[test]
fn negative_outranks_other_errors() {
    // a negative weight is reported even when an infinite one is present
    let r = MultinomialConst::new(5, vec![Weight::PositiveInfinity, Weight::Finite(-3)]);
    assert_eq!(r.unwrap_err(), Error::ProbabilityNegative);
}

#[test]
fn rejects_all_zero() {
    let r = MultinomialConst::new(5, finite(&[0, 0, 0]));
    assert_eq!(r.unwrap_err(), Error::ProbabilityZero);
}

#[test]
fn rejects_infinite_weight() {
    // weights {inf, 1.0, 1.0}
    let r = MultinomialConst::new(
        5,
        vec![Weight::PositiveInfinity, Weight::Finite(1), Weight::Finite(1)],
    );
    assert_eq!(r.unwrap_err(), Error::ProbabilityInfinity);
}

#[test]
fn rejects_overflowing_sum() {
    let big = i64::MAX;
    let r = MultinomialConst::new(5, finite(&[big, big, big]));
    assert_eq!(r.unwrap_err(), Error::ProbabilityInfinity);
}

#[test]
fn error_messages_are_distinct() {
    assert_eq!(
        Error::ProbabilityNegative.message(),
        "One of the weights is negative or NaN"
    );
    assert_eq!(Error::ProbabilityZero.message(), "All of the weights are zero");
    assert_eq!(
        Error::ProbabilityInfinity.message(),
        "One of the weights is infinite or the sum overflows"
    );
}

#[test]
fn normalization_idempotence() {
    // {2.0, 2.0} and {1.0, 1.0} both normalize to {0.5, 0.5}
    let a = MultinomialConst::new(7, finite(&[2, 2])).unwrap();
    let b = MultinomialConst::new(7, finite(&[1, 1])).unwrap();
    assert_eq!(a, b);
    // and rescaling a skewed vector changes nothing either
    let c = MultinomialConst::new(7, finite(&[3, 3, 4])).unwrap();
    let d = MultinomialConst::new(7, finite(&[30, 30, 40])).unwrap();
    assert_eq!(c, d);
}

#[test]
fn different_distributions_are_unequal() {
    let a = MultinomialConst::new(7, finite(&[1, 1])).unwrap();
    let b = MultinomialConst::new(7, finite(&[1, 2])).unwrap();
    assert!(a != b);
    let c = MultinomialConst::new(8, finite(&[1, 1])).unwrap();
    assert!(a != c);
}

#[test]
fn clone_preserves_value() {
    let a = MultinomialConst::new(12, finite(&[2, 3, 5])).unwrap();
    let b = a.clone();
    assert_eq!(a, b);
    let mut rng_a = StdRng::seed_from_u64(9);
    let mut rng_b = StdRng::seed_from_u64(9);
    assert_eq!(a.sample(&mut rng_a), b.sample(&mut rng_b));
}

#[test]
fn binomial_draw_edge_probabilities() {
    let mut rng = StdRng::seed_from_u64(1);
    for trials in [0u64, 1, 17, 1000] {
        assert_eq!(binomial_draw(&mut rng, trials, 0, 5), 0);
        assert_eq!(binomial_draw(&mut rng, trials, 5, 5), trials);
        let c = binomial_draw(&mut rng, trials, 2, 5);
        assert!(c <= trials);
    }
}

#[test]
fn binomial_draw_uses_the_random_source() {
    // a fair coin over many trials lands well inside the bulk; this fails
    // if the uniform draws were degenerate
    let mut rng = StdRng::seed_from_u64(2);
    let c = binomial_draw(&mut rng, 10000, 1, 2);
    assert!(1000 < c && c < 9000);
}

#[test]
fn statistical_convergence() {
    // weights {0.3, 0.3, 0.4}: empirical per-category means approach the
    // normalized weights as samples accumulate
    let n = 1000u64;
    let rounds = 2000u64;
    let m = MultinomialConst::new(n, finite(&[3, 3, 4])).unwrap();
    let mut rng = StdRng::seed_from_u64(42);
    let mut totals = [0u64; 3];
    for _ in 0..rounds {
        let s = m.sample(&mut rng);
        for j in 0..3 {
            totals[j] += s[j];
        }
    }
    let scale = (n * rounds) as f64;
    let expected = [0.3f64, 0.3, 0.4];
    for j in 0..3 {
        let mean = totals[j] as f64 / scale;
        assert!((mean - expected[j]).abs() < 0.01);
    }
}
