//! End-to-end runs of the solver with IEEE 754 double-precision arithmetic
//! supplied through the callbacks.

use newton_raphson::solver::DEFAULT_MAX_ITERATIONS;
use newton_raphson::solver::DEFAULT_TOLERANCE;
use newton_raphson::solver::Solution;
use newton_raphson::solver::SolveError;
use newton_raphson::solver::SolveStatus;
use newton_raphson::solver::SolverConfig;
use newton_raphson::solver::clone_bits;
use newton_raphson::solver::is_square;
use newton_raphson::solver::solve;
use std::cell::Cell;

fn bits(v: f64) -> u64 {
    v.to_bits()
}

fn val(w: u64) -> f64 {
    f64::from_bits(w)
}

fn sub_bits(a: u64, b: u64) -> u64 {
    bits(val(a) - val(b))
}

fn inf_norm_bits(d: Vec<u64>) -> u64 {
    let mut m: f64 = 0.0;
    for w in d {
        let a = val(w).abs();
        if a > m {
            m = a;
        }
    }
    bits(m)
}

fn le_bits(a: u64, b: u64) -> bool {
    val(a) <= val(b)
}

fn positive_bits(t: u64) -> bool {
    val(t) > 0.0
}

/// Gaussian elimination with partial pivoting; `None` when a pivot vanishes.
fn lin_solve_bits(jac: Vec<Vec<u64>>, fx: Vec<u64>) -> Option<Vec<u64>> {
    let n: usize = fx.len();
    let mut a: Vec<Vec<f64>> = jac
        .iter()
        .map(|row| row.iter().map(|w| val(*w)).collect())
        .collect();
    let mut b: Vec<f64> = fx.iter().map(|w| val(*w)).collect();
    for col in 0..n {
        let mut piv: usize = col;
        for r in col + 1..n {
            if a[r][col].abs() > a[piv][col].abs() {
                piv = r;
            }
        }
        if a[piv][col] == 0.0 {
            return None;
        }
        a.swap(col, piv);
        b.swap(col, piv);
        for r in col + 1..n {
            let factor = a[r][col] / a[col][col];
            for c in col..n {
                let delta = factor * a[col][c];
                a[r][c] -= delta;
            }
            b[r] -= factor * b[col];
        }
    }
    let mut x: Vec<f64> = vec![0.0; n];
    for i in (0..n).rev() {
        let mut s = b[i];
        for j in i + 1..n {
            s -= a[i][j] * x[j];
        }
        x[i] = s / a[i][i];
    }
    Some(x.iter().map(|v| bits(*v)).collect())
}

/// The two-equation example system `x^2 + y^2 - 5 = 0`, `x^3 + y^3 - 2 = 0`.
fn example_residual(x: Vec<u64>) -> Vec<u64> {
    let a = val(x[0]);
    let b = val(x[1]);
    vec![bits(a * a + b * b - 5.0), bits(a * a * a + b * b * b - 2.0)]
}

fn example_jacobian(x: Vec<u64>) -> Vec<Vec<u64>> {
    let a = val(x[0]);
    let b = val(x[1]);
    vec![
        vec![bits(2.0 * a), bits(2.0 * b)],
        vec![bits(3.0 * a * a), bits(3.0 * b * b)],
    ]
}

fn run_example(x0: (f64, f64), tol: f64, max_iterations: u32) -> Result<Solution, SolveError> {
    solve(
        example_residual,
        example_jacobian,
        lin_solve_bits,
        sub_bits,
        inf_norm_bits,
        le_bits,
        positive_bits,
        vec![bits(x0.0), bits(x0.1)],
        SolverConfig { tolerance: bits(tol), max_iterations },
    )
}

#[test]
fn converges_on_example_system() {
    let sol = run_example((2.0, -1.0), 1e-9, 20).unwrap();
    assert_eq!(sol.status, SolveStatus::Converged);
    assert!(sol.iterations <= 20);
    assert!(val(sol.error) <= 1e-9);
    let x = val(sol.x[0]);
    let y = val(sol.x[1]);
    // Regression fixture for the converged point.
    assert!((x - 1.7094271685162565).abs() < 1e-9);
    assert!((y - -1.441477976085134).abs() < 1e-9);
    assert!((x * x + y * y - 5.0).abs() < 1e-6);
    assert!((x * x * x + y * y * y - 2.0).abs() < 1e-6);
}

#[test]
fn history_records_are_numbered_and_final() {
    let sol = run_example((2.0, -1.0), 1e-9, 20).unwrap();
    assert_eq!(sol.history.len(), sol.iterations as usize);
    for (k, rec) in sol.history.iter().enumerate() {
        assert_eq!(rec.iteration as usize, k + 1);
        assert_eq!(rec.x.len(), 2);
    }
    let last = sol.history.last().unwrap();
    assert_eq!(last.x, sol.x);
    assert_eq!(last.error, sol.error);
    assert!(val(last.error) <= 1e-9);
    for rec in sol.history.iter().take(sol.history.len() - 1) {
        assert!(val(rec.error) > 1e-9);
    }
}

#[test]
fn idempotence_after_convergence() {
    let tol = 1e-9;
    let sol = run_example((2.0, -1.0), tol, 20).unwrap();
    assert_eq!(sol.status, SolveStatus::Converged);
    // One more hand-driven iteration from the converged point moves it by
    // less than the tolerance.
    let fx = example_residual(sol.x.clone());
    let jac = example_jacobian(sol.x.clone());
    let step = lin_solve_bits(jac, fx).unwrap();
    let mut change: f64 = 0.0;
    for i in 0..2 {
        let next = sub_bits(sol.x[i], step[i]);
        let d = (val(next) - val(sol.x[i])).abs();
        if d > change {
            change = d;
        }
    }
    assert!(change < tol);
}

#[test]
fn dimension_mismatch_rejected_before_iterating() {
    let solves = Cell::new(0u32);
    let bad_residual = |_x: Vec<u64>| -> Vec<u64> { vec![bits(0.0), bits(0.0), bits(0.0)] };
    let counting_solve = |jac: Vec<Vec<u64>>, fx: Vec<u64>| -> Option<Vec<u64>> {
        solves.set(solves.get() + 1);
        lin_solve_bits(jac, fx)
    };
    let r = solve(
        bad_residual,
        example_jacobian,
        counting_solve,
        sub_bits,
        inf_norm_bits,
        le_bits,
        positive_bits,
        vec![bits(2.0), bits(-1.0)],
        SolverConfig { tolerance: bits(1e-9), max_iterations: 20 },
    );
    assert!(matches!(r, Err(SolveError::InvalidInput)));
    // No iteration ran: the linear solve was never reached.
    assert_eq!(solves.get(), 0);
}

#[test]
fn jacobian_wrong_shape_is_invalid_input() {
    let bad_jacobian = |_x: Vec<u64>| -> Vec<Vec<u64>> {
        vec![vec![bits(1.0), bits(0.0), bits(0.0)], vec![bits(0.0), bits(1.0), bits(0.0)]]
    };
    let r = solve(
        example_residual,
        bad_jacobian,
        lin_solve_bits,
        sub_bits,
        inf_norm_bits,
        le_bits,
        positive_bits,
        vec![bits(2.0), bits(-1.0)],
        SolverConfig { tolerance: bits(1e-9), max_iterations: 20 },
    );
    assert!(matches!(r, Err(SolveError::InvalidInput)));
}

#[test]
fn singular_jacobian_is_reported_with_last_iterate() {
    let zero_jacobian = |_x: Vec<u64>| -> Vec<Vec<u64>> {
        vec![vec![bits(0.0), bits(0.0)], vec![bits(0.0), bits(0.0)]]
    };
    let x0 = vec![bits(2.0), bits(-1.0)];
    let r = solve(
        example_residual,
        zero_jacobian,
        lin_solve_bits,
        sub_bits,
        inf_norm_bits,
        le_bits,
        positive_bits,
        x0.clone(),
        SolverConfig { tolerance: bits(1e-9), max_iterations: 20 },
    );
    match r {
        Err(SolveError::SingularJacobian { x, iterations }) => {
            assert_eq!(iterations, 0);
            // The last valid iterate, bit for bit: never NaN or garbage.
            assert_eq!(x, x0);
            assert!(!val(x[0]).is_nan());
            assert!(!val(x[1]).is_nan());
        },
        other => panic!("expected SingularJacobian, got {:?}", other),
    }
}

#[test]
fn non_convergence_returns_the_stepped_iterate() {
    let sol = run_example((2.0, -1.0), 1e-300, 1).unwrap();
    assert_eq!(sol.status, SolveStatus::NonConvergence);
    assert_eq!(sol.iterations, 1);
    // The returned vector is the single-step-updated iterate, not the guess.
    let x0 = vec![bits(2.0), bits(-1.0)];
    let fx = example_residual(x0.clone());
    let jac = example_jacobian(x0.clone());
    let step = lin_solve_bits(jac, fx).unwrap();
    let expected = vec![sub_bits(x0[0], step[0]), sub_bits(x0[1], step[1])];
    assert_eq!(sol.x, expected);
    assert_ne!(sol.x, x0);
}

#[test]
fn one_dimensional_error_metric() {
    // f(x) = x^2 - 5, df(x) = 2 x, from x0 = 3: the error of every iteration
    // is exactly |x_new - x_old|, and the iterates fall monotonically to
    // the square root of five.
    let residual1 = |x: Vec<u64>| -> Vec<u64> {
        let a = val(x[0]);
        vec![bits(a * a - 5.0)]
    };
    let jacobian1 = |x: Vec<u64>| -> Vec<Vec<u64>> {
        let a = val(x[0]);
        vec![vec![bits(2.0 * a)]]
    };
    let sol = solve(
        residual1,
        jacobian1,
        lin_solve_bits,
        sub_bits,
        inf_norm_bits,
        le_bits,
        positive_bits,
        vec![bits(3.0)],
        SolverConfig { tolerance: bits(1e-12), max_iterations: 20 },
    )
    .unwrap();
    assert_eq!(sol.status, SolveStatus::Converged);

    // Replay the same arithmetic by hand and compare bit for bit.
    let root = 5.0f64.sqrt();
    let mut x = 3.0f64;
    let mut previous_error = f64::INFINITY;
    for rec in sol.history.iter() {
        let fx = x * x - 5.0;
        let dfx = 2.0 * x;
        let step = fx / dfx;
        let x_new = x - step;
        let err = (x_new - x).abs();
        assert_eq!(rec.x[0], bits(x_new));
        assert_eq!(rec.error, bits(err));
        // Monotone descent toward the root from above.
        assert!(x_new < x);
        assert!(x_new >= root);
        assert!(err < previous_error);
        previous_error = err;
        x = x_new;
    }
    assert!((val(sol.x[0]) - root).abs() < 1e-9);
}

#[test]
fn empty_guess_is_invalid_input() {
    let r = solve(
        example_residual,
        example_jacobian,
        lin_solve_bits,
        sub_bits,
        inf_norm_bits,
        le_bits,
        positive_bits,
        Vec::new(),
        SolverConfig { tolerance: bits(1e-9), max_iterations: 20 },
    );
    assert!(matches!(r, Err(SolveError::InvalidInput)));
}

#[test]
fn zero_iteration_budget_is_invalid_input() {
    let r = run_example((2.0, -1.0), 1e-9, 0);
    assert!(matches!(r, Err(SolveError::InvalidInput)));
}

#[test]
fn non_positive_tolerance_is_invalid_input() {
    let zero = run_example((2.0, -1.0), 0.0, 20);
    assert!(matches!(zero, Err(SolveError::InvalidInput)));
    let negative = run_example((2.0, -1.0), -1e-3, 20);
    assert!(matches!(negative, Err(SolveError::InvalidInput)));
}

#[test]
fn default_config_matches_documented_values() {
    let c = SolverConfig::default();
    assert_eq!(c.tolerance, DEFAULT_TOLERANCE);
    assert_eq!(c.tolerance, (1e-3f64).to_bits());
    assert_eq!(c.max_iterations, DEFAULT_MAX_ITERATIONS);
    assert_eq!(c.max_iterations, 10);
}

#[test]
fn default_tolerance_converges_loosely() {
    let sol = run_example((2.0, -1.0), 1e-3, 10).unwrap();
    assert_eq!(sol.status, SolveStatus::Converged);
    assert!(val(sol.error) <= 1e-3);
}

#[test]
fn runs_are_reproducible() {
    // The callbacks are deterministic, so two runs from the same guess give
    // the same history, bit for bit.
    let first = run_example((2.0, -1.0), 1e-9, 20).unwrap();
    let second = run_example((2.0, -1.0), 1e-9, 20).unwrap();
    assert_eq!(first.iterations, second.iterations);
    assert_eq!(first.x, second.x);
    assert_eq!(first.error, second.error);
    for (a, b) in first.history.iter().zip(second.history.iter()) {
        assert_eq!(a.iteration, b.iteration);
        assert_eq!(a.error, b.error);
        assert_eq!(a.x, b.x);
    }
}

#[test]
fn square_shape_check() {
    let square = vec![vec![bits(1.0), bits(2.0)], vec![bits(3.0), bits(4.0)]];
    assert!(is_square(&square, 2));
    assert!(!is_square(&square, 3));
    let ragged = vec![vec![bits(1.0), bits(2.0)], vec![bits(3.0)]];
    assert!(!is_square(&ragged, 2));
}

#[test]
fn clone_bits_copies_exactly() {
    let v = vec![bits(2.0), bits(-1.0), bits(0.5)];
    let c = clone_bits(&v);
    assert_eq!(c, v);
}
