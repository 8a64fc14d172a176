//! The iterative solver: configuration, outcome types, and the `solve` loop.

use vstd::prelude::*;

verus! {

/// Default tolerance: the 64-bit word a caller working with IEEE 754 doubles
/// would pass for one thousandth (the usual loose stopping threshold).
pub const DEFAULT_TOLERANCE: u64 = 0x3F50624DD2F1A9FC;

/// Default iteration budget.
pub const DEFAULT_MAX_ITERATIONS: u32 = 10;

/// Convergence configuration. `tolerance` is an opaque scalar word that the
/// solver only ever hands to the caller's comparison and positivity callbacks;
/// `max_iterations` bounds how many update steps may run.
#[derive(Clone, Copy, Debug, PartialEq, Eq, Structural)]
pub struct SolverConfig {
    pub tolerance: u64,
    pub max_iterations: u32,
}

impl Default for SolverConfig {
    /// The documented defaults: tolerance of one thousandth (as an IEEE 754
    /// double's bit pattern) and a budget of ten iterations.
    fn default() -> (c: SolverConfig)
        ensures
            c.tolerance == DEFAULT_TOLERANCE,
            c.max_iterations == DEFAULT_MAX_ITERATIONS,
    {
        SolverConfig { tolerance: DEFAULT_TOLERANCE, max_iterations: DEFAULT_MAX_ITERATIONS }
    }
}

/// How a completed solve ended: the final step shrank under the tolerance, or
/// the iteration budget ran out first. The two must never be conflated.
#[derive(Clone, Copy, Debug, PartialEq, Eq, Structural)]
pub enum SolveStatus {
    Converged,
    NonConvergence,
}

/// One diagnostic record per completed iteration: the 1-based iteration index,
/// the error (infinity-norm of the difference between successive iterates) and
/// the iterate produced by that step. Purely observational.
#[derive(Clone, Debug)]
pub struct IterationRecord {
    pub iteration: u32,
    pub error: u64,
    pub x: Vec<u64>,
}

/// A completed solve: the final iterate, how many update steps ran, the error
/// measured at the last step, the status flag, and the per-iteration history.
#[derive(Clone, Debug)]
pub struct Solution {
    pub x: Vec<u64>,
    pub iterations: u32,
    pub error: u64,
    pub status: SolveStatus,
    pub history: Vec<IterationRecord>,
}

/// The two fatal outcomes. `InvalidInput` is a caller bug caught before work is
/// wasted: an empty initial guess, a zero iteration budget, a non-positive
/// tolerance, or a residual/Jacobian/step of the wrong shape. `SingularJacobian`
/// is a runtime condition: the linear solve refused the Jacobian at some
/// iterate; it carries the last valid iterate and the number of completed steps.
#[derive(Clone, Debug, PartialEq)]
pub enum SolveError {
    InvalidInput,
    SingularJacobian { x: Vec<u64>, iterations: u32 },
}

/// An `n` by `n` matrix, stored as `n` rows of length `n`.
pub open spec fn square_shape(jac: Seq<Vec<u64>>, n: nat) -> bool {
    &&& jac.len() == n
    &&& forall|i: int| 0 <= i < jac.len() ==> (#[trigger] jac[i])@.len() == n
}

/// The iterate that step `i` of a history started from: the initial guess for
/// the first step, and the previous step's output after that.
pub open spec fn prev_iterate(x0: Seq<u64>, history: Seq<IterationRecord>, i: int) -> Seq<u64> {
    if i == 0 {
        x0
    } else {
        history[i - 1].x@
    }
}

/// The intermediate values of one Newton step from `x_prev` to `x_next`:
/// `xa` and `xb` are the copies of `x_prev` handed to the residual and the
/// Jacobian, `fx` and `jac` their outputs, `step` the solution of the linear
/// system, and `diff` the element-wise difference between the new and the old
/// iterate, whose norm is the reported `error`.
pub open spec fn step_witness<FR, FJ, FL, FS, FN>(
    residual: FR,
    jacobian: FJ,
    linear_solve: FL,
    subtract: FS,
    inf_norm: FN,
    n: nat,
    x_prev: Seq<u64>,
    x_next: Seq<u64>,
    error: u64,
    xa: Vec<u64>,
    fx: Vec<u64>,
    xb: Vec<u64>,
    jac: Vec<Vec<u64>>,
    step: Vec<u64>,
    diff: Vec<u64>,
) -> bool where
    FR: Fn(Vec<u64>) -> Vec<u64>,
    FJ: Fn(Vec<u64>) -> Vec<Vec<u64>>,
    FL: Fn(Vec<Vec<u64>>, Vec<u64>) -> Option<Vec<u64>>,
    FS: Fn(u64, u64) -> u64,
    FN: Fn(Vec<u64>) -> u64,
{
    &&& xa@ == x_prev
    &&& xb@ == x_prev
    &&& call_ensures(residual, (xa,), fx)
    &&& fx@.len() == n
    &&& call_ensures(jacobian, (xb,), jac)
    &&& square_shape(jac@, n)
    &&& call_ensures(linear_solve, (jac, fx), Some(step))
    &&& step@.len() == n
    &&& x_next.len() == n
    &&& (forall|i: int| 0 <= i < n ==> call_ensures(subtract, (x_prev[i], step@[i]), #[trigger] x_next[i]))
    &&& diff@.len() == n
    &&& (forall|i: int| 0 <= i < n ==> call_ensures(subtract, (x_next[i], x_prev[i]), #[trigger] diff@[i]))
    &&& call_ensures(inf_norm, (diff,), error)
}

/// One Newton step from `x_prev` to `x_next` with reported error `error` is
/// accounted for by the callbacks: some run of the residual, the Jacobian and
/// the linear solve at `x_prev` produced a step of the right shape, `x_next`
/// is the element-wise subtraction of that step from `x_prev`, and `error` is
/// the norm of the element-wise difference between `x_next` and `x_prev`.
pub open spec fn step_ok<FR, FJ, FL, FS, FN>(
    residual: FR,
    jacobian: FJ,
    linear_solve: FL,
    subtract: FS,
    inf_norm: FN,
    n: nat,
    x_prev: Seq<u64>,
    x_next: Seq<u64>,
    error: u64,
) -> bool where
    FR: Fn(Vec<u64>) -> Vec<u64>,
    FJ: Fn(Vec<u64>) -> Vec<Vec<u64>>,
    FL: Fn(Vec<Vec<u64>>, Vec<u64>) -> Option<Vec<u64>>,
    FS: Fn(u64, u64) -> u64,
    FN: Fn(Vec<u64>) -> u64,
{
    exists|xa: Vec<u64>, fx: Vec<u64>, xb: Vec<u64>, jac: Vec<Vec<u64>>, step: Vec<u64>, diff: Vec<u64>|
        #[trigger] step_witness(
            residual,
            jacobian,
            linear_solve,
            subtract,
            inf_norm,
            n,
            x_prev,
            x_next,
            error,
            xa,
            fx,
            xb,
            jac,
            step,
            diff,
        )
}

/// Every record of a history is a Newton step from the iterate the record
/// before it produced (from `x0` for the first record).
pub open spec fn chain_ok<FR, FJ, FL, FS, FN>(
    residual: FR,
    jacobian: FJ,
    linear_solve: FL,
    subtract: FS,
    inf_norm: FN,
    n: nat,
    x0: Seq<u64>,
    history: Seq<IterationRecord>,
) -> bool where
    FR: Fn(Vec<u64>) -> Vec<u64>,
    FJ: Fn(Vec<u64>) -> Vec<Vec<u64>>,
    FL: Fn(Vec<Vec<u64>>, Vec<u64>) -> Option<Vec<u64>>,
    FS: Fn(u64, u64) -> u64,
    FN: Fn(Vec<u64>) -> u64,
{
    forall|i: int| 0 <= i < history.len() ==> step_ok(
        residual,
        jacobian,
        linear_solve,
        subtract,
        inf_norm,
        n,
        prev_iterate(x0, history, i),
        (#[trigger] history[i]).x@,
        history[i].error,
    )
}

/// The records of a history carry the iteration indices 1, 2, 3, ... in order.
pub open spec fn numbered(history: Seq<IterationRecord>) -> bool {
    forall|i: int| 0 <= i < history.len() ==> (#[trigger] history[i]).iteration == i + 1
}

/// The comparison callback judged every error of the history to exceed the
/// tolerance: each of these steps left the loop running.
pub open spec fn none_within<FC>(le: FC, tolerance: u64, history: Seq<IterationRecord>) -> bool
    where FC: Fn(u64, u64) -> bool,
{
    forall|i: int| 0 <= i < history.len() ==> call_ensures(
        le,
        ((#[trigger] history[i]).error, tolerance),
        false,
    )
}

/// The residual callback can return a vector of the wrong length on some input
/// of the right length.
pub open spec fn residual_shape_violation<FR>(residual: FR, n: nat) -> bool
    where FR: Fn(Vec<u64>) -> Vec<u64>,
{
    exists|xa: Vec<u64>, fx: Vec<u64>|
        #![trigger call_ensures(residual, (xa,), fx)]
        {
            &&& xa@.len() == n
            &&& call_ensures(residual, (xa,), fx)
            &&& fx@.len() != n
        }
}

/// The Jacobian callback can return a matrix that is not `n` by `n` on some
/// input of the right length.
pub open spec fn jacobian_shape_violation<FJ>(jacobian: FJ, n: nat) -> bool
    where FJ: Fn(Vec<u64>) -> Vec<Vec<u64>>,
{
    exists|xb: Vec<u64>, jac: Vec<Vec<u64>>|
        #![trigger call_ensures(jacobian, (xb,), jac)]
        {
            &&& xb@.len() == n
            &&& call_ensures(jacobian, (xb,), jac)
            &&& !square_shape(jac@, n)
        }
}

/// The linear-solve callback can return a step of the wrong length on some
/// well-shaped system.
pub open spec fn step_shape_violation<FL>(linear_solve: FL, n: nat) -> bool
    where FL: Fn(Vec<Vec<u64>>, Vec<u64>) -> Option<Vec<u64>>,
{
    exists|jac: Vec<Vec<u64>>, fx: Vec<u64>, step: Vec<u64>|
        #![trigger call_ensures(linear_solve, (jac, fx), Some(step))]
        {
            &&& square_shape(jac@, n)
            &&& fx@.len() == n
            &&& call_ensures(linear_solve, (jac, fx), Some(step))
            &&& step@.len() != n
        }
}

/// At the iterate `x`, some run of the residual and the Jacobian produced a
/// well-shaped system that the linear solve refused as singular.
pub open spec fn singular_at<FR, FJ, FL>(
    residual: FR,
    jacobian: FJ,
    linear_solve: FL,
    n: nat,
    x: Seq<u64>,
) -> bool where
    FR: Fn(Vec<u64>) -> Vec<u64>,
    FJ: Fn(Vec<u64>) -> Vec<Vec<u64>>,
    FL: Fn(Vec<Vec<u64>>, Vec<u64>) -> Option<Vec<u64>>,
{
    exists|xa: Vec<u64>, fx: Vec<u64>, xb: Vec<u64>, jac: Vec<Vec<u64>>|
        #![trigger call_ensures(residual, (xa,), fx), call_ensures(jacobian, (xb,), jac), call_ensures(linear_solve, (jac, fx), None::<Vec<u64>>)]
        {
            &&& xa@ == x
            &&& xb@ == x
            &&& call_ensures(residual, (xa,), fx)
            &&& fx@.len() == n
            &&& call_ensures(jacobian, (xb,), jac)
            &&& square_shape(jac@, n)
            &&& call_ensures(linear_solve, (jac, fx), None::<Vec<u64>>)
        }
}

/// Everything a completed solve promises. The history is a chain of Newton
/// steps from the initial guess, numbered from one; the final iterate and
/// error are the last record's; every step but the last failed the tolerance
/// test; a `Converged` flag means the comparison accepted the last error, and
/// a `NonConvergence` flag means it rejected it with the budget exhausted.
pub open spec fn solution_ok<FR, FJ, FL, FS, FN, FC>(
    residual: FR,
    jacobian: FJ,
    linear_solve: FL,
    subtract: FS,
    inf_norm: FN,
    le: FC,
    x0: Seq<u64>,
    config: SolverConfig,
    sol: Solution,
) -> bool where
    FR: Fn(Vec<u64>) -> Vec<u64>,
    FJ: Fn(Vec<u64>) -> Vec<Vec<u64>>,
    FL: Fn(Vec<Vec<u64>>, Vec<u64>) -> Option<Vec<u64>>,
    FS: Fn(u64, u64) -> u64,
    FN: Fn(Vec<u64>) -> u64,
    FC: Fn(u64, u64) -> bool,
{
    let h = sol.history@;
    &&& 1 <= sol.iterations <= config.max_iterations
    &&& h.len() == sol.iterations
    &&& numbered(h)
    &&& chain_ok(residual, jacobian, linear_solve, subtract, inf_norm, x0.len(), x0, h)
    &&& sol.x@ == h.last().x@
    &&& sol.x@.len() == x0.len()
    &&& sol.error == h.last().error
    &&& none_within(le, config.tolerance, h.drop_last())
    &&& (sol.status == SolveStatus::Converged ==> call_ensures(
        le,
        (sol.error, config.tolerance),
        true,
    ))
    &&& (sol.status == SolveStatus::NonConvergence ==> {
        &&& call_ensures(le, (sol.error, config.tolerance), false)
        &&& sol.iterations == config.max_iterations
    })
}

/// Everything a `SingularJacobian` report promises: fewer completed steps than
/// the budget, a history of that many chained steps, all rejected by the
/// tolerance test, whose final iterate is the reported `x`, and a singular
/// system produced at `x`.
pub open spec fn singular_report_ok<FR, FJ, FL, FS, FN, FC>(
    residual: FR,
    jacobian: FJ,
    linear_solve: FL,
    subtract: FS,
    inf_norm: FN,
    le: FC,
    x0: Seq<u64>,
    config: SolverConfig,
    x: Seq<u64>,
    iterations: u32,
) -> bool where
    FR: Fn(Vec<u64>) -> Vec<u64>,
    FJ: Fn(Vec<u64>) -> Vec<Vec<u64>>,
    FL: Fn(Vec<Vec<u64>>, Vec<u64>) -> Option<Vec<u64>>,
    FS: Fn(u64, u64) -> u64,
    FN: Fn(Vec<u64>) -> u64,
    FC: Fn(u64, u64) -> bool,
{
    &&& iterations < config.max_iterations
    &&& x.len() == x0.len()
    &&& (exists|h: Seq<IterationRecord>|
        #![trigger chain_ok(residual, jacobian, linear_solve, subtract, inf_norm, x0.len(), x0, h)]
        {
            &&& h.len() == iterations
            &&& chain_ok(residual, jacobian, linear_solve, subtract, inf_norm, x0.len(), x0, h)
            &&& numbered(h)
            &&& none_within(le, config.tolerance, h)
            &&& x == prev_iterate(x0, h, iterations as int)
        })
    &&& singular_at(residual, jacobian, linear_solve, x0.len(), x)
}

/// The residual callback is a function of its argument's contents: equal
/// vectors can only produce equal outputs.
pub open spec fn deterministic_residual<FR>(residual: FR) -> bool
    where FR: Fn(Vec<u64>) -> Vec<u64>,
{
    forall|x1: Vec<u64>, x2: Vec<u64>, r1: Vec<u64>, r2: Vec<u64>|
        x1@ == x2@ && #[trigger] call_ensures(residual, (x1,), r1) && #[trigger] call_ensures(
            residual,
            (x2,),
            r2,
        ) ==> r1@ == r2@
}

/// The Jacobian callback is a function of its argument's contents.
pub open spec fn deterministic_jacobian<FJ>(jacobian: FJ) -> bool
    where FJ: Fn(Vec<u64>) -> Vec<Vec<u64>>,
{
    forall|x1: Vec<u64>, x2: Vec<u64>, j1: Vec<Vec<u64>>, j2: Vec<Vec<u64>>|
        x1@ == x2@ && #[trigger] call_ensures(jacobian, (x1,), j1) && #[trigger] call_ensures(
            jacobian,
            (x2,),
            j2,
        ) ==> j1.deep_view() == j2.deep_view()
}

/// Whenever the linear solve returns a step, that step is a function of the
/// system's contents: equal matrices and right-hand sides give equal steps.
pub open spec fn deterministic_linear_solve<FL>(linear_solve: FL) -> bool
    where FL: Fn(Vec<Vec<u64>>, Vec<u64>) -> Option<Vec<u64>>,
{
    forall|j1: Vec<Vec<u64>>, f1: Vec<u64>, s1: Vec<u64>, j2: Vec<Vec<u64>>, f2: Vec<u64>, s2: Vec<u64>|
        j1.deep_view() == j2.deep_view() && f1@ == f2@ && #[trigger] call_ensures(
            linear_solve,
            (j1, f1),
            Some(s1),
        ) && #[trigger] call_ensures(linear_solve, (j2, f2), Some(s2)) ==> s1@ == s2@
}

/// The scalar subtraction is a function of its two arguments.
pub open spec fn deterministic_subtract<FS>(subtract: FS) -> bool
    where FS: Fn(u64, u64) -> u64,
{
    forall|a: u64, b: u64, r1: u64, r2: u64|
        #[trigger] call_ensures(subtract, (a, b), r1) && #[trigger] call_ensures(
            subtract,
            (a, b),
            r2,
        ) ==> r1 == r2
}

/// The norm is a function of its argument's contents.
pub open spec fn deterministic_inf_norm<FN>(inf_norm: FN) -> bool
    where FN: Fn(Vec<u64>) -> u64,
{
    forall|d1: Vec<u64>, d2: Vec<u64>, e1: u64, e2: u64|
        d1@ == d2@ && #[trigger] call_ensures(inf_norm, (d1,), e1) && #[trigger] call_ensures(
            inf_norm,
            (d2,),
            e2,
        ) ==> e1 == e2
}

/// When the callbacks are deterministic, a Newton step is a function of the
/// iterate it starts from: two accounted-for steps from the same `x_prev`
/// produce the same iterate and report the same error.
pub proof fn lemma_step_deterministic<FR, FJ, FL, FS, FN>(
    residual: FR,
    jacobian: FJ,
    linear_solve: FL,
    subtract: FS,
    inf_norm: FN,
    n: nat,
    x_prev: Seq<u64>,
    x1: Seq<u64>,
    e1: u64,
    x2: Seq<u64>,
    e2: u64,
) where
    FR: Fn(Vec<u64>) -> Vec<u64>,
    FJ: Fn(Vec<u64>) -> Vec<Vec<u64>>,
    FL: Fn(Vec<Vec<u64>>, Vec<u64>) -> Option<Vec<u64>>,
    FS: Fn(u64, u64) -> u64,
    FN: Fn(Vec<u64>) -> u64,

    requires
        deterministic_residual(residual),
        deterministic_jacobian(jacobian),
        deterministic_linear_solve(linear_solve),
        deterministic_subtract(subtract),
        deterministic_inf_norm(inf_norm),
        step_ok(residual, jacobian, linear_solve, subtract, inf_norm, n, x_prev, x1, e1),
        step_ok(residual, jacobian, linear_solve, subtract, inf_norm, n, x_prev, x2, e2),
    ensures
        x1 == x2,
        e1 == e2,
{
    let (xa1, fx1, xb1, jac1, step1, diff1) = choose|xa: Vec<u64>, fx: Vec<u64>, xb: Vec<u64>, jac: Vec<Vec<u64>>, step: Vec<u64>, diff: Vec<u64>|
        #[trigger] step_witness(
            residual,
            jacobian,
            linear_solve,
            subtract,
            inf_norm,
            n,
            x_prev,
            x1,
            e1,
            xa,
            fx,
            xb,
            jac,
            step,
            diff,
        );
    let (xa2, fx2, xb2, jac2, step2, diff2) = choose|xa: Vec<u64>, fx: Vec<u64>, xb: Vec<u64>, jac: Vec<Vec<u64>>, step: Vec<u64>, diff: Vec<u64>|
        #[trigger] step_witness(
            residual,
            jacobian,
            linear_solve,
            subtract,
            inf_norm,
            n,
            x_prev,
            x2,
            e2,
            xa,
            fx,
            xb,
            jac,
            step,
            diff,
        );
    assert(fx1@ == fx2@);
    assert(jac1.deep_view() == jac2.deep_view());
    assert(step1@ == step2@);
    assert forall|i: int| 0 <= i < n implies x1[i] == x2[i] by {
        assert(call_ensures(subtract, (x_prev[i], step1@[i]), x1[i]));
        assert(call_ensures(subtract, (x_prev[i], step2@[i]), x2[i]));
    }
    assert(x1 =~= x2);
    assert forall|i: int| 0 <= i < n implies diff1@[i] == diff2@[i] by {
        assert(call_ensures(subtract, (x1[i], x_prev[i]), diff1@[i]));
        assert(call_ensures(subtract, (x2[i], x_prev[i]), diff2@[i]));
    }
    assert(diff1@ =~= diff2@);
}

proof fn lemma_prefix_deterministic<FR, FJ, FL, FS, FN>(
    residual: FR,
    jacobian: FJ,
    linear_solve: FL,
    subtract: FS,
    inf_norm: FN,
    n: nat,
    x0: Seq<u64>,
    h1: Seq<IterationRecord>,
    h2: Seq<IterationRecord>,
    i: int,
) where
    FR: Fn(Vec<u64>) -> Vec<u64>,
    FJ: Fn(Vec<u64>) -> Vec<Vec<u64>>,
    FL: Fn(Vec<Vec<u64>>, Vec<u64>) -> Option<Vec<u64>>,
    FS: Fn(u64, u64) -> u64,
    FN: Fn(Vec<u64>) -> u64,

    requires
        deterministic_residual(residual),
        deterministic_jacobian(jacobian),
        deterministic_linear_solve(linear_solve),
        deterministic_subtract(subtract),
        deterministic_inf_norm(inf_norm),
        chain_ok(residual, jacobian, linear_solve, subtract, inf_norm, n, x0, h1),
        chain_ok(residual, jacobian, linear_solve, subtract, inf_norm, n, x0, h2),
        h1.len() == h2.len(),
        0 <= i < h1.len(),
    ensures
        h1[i].x@ == h2[i].x@,
        h1[i].error == h2[i].error,
    decreases i,
{
    if i > 0 {
        lemma_prefix_deterministic(
            residual,
            jacobian,
            linear_solve,
            subtract,
            inf_norm,
            n,
            x0,
            h1,
            h2,
            i - 1,
        );
    }
    assert(prev_iterate(x0, h1, i) == prev_iterate(x0, h2, i));
    lemma_step_deterministic(
        residual,
        jacobian,
        linear_solve,
        subtract,
        inf_norm,
        n,
        prev_iterate(x0, h1, i),
        h1[i].x@,
        h1[i].error,
        h2[i].x@,
        h2[i].error,
    );
}

/// Reproducibility: when the callbacks are deterministic — each a function of
/// its arguments' contents, as a side-effect-free residual and Jacobian and an
/// ordinary arithmetic are — the whole iteration history is a function of the
/// initial guess: two accounted-for histories of the same length from the same
/// guess carry the same iterates and the same errors, step by step.
pub proof fn lemma_history_reproducible<FR, FJ, FL, FS, FN>(
    residual: FR,
    jacobian: FJ,
    linear_solve: FL,
    subtract: FS,
    inf_norm: FN,
    n: nat,
    x0: Seq<u64>,
    h1: Seq<IterationRecord>,
    h2: Seq<IterationRecord>,
) where
    FR: Fn(Vec<u64>) -> Vec<u64>,
    FJ: Fn(Vec<u64>) -> Vec<Vec<u64>>,
    FL: Fn(Vec<Vec<u64>>, Vec<u64>) -> Option<Vec<u64>>,
    FS: Fn(u64, u64) -> u64,
    FN: Fn(Vec<u64>) -> u64,

    requires
        deterministic_residual(residual),
        deterministic_jacobian(jacobian),
        deterministic_linear_solve(linear_solve),
        deterministic_subtract(subtract),
        deterministic_inf_norm(inf_norm),
        chain_ok(residual, jacobian, linear_solve, subtract, inf_norm, n, x0, h1),
        chain_ok(residual, jacobian, linear_solve, subtract, inf_norm, n, x0, h2),
        h1.len() == h2.len(),
    ensures
        forall|i: int| 0 <= i < h1.len() ==> (#[trigger] h1[i]).x@ == h2[i].x@ && h1[i].error
            == h2[i].error,
{
    assert forall|i: int| 0 <= i < h1.len() implies (#[trigger] h1[i]).x@ == h2[i].x@
        && h1[i].error == h2[i].error by {
        lemma_prefix_deterministic(
            residual,
            jacobian,
            linear_solve,
            subtract,
            inf_norm,
            n,
            x0,
            h1,
            h2,
            i,
        );
    }
}

/// An exact copy of a vector of scalar words.
pub fn clone_bits(v: &Vec<u64>) -> (r: Vec<u64>)
    ensures
        r@ == v@,
{
    let mut r: Vec<u64> = Vec::new();
    let mut i: usize = 0;
    while i < v.len()
        invariant
            i <= v@.len(),
            r@ == v@.subrange(0, i as int),
        decreases v@.len() - i,
    {
        r.push(v[i]);
        i += 1;
    }
    proof {
        assert(v@.subrange(0, v@.len() as int) =~= v@);
    }
    r
}

/// Whether `jac` is an `n` by `n` matrix.
pub fn is_square(jac: &Vec<Vec<u64>>, n: usize) -> (ok: bool)
    ensures
        ok == square_shape(jac@, n as nat),
{
    if jac.len() != n {
        return false;
    }
    let mut i: usize = 0;
    while i < n
        invariant
            jac@.len() == n,
            i <= n,
            forall|j: int| 0 <= j < i ==> (#[trigger] jac@[j])@.len() == n,
        decreases n - i,
    {
        if jac[i].len() != n {
            return false;
        }
        i += 1;
    }
    true
}

/// Drive the Newton–Raphson iteration `x_{k+1} = x_k - J(x_k)^{-1} f(x_k)`
/// from the initial guess `x0` until the error — the infinity-norm of the
/// difference between successive iterates, not the residual norm — falls under
/// `config.tolerance`, the budget of `config.max_iterations` runs out, or the
/// linear solve reports a singular Jacobian.
///
/// The callbacks carry the arithmetic the solver itself cannot interpret:
/// `residual` is `f`, `jacobian` is its derivative `df`, `linear_solve` turns
/// a Jacobian and a residual into the Newton step (returning `None` when the
/// matrix is singular), `subtract` subtracts two scalars, `inf_norm` takes the
/// largest absolute value of a vector's entries, `le` compares two scalars,
/// and `positive` tests whether the tolerance is a positive value.
///
/// An empty guess, a zero budget, a tolerance the caller's own test rejects,
/// or a residual, Jacobian or step of the wrong shape is `InvalidInput`; a
/// refused linear solve is `SingularJacobian` with the last valid iterate and
/// the count of completed steps. Otherwise the result carries the final
/// iterate, the step count, the last error, the `Converged` or
/// `NonConvergence` flag, and one diagnostic record per iteration.
#[verifier::loop_isolation(false)]
#[verifier::rlimit(60)]
pub fn solve<FR, FJ, FL, FS, FN, FC, FP>(
    residual: FR,
    jacobian: FJ,
    linear_solve: FL,
    subtract: FS,
    inf_norm: FN,
    le: FC,
    positive: FP,
    x0: Vec<u64>,
    config: SolverConfig,
) -> (result: Result<Solution, SolveError>) where
    FR: Fn(Vec<u64>) -> Vec<u64>,
    FJ: Fn(Vec<u64>) -> Vec<Vec<u64>>,
    FL: Fn(Vec<Vec<u64>>, Vec<u64>) -> Option<Vec<u64>>,
    FS: Fn(u64, u64) -> u64,
    FN: Fn(Vec<u64>) -> u64,
    FC: Fn(u64, u64) -> bool,
    FP: Fn(u64) -> bool,

    requires
        forall|xa: Vec<u64>| xa@.len() == x0@.len() ==> call_requires(residual, (xa,)),
        forall|xb: Vec<u64>| xb@.len() == x0@.len() ==> call_requires(jacobian, (xb,)),
        forall|jac: Vec<Vec<u64>>, fx: Vec<u64>|
            square_shape(jac@, x0@.len()) && fx@.len() == x0@.len() ==> call_requires(
                linear_solve,
                (jac, fx),
            ),
        forall|a: u64, b: u64| call_requires(subtract, (a, b)),
        forall|d: Vec<u64>| d@.len() == x0@.len() ==> call_requires(inf_norm, (d,)),
        forall|a: u64, b: u64| call_requires(le, (a, b)),
        call_requires(positive, (config.tolerance,)),
    ensures
        (x0@.len() == 0 ==> result matches Err(SolveError::InvalidInput)),
        (config.max_iterations == 0 ==> result matches Err(SolveError::InvalidInput)),
        (result matches Err(SolveError::InvalidInput) ==> {
            ||| x0@.len() == 0
            ||| config.max_iterations == 0
            ||| call_ensures(positive, (config.tolerance,), false)
            ||| residual_shape_violation(residual, x0@.len())
            ||| jacobian_shape_violation(jacobian, x0@.len())
            ||| step_shape_violation(linear_solve, x0@.len())
        }),
        (result matches Ok(sol) ==> solution_ok(
            residual,
            jacobian,
            linear_solve,
            subtract,
            inf_norm,
            le,
            x0@,
            config,
            sol,
        )),
        (result matches Err(SolveError::SingularJacobian { x, iterations }) ==> singular_report_ok(
            residual,
            jacobian,
            linear_solve,
            subtract,
            inf_norm,
            le,
            x0@,
            config,
            x@,
            iterations,
        )),
{
    let n: usize = x0.len();
    if n == 0 || config.max_iterations == 0 {
        return Err(SolveError::InvalidInput);
    }
    if !positive(config.tolerance) {
        return Err(SolveError::InvalidInput);
    }

    let mut x: Vec<u64> = clone_bits(&x0);
    let mut history: Vec<IterationRecord> = Vec::new();
    let mut iteration: u32 = 0;

    loop
        invariant
            iteration < config.max_iterations,
            iteration as int == history@.len(),
            x@.len() == n,
            x@ == prev_iterate(x0@, history@, iteration as int),
            chain_ok(residual, jacobian, linear_solve, subtract, inf_norm, n as nat, x0@, history@),
            numbered(history@),
            none_within(le, config.tolerance, history@),
        decreases config.max_iterations - iteration,
    {
        let ghost x_prev = x@;
        let ghost h_old = history@;

        let xa = clone_bits(&x);
        let ghost xa_g = xa;
        let fx = residual(xa);
        if fx.len() != n {
            proof {
                assert(call_ensures(residual, (xa_g,), fx));
            }
            return Err(SolveError::InvalidInput);
        }
        let ghost fx_g = fx;

        let xb = clone_bits(&x);
        let ghost xb_g = xb;
        let jac = jacobian(xb);
        if !is_square(&jac, n) {
            proof {
                assert(call_ensures(jacobian, (xb_g,), jac));
            }
            return Err(SolveError::InvalidInput);
        }
        let ghost jac_g = jac;

        let solved = linear_solve(jac, fx);
        let ghost solved_g = solved;
        match solved {
            None => {
                proof {
                    assert(call_ensures(linear_solve, (jac_g, fx_g), None::<Vec<u64>>));
                    assert(singular_at(residual, jacobian, linear_solve, n as nat, x@));
                }
                return Err(SolveError::SingularJacobian { x, iterations: iteration });
            },
            Some(step) => {
                let ghost step_g = step;
                proof {
                    assert(solved_g == Some(step_g));
                    assert(call_ensures(linear_solve, (jac_g, fx_g), Some(step_g)));
                }
                if step.len() != n {
                    return Err(SolveError::InvalidInput);
                }

                let mut x_new: Vec<u64> = Vec::new();
                let mut i: usize = 0;
                while i < n
                    invariant
                        i <= n,
                        x_new@.len() == i as int,
                        forall|j: int| 0 <= j < i ==> call_ensures(
                            subtract,
                            (x@[j], step@[j]),
                            #[trigger] x_new@[j],
                        ),
                    decreases n - i,
                {
                    let w: u64 = subtract(x[i], step[i]);
                    x_new.push(w);
                    i += 1;
                }

                let mut diff: Vec<u64> = Vec::new();
                let mut k: usize = 0;
                while k < n
                    invariant
                        k <= n,
                        x_new@.len() == n,
                        diff@.len() == k as int,
                        forall|j: int| 0 <= j < k ==> call_ensures(
                            subtract,
                            (x_new@[j], x@[j]),
                            #[trigger] diff@[j],
                        ),
                    decreases n - k,
                {
                    let w: u64 = subtract(x_new[k], x[k]);
                    diff.push(w);
                    k += 1;
                }
                let ghost diff_g = diff;
                let error: u64 = inf_norm(diff);

                let next_iteration: u32 = iteration + 1;
                let record = IterationRecord {
                    iteration: next_iteration,
                    error,
                    x: clone_bits(&x_new),
                };
                let ghost record_g = record;
                history.push(record);
                x = x_new;
                iteration = next_iteration;

                proof {
                    let h_new = history@;
                    assert(h_new == h_old.push(record_g));
                    assert(step_ok(
                        residual,
                        jacobian,
                        linear_solve,
                        subtract,
                        inf_norm,
                        n as nat,
                        x_prev,
                        record_g.x@,
                        error,
                    )) by {
                        assert(record_g.x@ == x@);
                        assert(step_witness(
                            residual,
                            jacobian,
                            linear_solve,
                            subtract,
                            inf_norm,
                            n as nat,
                            x_prev,
                            record_g.x@,
                            error,
                            xa_g,
                            fx_g,
                            xb_g,
                            jac_g,
                            step_g,
                            diff_g,
                        ));
                    }
                    assert forall|i2: int| 0 <= i2 < h_new.len() implies step_ok(
                        residual,
                        jacobian,
                        linear_solve,
                        subtract,
                        inf_norm,
                        n as nat,
                        prev_iterate(x0@, h_new, i2),
                        (#[trigger] h_new[i2]).x@,
                        h_new[i2].error,
                    ) by {
                        if i2 < h_new.len() - 1 {
                            assert(h_new[i2] == h_old[i2]);
                            assert(prev_iterate(x0@, h_new, i2) == prev_iterate(x0@, h_old, i2));
                        } else {
                            assert(prev_iterate(x0@, h_new, i2) == x_prev);
                        }
                    }
                }

                let within = le(error, config.tolerance);
                if within {
                    proof {
                        assert(history@.drop_last() =~= h_old);
                    }
                    return Ok(Solution {
                        x,
                        iterations: iteration,
                        error,
                        status: SolveStatus::Converged,
                        history,
                    });
                }
                if iteration == config.max_iterations {
                    proof {
                        assert(history@.drop_last() =~= h_old);
                    }
                    return Ok(Solution {
                        x,
                        iterations: iteration,
                        error,
                        status: SolveStatus::NonConvergence,
                        history,
                    });
                }
            },
        }
    }
}

} // verus!
