//! Newton–Raphson iteration for vector-valued root finding.
//!
//! The solver drives the fixed-point iteration `x_{k+1} = x_k - J(x_k)^{-1} f(x_k)`
//! until the infinity-norm of the difference between successive iterates falls
//! under a tolerance, the iteration budget runs out, or the Jacobian turns out
//! singular. Scalars are opaque 64-bit words (for instance the bit pattern of a
//! double-precision float); the solver never interprets them. The residual, the
//! Jacobian, the linear solve and the scalar arithmetic all come from the caller,
//! and the contracts relate every result the solver returns to the behaviour of
//! those callbacks.

pub mod solver;
