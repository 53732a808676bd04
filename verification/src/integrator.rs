//! The classical fourth-order Runge-Kutta tableau.
//!
//! The integrator advances a state vector by one step `h` in four stages:
//! stage `i` evaluates the derivative at time `t + c_i * h` against a trial
//! state built from the previous stage's slope with weight `a_{i,i-1}`, and
//! the step commits the combination `y + h * (b_0*k1 + b_1*k2 + b_2*k3 +
//! b_3*k4)`. All of the tableau's coefficients are exact multiples of one
//! sixth, so this module states them as integer numerators over
//! [`RK4_SCALE`] and proves, in exact arithmetic, the Butcher order
//! conditions through order four: one step therefore matches the Taylor
//! expansion of the true solution through `h^4`, which is what makes the
//! local truncation error of a step `O(h^5)`.
//!
//! The floating-point stage evaluation itself is the host's: it reads the
//! numerators from [`rk4_weights`], [`rk4_nodes`] and [`rk4_couplings`],
//! divides by the scale in its own arithmetic, and drives the three adapter
//! functions (load the state vector, evaluate the derivative, store a trial
//! vector) that decouple the method from the concrete state type.

use vstd::prelude::*;

verus! {

/// The common denominator of every coefficient in the tableau.
pub const RK4_SCALE: u64 = 6;

/// Numerator over [`RK4_SCALE`] of the weight `b_i` that stage `i`'s slope
/// carries in the final combination: `1/6, 2/6, 2/6, 1/6`.
pub open spec fn rk4_weight(i: int) -> int {
    if i == 0 {
        1
    } else if i == 1 {
        2
    } else if i == 2 {
        2
    } else if i == 3 {
        1
    } else {
        0
    }
}

/// Numerator over [`RK4_SCALE`] of the node `c_i`: stage `i` evaluates the
/// derivative at time `t + c_i * h`, with `c = 0, 1/2, 1/2, 1`.
pub open spec fn rk4_node(i: int) -> int {
    if i == 0 {
        0
    } else if i == 1 {
        3
    } else if i == 2 {
        3
    } else if i == 3 {
        6
    } else {
        0
    }
}

/// Numerator over [`RK4_SCALE`] of the coupling `a_{i,j}`: how much of stage
/// `j`'s slope feeds stage `i`'s trial state. Only the subdiagonal is
/// nonzero: `a_{1,0} = 1/2`, `a_{2,1} = 1/2`, `a_{3,2} = 1`.
pub open spec fn rk4_coupling(i: int, j: int) -> int {
    if i == 1 && j == 0 {
        3
    } else if i == 2 && j == 1 {
        3
    } else if i == 3 && j == 2 {
        6
    } else {
        0
    }
}

/// The weights `b`, as numerators over [`RK4_SCALE`].
pub fn rk4_weights() -> (r: Vec<u64>)
    ensures
        r@.len() == 4,
        forall|i: int| 0 <= i < 4 ==> r@[i] == rk4_weight(i),
{
    let r = vec![1u64, 2u64, 2u64, 1u64];
    r
}

/// The nodes `c`, as numerators over [`RK4_SCALE`].
pub fn rk4_nodes() -> (r: Vec<u64>)
    ensures
        r@.len() == 4,
        forall|i: int| 0 <= i < 4 ==> r@[i] == rk4_node(i),
{
    let r = vec![0u64, 3u64, 3u64, 6u64];
    r
}

/// The nonzero couplings, in stage order: position `i` holds the numerator
/// of `a_{i+1,i}`, the weight with which stage `i`'s slope builds stage
/// `i+1`'s trial state. Together with [`lemma_rk4_is_explicit`] this is the
/// whole coupling matrix.
pub fn rk4_couplings() -> (r: Vec<u64>)
    ensures
        r@.len() == 3,
        forall|i: int| 0 <= i < 3 ==> r@[i] == rk4_coupling(i + 1, i),
{
    let r = vec![3u64, 3u64, 6u64];
    r
}

/// The method is explicit, with each trial state built from the one slope
/// before it: every coupling off the subdiagonal is zero. This is what lets
/// the four stages be evaluated strictly in order, each one overwriting the
/// previous trial state.
pub proof fn lemma_rk4_is_explicit(i: int, j: int)
    ensures
        rk4_coupling(i, j) != 0 ==> j == i - 1,
{
}

/// The sum of `f` over the four stages.
pub open spec fn sum4(f: spec_fn(int) -> int) -> int {
    f(0) + f(1) + f(2) + f(3)
}

/// The Butcher order conditions through order four, in exact arithmetic.
///
/// Each condition is stated with denominators cleared: a condition of
/// polynomial degree `d` is scaled by `RK4_SCALE^(d+1)`, so for example
/// `sum b_i * c_i == 1/2` becomes `sum (6 b_i)(6 c_i) == 36 / 2 == 18`.
/// The eight conditions together say that one step of the method reproduces
/// every Taylor term of the true solution up to and including `h^4`, for any
/// sufficiently smooth derivative; the first unmatched term is of order
/// `h^5`, so the local truncation error of a step of size `h` shrinks as
/// `h^5` and the global error of a fixed-step run as `h^4`.
pub proof fn lemma_rk4_order_conditions()
    ensures
        sum4(|i: int| rk4_weight(i)) == 6,
        sum4(|i: int| rk4_weight(i) * rk4_node(i)) == 18,
        sum4(|i: int| rk4_weight(i) * rk4_node(i) * rk4_node(i)) == 72,
        sum4(
            |i: int| sum4(|j: int| rk4_weight(i) * rk4_coupling(i, j) * rk4_node(j)),
        ) == 36,
        sum4(|i: int| rk4_weight(i) * rk4_node(i) * rk4_node(i) * rk4_node(i)) == 324,
        sum4(
            |i: int|
                sum4(|j: int| rk4_weight(i) * rk4_node(i) * rk4_coupling(i, j) * rk4_node(j)),
        ) == 162,
        sum4(
            |i: int|
                sum4(|j: int| rk4_weight(i) * rk4_coupling(i, j) * rk4_node(j) * rk4_node(j)),
        ) == 108,
        sum4(
            |i: int|
                sum4(
                    |j: int|
                        sum4(
                            |k: int|
                                rk4_weight(i) * rk4_coupling(i, j) * rk4_coupling(j, k)
                                    * rk4_node(k),
                        ),
                ),
        ) == 54,
{
}

} // verus!
