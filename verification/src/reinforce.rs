//! The REINFORCE trainer.
//!
//! When an episode ends the trainer computes each timestep's discounted
//! return by the reverse recurrence, re-runs the forward pass on each stored
//! state, derives the analytic per-timestep gradient of the realized action
//! probability through the sigmoid chain rule, sums every contribution into
//! the gradient accumulator, and applies the accumulated sum to the policy
//! parameters once, at the episode boundary.
//!
//! Every arithmetic step is checked: if any intermediate value leaves `i64`
//! the pass is discarded — trajectory cleared, accumulator zeroed, policy
//! parameters untouched — and play resumes.

use vstd::prelude::*;

use crate::config::Hyperparams;
use crate::config::ReinforceError;
use crate::fixed::fx_add;
use crate::fixed::fx_mul;
use crate::fixed::fx_mul_v;
use crate::fixed::fx_neg;
use crate::fixed::in_i64;
use crate::fixed::s2i;
use crate::fixed::FX_ONE;
use crate::network::forward;
use crate::network::forward_ok;
use crate::network::hidden1_v;
use crate::network::hidden2_v;
use crate::network::mat_v;
use crate::network::mat_wf;
use crate::network::output_v;
use crate::network::GParams;
use crate::network::Network;
use crate::network::NPCInput;
use crate::network::StateVec;
use crate::trajectory::EpochData;

verus! {

/// The gradient accumulator: one slot per policy parameter.  It is zeroed at
/// the start of each training pass, summed over every timestep, applied to
/// the policy once, and zeroed again.
pub struct PolicyGradient {
    pub biases: Vec<i64>,
    pub first_layer_weights: Vec<Vec<i64>>,
    pub second_layer_weights: Vec<Vec<i64>>,
    pub output_layer_weights: Vec<i64>,
}

impl View for PolicyGradient {
    type V = GParams;

    open spec fn view(&self) -> GParams {
        GParams {
            biases: s2i(self.biases@),
            first_layer_weights: mat_v(self.first_layer_weights@),
            second_layer_weights: mat_v(self.second_layer_weights@),
            output_layer_weights: s2i(self.output_layer_weights@),
        }
    }
}

/// The all-zero parameter set.
pub open spec fn zero_params() -> GParams {
    GParams {
        biases: Seq::new(11, |i: int| 0),
        first_layer_weights: Seq::new(5, |i: int| Seq::new(5, |j: int| 0)),
        second_layer_weights: Seq::new(5, |i: int| Seq::new(5, |j: int| 0)),
        output_layer_weights: Seq::new(5, |i: int| 0),
    }
}

impl PolicyGradient {
    pub open spec fn wf(self) -> bool {
        &&& self.biases@.len() == 11
        &&& mat_wf(self.first_layer_weights@)
        &&& mat_wf(self.second_layer_weights@)
        &&& self.output_layer_weights@.len() == 5
    }

    /// A fresh, all-zero accumulator.
    #[verifier::loop_isolation(false)]
    pub fn zeroed() -> (g: PolicyGradient)
        ensures
            g.wf(),
            g@ == zero_params(),
    {
        let biases: Vec<i64> = vec![0i64; 11];
        let output_layer_weights: Vec<i64> = vec![0i64; 5];
        let mut first_layer_weights: Vec<Vec<i64>> = Vec::new();
        let mut second_layer_weights: Vec<Vec<i64>> = Vec::new();
        for i in 0..5usize
            invariant
                first_layer_weights@.len() == i,
                second_layer_weights@.len() == i,
                forall|ii: int|
                    0 <= ii < i ==> (#[trigger] first_layer_weights@[ii])@ =~= Seq::new(
                        5,
                        |j: int| 0i64,
                    ),
                forall|ii: int|
                    0 <= ii < i ==> (#[trigger] second_layer_weights@[ii])@ =~= Seq::new(
                        5,
                        |j: int| 0i64,
                    ),
        {
            let row1: Vec<i64> = vec![0i64; 5];
            let row2: Vec<i64> = vec![0i64; 5];
            proof {
                assert(row1@ =~= Seq::new(5, |j: int| 0i64));
                assert(row2@ =~= Seq::new(5, |j: int| 0i64));
            }
            first_layer_weights.push(row1);
            second_layer_weights.push(row2);
        }
        let g = PolicyGradient {
            biases,
            first_layer_weights,
            second_layer_weights,
            output_layer_weights,
        };
        proof {
            assert(g@ =~~= zero_params());
        }
        g
    }
}

/// Pointwise sum of two parameter vectors.
pub open spec fn seq_add_v(a: Seq<int>, b: Seq<int>) -> Seq<int> {
    Seq::new(a.len(), |i: int| a[i] + b[i])
}

/// Whether every pointwise sum stays inside `i64`.
pub open spec fn seq_add_ok(a: Seq<int>, b: Seq<int>) -> bool {
    forall|i: int| 0 <= i < a.len() ==> in_i64(#[trigger] a[i] + #[trigger] b[i])
}

pub open spec fn mat_add_v(a: Seq<Seq<int>>, b: Seq<Seq<int>>) -> Seq<Seq<int>> {
    Seq::new(a.len(), |i: int| seq_add_v(a[i], b[i]))
}

pub open spec fn mat_add_ok(a: Seq<Seq<int>>, b: Seq<Seq<int>>) -> bool {
    forall|i: int| 0 <= i < a.len() ==> seq_add_ok(#[trigger] a[i], b[i])
}

/// Pointwise sum of two whole parameter sets.
pub open spec fn add_params_v(a: GParams, b: GParams) -> GParams {
    GParams {
        biases: seq_add_v(a.biases, b.biases),
        first_layer_weights: mat_add_v(a.first_layer_weights, b.first_layer_weights),
        second_layer_weights: mat_add_v(a.second_layer_weights, b.second_layer_weights),
        output_layer_weights: seq_add_v(a.output_layer_weights, b.output_layer_weights),
    }
}

/// Whether every parameter of the pointwise sum stays inside `i64`.
pub open spec fn add_params_ok(a: GParams, b: GParams) -> bool {
    &&& seq_add_ok(a.biases, b.biases)
    &&& mat_add_ok(a.first_layer_weights, b.first_layer_weights)
    &&& mat_add_ok(a.second_layer_weights, b.second_layer_weights)
    &&& seq_add_ok(a.output_layer_weights, b.output_layer_weights)
}

/// Checked pointwise sum of two parameter vectors.
#[verifier::loop_isolation(false)]
fn add_vecs(a: &Vec<i64>, b: &Vec<i64>) -> (r: Option<Vec<i64>>)
    requires
        a@.len() == b@.len(),
    ensures
        match r {
            Some(v) => {
                &&& seq_add_ok(s2i(a@), s2i(b@))
                &&& s2i(v@) == seq_add_v(s2i(a@), s2i(b@))
                &&& v@.len() == a@.len()
            },
            None => !seq_add_ok(s2i(a@), s2i(b@)),
        },
{
    let n = a.len();
    let mut v: Vec<i64> = Vec::new();
    for i in 0..n
        invariant
            v@.len() == i,
            forall|ii: int| 0 <= ii < i ==> #[trigger] v@[ii] as int == a@[ii] + b@[ii],
            forall|ii: int| 0 <= ii < i ==> in_i64(#[trigger] s2i(a@)[ii] + #[trigger] s2i(b@)[ii]),
    {
        match fx_add(a[i], b[i]) {
            Some(s) => {
                v.push(s);
            },
            None => {
                proof {
                    assert(!in_i64(s2i(a@)[i as int] + s2i(b@)[i as int]));
                }
                return None;
            },
        }
    }
    proof {
        assert(s2i(v@) =~= seq_add_v(s2i(a@), s2i(b@)));
    }
    Some(v)
}

/// Checked pointwise sum of two weight matrices.
#[verifier::loop_isolation(false)]
fn add_mats(a: &Vec<Vec<i64>>, b: &Vec<Vec<i64>>) -> (r: Option<Vec<Vec<i64>>>)
    requires
        mat_wf(a@),
        mat_wf(b@),
    ensures
        match r {
            Some(m) => {
                &&& mat_add_ok(mat_v(a@), mat_v(b@))
                &&& mat_v(m@) == mat_add_v(mat_v(a@), mat_v(b@))
                &&& mat_wf(m@)
            },
            None => !mat_add_ok(mat_v(a@), mat_v(b@)),
        },
{
    let mut m: Vec<Vec<i64>> = Vec::new();
    for i in 0..5usize
        invariant
            m@.len() == i,
            forall|ii: int| 0 <= ii < i ==> (#[trigger] m@[ii])@.len() == 5,
            forall|ii: int|
                0 <= ii < i ==> s2i((#[trigger] m@[ii])@) == seq_add_v(
                    mat_v(a@)[ii],
                    mat_v(b@)[ii],
                ),
            forall|ii: int| 0 <= ii < i ==> seq_add_ok(#[trigger] mat_v(a@)[ii], mat_v(b@)[ii]),
    {
        match add_vecs(&a[i], &b[i]) {
            Some(row) => {
                m.push(row);
            },
            None => {
                proof {
                    assert(!seq_add_ok(mat_v(a@)[i as int], mat_v(b@)[i as int]));
                }
                return None;
            },
        }
    }
    proof {
        assert(mat_v(m@) =~~= mat_add_v(mat_v(a@), mat_v(b@)));
    }
    Some(m)
}

/// The discounted return at timestep `t`, by the reverse recurrence: the
/// step's own reward plus the discounted return of the next step, scaled by
/// the discount factor.
pub open spec fn return_v(rewards: Seq<int>, discount: int, t: int) -> int
    decreases rewards.len() - t,
{
    if t < 0 || t >= rewards.len() {
        0
    } else {
        rewards[t] + fx_mul_v(discount, return_v(rewards, discount, t + 1))
    }
}

/// Whether every value of the return recurrence from `t` on stays in `i64`.
pub open spec fn return_ok(rewards: Seq<int>, discount: int, t: int) -> bool
    decreases rewards.len() - t,
{
    if t < 0 || t >= rewards.len() {
        true
    } else {
        &&& return_ok(rewards, discount, t + 1)
        &&& in_i64(fx_mul_v(discount, return_v(rewards, discount, t + 1)))
        &&& in_i64(return_v(rewards, discount, t))
    }
}

/// A return recurrence that stays in range from `t1` on also stays in range
/// from any later step.
pub proof fn lemma_return_ok_suffix(rewards: Seq<int>, discount: int, t1: int, t2: int)
    requires
        0 <= t1 <= t2,
    ensures
        return_ok(rewards, discount, t1) ==> return_ok(rewards, discount, t2),
    decreases t2 - t1,
{
    if t1 < t2 {
        lemma_return_ok_suffix(rewards, discount, t1 + 1, t2);
    }
}

/// Computes the discounted return of every timestep, reverse-accumulated in
/// one pass.  Fails exactly when some value of the recurrence leaves `i64`.
#[verifier::loop_isolation(false)]
pub fn compute_returns(rewards: &Vec<i64>, discount: i64) -> (r: Result<Vec<i64>, ReinforceError>)
    ensures
        match r {
            Ok(v) => {
                &&& return_ok(s2i(rewards@), discount as int, 0)
                &&& v@.len() == rewards@.len()
                &&& forall|t: int|
                    0 <= t < v@.len() ==> #[trigger] v@[t] as int == return_v(
                        s2i(rewards@),
                        discount as int,
                        t,
                    )
            },
            Err(e) => {
                &&& e == ReinforceError::NumericInstability
                &&& !return_ok(s2i(rewards@), discount as int, 0)
            },
        },
{
    let ghost rs = s2i(rewards@);
    let n = rewards.len();
    let mut rev: Vec<i64> = Vec::new();
    let mut g: i64 = 0;
    let mut t = n;
    while t > 0
        invariant
            t <= n,
            rev@.len() == n - t,
            g as int == return_v(rs, discount as int, t as int),
            return_ok(rs, discount as int, t as int),
            forall|i: int|
                0 <= i < n - t ==> #[trigger] rev@[i] as int == return_v(
                    rs,
                    discount as int,
                    n - 1 - i,
                ),
        decreases t,
    {
        let idx = t - 1;
        let m = match fx_mul(discount, g) {
            Some(m) => m,
            None => {
                proof {
                    assert(!return_ok(rs, discount as int, idx as int));
                    lemma_return_ok_suffix(rs, discount as int, 0, idx as int);
                }
                return Err(ReinforceError::NumericInstability);
            },
        };
        let g2 = match fx_add(rewards[idx], m) {
            Some(v) => v,
            None => {
                proof {
                    assert(!in_i64(return_v(rs, discount as int, idx as int)));
                    assert(!return_ok(rs, discount as int, idx as int));
                    lemma_return_ok_suffix(rs, discount as int, 0, idx as int);
                }
                return Err(ReinforceError::NumericInstability);
            },
        };
        rev.push(g2);
        g = g2;
        t = idx;
    }
    let mut v: Vec<i64> = Vec::new();
    for j in 0..n
        invariant
            v@.len() == j,
            forall|tt: int|
                0 <= tt < j ==> #[trigger] v@[tt] as int == return_v(rs, discount as int, tt),
    {
        v.push(rev[n - 1 - j]);
    }
    Ok(v)
}

/// The discount factor raised to the power `t`, by repeated fixed-point
/// multiplication.
pub open spec fn pow_v(d: int, t: int) -> int
    decreases t,
{
    if t <= 0 {
        FX_ONE as int
    } else {
        fx_mul_v(pow_v(d, t - 1), d)
    }
}

/// A valid discount factor's powers stay within [0, 1], so the running
/// power never overflows.
pub proof fn lemma_pow_range(d: int, t: int)
    requires
        0 < d <= FX_ONE,
        0 <= t,
    ensures
        0 <= pow_v(d, t) <= FX_ONE,
    decreases t,
{
    if t > 0 {
        lemma_pow_range(d, t - 1);
        let p = pow_v(d, t - 1);
        assert(0 <= p * d <= (FX_ONE as int) * (FX_ONE as int)) by (nonlinear_arith)
            requires
                0 <= p <= FX_ONE as int,
                0 < d <= FX_ONE as int,
        ;
        vstd::arithmetic::div_mod::lemma_div_pos_is_pos(p * d, FX_ONE as int);
        vstd::arithmetic::div_mod::lemma_div_is_ordered(
            p * d,
            (FX_ONE as int) * (FX_ONE as int),
            FX_ONE as int,
        );
        vstd::arithmetic::div_mod::lemma_div_multiples_vanish(FX_ONE as int, FX_ONE as int);
    }
}

/// Truncating fixed-point multiplication is symmetric.
pub proof fn lemma_fx_mul_comm(a: int, b: int)
    ensures
        fx_mul_v(a, b) == fx_mul_v(b, a),
{
    assert(a * b == b * a) by (nonlinear_arith);
}

/// Discounted-return law: with a single terminal reward of exactly +1.0 —
/// the shape every won episode produces — the reverse recurrence gives
/// exactly the discount's powers: the return at timestep `t` of a
/// `T`-step episode is `discount` to the power `T - 1 - t`.
pub proof fn lemma_terminal_return_is_discount_power(rews: Seq<int>, d: int, t: int)
    requires
        0 <= t < rews.len(),
        forall|i: int| 0 <= i < rews.len() - 1 ==> rews[i] == 0,
        rews[rews.len() - 1] == FX_ONE,
    ensures
        return_v(rews, d, t) == pow_v(d, rews.len() - 1 - t),
    decreases rews.len() - t,
{
    let n = rews.len() as int;
    if t == n - 1 {
        assert(return_v(rews, d, n) == 0);
        assert(fx_mul_v(d, 0) == 0) by {
            assert(d * 0 == 0) by (nonlinear_arith);
            vstd::arithmetic::div_mod::lemma_div_of0(FX_ONE as int);
        }
    } else {
        lemma_terminal_return_is_discount_power(rews, d, t + 1);
        lemma_fx_mul_comm(d, pow_v(d, n - 2 - t));
    }
}

/// The lost-episode counterpart: a single terminal reward of exactly -1.0
/// gives exactly the negated discount powers.
pub proof fn lemma_terminal_loss_is_negated_discount_power(rews: Seq<int>, d: int, t: int)
    requires
        0 <= t < rews.len(),
        forall|i: int| 0 <= i < rews.len() - 1 ==> rews[i] == 0,
        rews[rews.len() - 1] == -FX_ONE,
    ensures
        return_v(rews, d, t) == -pow_v(d, rews.len() - 1 - t),
    decreases rews.len() - t,
{
    let n = rews.len() as int;
    if t == n - 1 {
        assert(return_v(rews, d, n) == 0);
        assert(fx_mul_v(d, 0) == 0) by {
            assert(d * 0 == 0) by (nonlinear_arith);
            vstd::arithmetic::div_mod::lemma_div_of0(FX_ONE as int);
        }
    } else {
        lemma_terminal_loss_is_negated_discount_power(rews, d, t + 1);
        let p = pow_v(d, n - 2 - t);
        assert(fx_mul_v(d, -p) == -fx_mul_v(d, p)) by {
            lemma_fx_mul_comm(d, -p);
            lemma_fx_mul_neg_left(p, d);
            lemma_fx_mul_comm(p, d);
        }
        lemma_fx_mul_comm(d, p);
    }
}

/// The first factor of a timestep's scalar adjustment: the learning rate
/// scaled by the discount power.
pub open spec fn adj_a1_v(lr: int, d: int, t: int) -> int {
    fx_mul_v(lr, pow_v(d, t))
}

/// The scalar adjustment of timestep `t`: learning rate times discount power
/// times discounted return, negated when the action taken was Down.
pub open spec fn adj_v(lr: int, d: int, g: int, t: int, up: bool) -> int {
    if up {
        fx_mul_v(adj_a1_v(lr, d, t), g)
    } else {
        -fx_mul_v(adj_a1_v(lr, d, t), g)
    }
}

/// Whether the adjustment computation stays inside `i64`.
pub open spec fn adj_ok(lr: int, d: int, g: int, t: int, up: bool) -> bool {
    &&& in_i64(adj_a1_v(lr, d, t))
    &&& in_i64(fx_mul_v(adj_a1_v(lr, d, t), g))
    &&& (up || in_i64(-fx_mul_v(adj_a1_v(lr, d, t), g)))
}

/// The scalar driving one timestep's parameter updates: the adjustment times
/// one minus the realized probability of the chosen action.
pub open spec fn drive_v(p: GParams, x: Seq<int>, up: bool, adj: int) -> int {
    let out = output_v(p, x);
    let pi = if up {
        out
    } else {
        FX_ONE - out
    };
    fx_mul_v(adj, FX_ONE - pi)
}

/// Contribution to output-layer weight `k`: the drive scaled by hidden-2
/// activation `k`.
pub open spec fn wout_c_v(e: int, h2: Seq<int>, k: int) -> int {
    fx_mul_v(e, h2[k])
}

pub open spec fn wout_c_ok(e: int, h2: Seq<int>, k: int) -> bool {
    in_i64(fx_mul_v(e, h2[k]))
}

/// Contribution to hidden-layer-2 bias `k`: the drive carried back through
/// output weight `k` and the sigmoid derivative of activation `k`,
/// multiplied left to right as the chain rule lists its factors.
pub open spec fn bias2_c_v(e: int, wout: Seq<int>, h2: Seq<int>, k: int) -> int {
    fx_mul_v(fx_mul_v(fx_mul_v(e, wout[k]), h2[k]), FX_ONE - h2[k])
}

pub open spec fn bias2_c_ok(e: int, wout: Seq<int>, h2: Seq<int>, k: int) -> bool {
    let s1 = fx_mul_v(e, wout[k]);
    let s2 = fx_mul_v(s1, h2[k]);
    in_i64(s1) && in_i64(s2) && in_i64(fx_mul_v(s2, FX_ONE - h2[k]))
}

/// Contribution to the weight between hidden-1 node `j` and hidden-2 node
/// `k`, multiplied left to right as the chain rule lists its factors.
pub open spec fn w2_c_v(e: int, wout: Seq<int>, h1: Seq<int>, h2: Seq<int>, j: int, k: int) -> int {
    fx_mul_v(fx_mul_v(fx_mul_v(fx_mul_v(e, wout[k]), h2[k]), FX_ONE - h2[k]), h1[j])
}

pub open spec fn w2_c_ok(e: int, wout: Seq<int>, h1: Seq<int>, h2: Seq<int>, j: int, k: int) -> bool {
    let s1 = fx_mul_v(e, wout[k]);
    let s2 = fx_mul_v(s1, h2[k]);
    let s3 = fx_mul_v(s2, FX_ONE - h2[k]);
    in_i64(s1) && in_i64(s2) && in_i64(s3) && in_i64(fx_mul_v(s3, h1[j]))
}

/// One term of the backpropagated sum for hidden-1 node `j`: output weight
/// `k` times activation `k` times the connecting weight times the sigmoid
/// derivative factor.
pub open spec fn sumterm_v(wout: Seq<int>, w2: Seq<Seq<int>>, h2: Seq<int>, j: int, k: int) -> int {
    fx_mul_v(fx_mul_v(fx_mul_v(wout[k], h2[k]), w2[j][k]), FX_ONE - h2[k])
}

pub open spec fn sumterm_ok(wout: Seq<int>, w2: Seq<Seq<int>>, h2: Seq<int>, j: int, k: int) -> bool {
    let s1 = fx_mul_v(wout[k], h2[k]);
    let s2 = fx_mul_v(s1, w2[j][k]);
    in_i64(s1) && in_i64(s2) && in_i64(fx_mul_v(s2, FX_ONE - h2[k]))
}

/// The first `n` terms of the backpropagated sum for hidden-1 node `j`.
pub open spec fn sum_v(wout: Seq<int>, w2: Seq<Seq<int>>, h2: Seq<int>, j: int, n: int) -> int
    decreases n,
{
    if n <= 0 {
        0
    } else {
        sum_v(wout, w2, h2, j, n - 1) + sumterm_v(wout, w2, h2, j, n - 1)
    }
}

pub open spec fn sum_ok(wout: Seq<int>, w2: Seq<Seq<int>>, h2: Seq<int>, j: int, n: int) -> bool
    decreases n,
{
    n <= 0 || (sum_ok(wout, w2, h2, j, n - 1) && sumterm_ok(wout, w2, h2, j, n - 1) && in_i64(
        sum_v(wout, w2, h2, j, n),
    ))
}

pub proof fn lemma_sum_ok_prefix(
    wout: Seq<int>,
    w2: Seq<Seq<int>>,
    h2: Seq<int>,
    j: int,
    n1: int,
    n2: int,
)
    requires
        n1 <= n2,
    ensures
        sum_ok(wout, w2, h2, j, n2) ==> sum_ok(wout, w2, h2, j, n1),
    decreases n2 - n1,
{
    if n1 < n2 {
        lemma_sum_ok_prefix(wout, w2, h2, j, n1 + 1, n2);
    }
}

/// Contribution to hidden-layer-1 bias `j`.
pub open spec fn bias1_c_v(
    e: int,
    wout: Seq<int>,
    w2: Seq<Seq<int>>,
    h1: Seq<int>,
    h2: Seq<int>,
    j: int,
) -> int {
    fx_mul_v(fx_mul_v(fx_mul_v(e, h1[j]), FX_ONE - h1[j]), sum_v(wout, w2, h2, j, 5))
}

pub open spec fn bias1_c_ok(
    e: int,
    wout: Seq<int>,
    w2: Seq<Seq<int>>,
    h1: Seq<int>,
    h2: Seq<int>,
    j: int,
) -> bool {
    let t1 = fx_mul_v(e, h1[j]);
    let t2 = fx_mul_v(t1, FX_ONE - h1[j]);
    &&& in_i64(t1)
    &&& in_i64(t2)
    &&& sum_ok(wout, w2, h2, j, 5)
    &&& in_i64(fx_mul_v(t2, sum_v(wout, w2, h2, j, 5)))
}

/// Contribution to the weight between input `m` and hidden-1 node `j`.
pub open spec fn w1_c_v(
    e: int,
    x: Seq<int>,
    wout: Seq<int>,
    w2: Seq<Seq<int>>,
    h1: Seq<int>,
    h2: Seq<int>,
    m: int,
    j: int,
) -> int {
    fx_mul_v(
        fx_mul_v(fx_mul_v(fx_mul_v(e, x[m]), h1[j]), FX_ONE - h1[j]),
        sum_v(wout, w2, h2, j, 5),
    )
}

pub open spec fn w1_c_ok(
    e: int,
    x: Seq<int>,
    wout: Seq<int>,
    w2: Seq<Seq<int>>,
    h1: Seq<int>,
    h2: Seq<int>,
    m: int,
    j: int,
) -> bool {
    let u1 = fx_mul_v(e, x[m]);
    let u2 = fx_mul_v(u1, h1[j]);
    let u3 = fx_mul_v(u2, FX_ONE - h1[j]);
    &&& in_i64(u1)
    &&& in_i64(u2)
    &&& in_i64(u3)
    &&& sum_ok(wout, w2, h2, j, 5)
    &&& in_i64(fx_mul_v(u3, sum_v(wout, w2, h2, j, 5)))
}

/// Every parameter's gradient contribution for one timestep, given the
/// timestep's scalar adjustment.
pub open spec fn step_contrib(p: GParams, x: Seq<int>, up: bool, adj: int) -> GParams {
    let h1 = hidden1_v(p, x);
    let h2 = hidden2_v(p, x);
    let e = drive_v(p, x, up, adj);
    GParams {
        biases: Seq::new(
            11,
            |i: int|
                if i < 5 {
                    bias1_c_v(e, p.output_layer_weights, p.second_layer_weights, h1, h2, i)
                } else if i < 10 {
                    bias2_c_v(e, p.output_layer_weights, h2, i - 5)
                } else {
                    e
                },
        ),
        first_layer_weights: Seq::new(
            5,
            |m: int|
                Seq::new(
                    5,
                    |j: int|
                        w1_c_v(
                            e,
                            x,
                            p.output_layer_weights,
                            p.second_layer_weights,
                            h1,
                            h2,
                            m,
                            j,
                        ),
                ),
        ),
        second_layer_weights: Seq::new(
            5,
            |j: int| Seq::new(5, |k: int| w2_c_v(e, p.output_layer_weights, h1, h2, j, k)),
        ),
        output_layer_weights: Seq::new(5, |k: int| wout_c_v(e, h2, k)),
    }
}

/// Whether one timestep's whole contribution computation stays inside `i64`.
pub open spec fn step_ok(p: GParams, x: Seq<int>, up: bool, adj: int) -> bool {
    let h1 = hidden1_v(p, x);
    let h2 = hidden2_v(p, x);
    let e = drive_v(p, x, up, adj);
    &&& forward_ok(p, x)
    &&& in_i64(e)
    &&& forall|k: int| 0 <= k < 5 ==> #[trigger] wout_c_ok(e, h2, k)
    &&& forall|k: int| 0 <= k < 5 ==> #[trigger] bias2_c_ok(e, p.output_layer_weights, h2, k)
    &&& forall|j: int, k: int|
        0 <= j < 5 && 0 <= k < 5 ==> #[trigger] w2_c_ok(e, p.output_layer_weights, h1, h2, j, k)
    &&& forall|j: int|
        0 <= j < 5 ==> #[trigger] bias1_c_ok(
            e,
            p.output_layer_weights,
            p.second_layer_weights,
            h1,
            h2,
            j,
        )
    &&& forall|m: int, j: int|
        0 <= m < 5 && 0 <= j < 5 ==> #[trigger] w1_c_ok(
            e,
            x,
            p.output_layer_weights,
            p.second_layer_weights,
            h1,
            h2,
            m,
            j,
        )
}

/// Recomputes the forward pass on one stored state and derives every
/// parameter's gradient contribution for that timestep.
#[verifier::loop_isolation(false)]
#[verifier::rlimit(100)]
fn compute_step_contrib(network: &Network, state: &StateVec, up: bool, adj: i64) -> (r: Result<
    PolicyGradient,
    ReinforceError,
>)
    requires
        network.wf(),
    ensures
        match r {
            Ok(c) => {
                &&& step_ok(network@, state@, up, adj as int)
                &&& c.wf()
                &&& c@ == step_contrib(network@, state@, up, adj as int)
            },
            Err(e) => {
                &&& e == ReinforceError::NumericInstability
                &&& !step_ok(network@, state@, up, adj as int)
            },
        },
{
    let ghost p = network@;
    let ghost x = state@;
    let ghost h1s = hidden1_v(p, x);
    let ghost h2s = hidden2_v(p, x);
    let ghost wo = p.output_layer_weights;
    let ghost w2m = p.second_layer_weights;
    let acts = match forward(network, state) {
        Ok(a) => a,
        Err(_) => {
            return Err(ReinforceError::NumericInstability);
        },
    };
    let pi: i64 = if up {
        acts.output
    } else {
        FX_ONE - acts.output
    };
    let e: i64 = match fx_mul(adj, FX_ONE - pi) {
        Some(v) => v,
        None => {
            proof {
                assert(!in_i64(drive_v(p, x, up, adj as int)));
            }
            return Err(ReinforceError::NumericInstability);
        },
    };
    proof {
        assert(e as int == drive_v(p, x, up, adj as int));
    }
    // The backpropagated sum feeding hidden-1 node j, shared by the bias and
    // the input-weight contributions of that node.
    let mut sums: Vec<i64> = Vec::new();
    for j in 0..5usize
        invariant
            sums@.len() == j,
            forall|jj: int| 0 <= jj < j ==> #[trigger] sum_ok(wo, w2m, h2s, jj, 5),
            forall|jj: int| 0 <= jj < j ==> #[trigger] sums@[jj] as int == sum_v(wo, w2m, h2s, jj, 5),
    {
        let mut acc: i64 = 0;
        for k in 0..5usize
            invariant
                sum_ok(wo, w2m, h2s, j as int, k as int),
                acc as int == sum_v(wo, w2m, h2s, j as int, k as int),
        {
            let s1 = match fx_mul(network.output_layer_weights[k], acts.hidden2[k]) {
                Some(v) => v,
                None => {
                    proof {
                        lemma_sum_ok_prefix(wo, w2m, h2s, j as int, k + 1, 5);
                        assert(!bias1_c_ok(e as int, wo, w2m, h1s, h2s, j as int));
                    }
                    return Err(ReinforceError::NumericInstability);
                },
            };
            let s2 = match fx_mul(s1, network.second_layer_weights[j][k]) {
                Some(v) => v,
                None => {
                    proof {
                        lemma_sum_ok_prefix(wo, w2m, h2s, j as int, k + 1, 5);
                        assert(!bias1_c_ok(e as int, wo, w2m, h1s, h2s, j as int));
                    }
                    return Err(ReinforceError::NumericInstability);
                },
            };
            let s3 = match fx_mul(s2, FX_ONE - acts.hidden2[k]) {
                Some(v) => v,
                None => {
                    proof {
                        lemma_sum_ok_prefix(wo, w2m, h2s, j as int, k + 1, 5);
                        assert(!bias1_c_ok(e as int, wo, w2m, h1s, h2s, j as int));
                    }
                    return Err(ReinforceError::NumericInstability);
                },
            };
            acc = match fx_add(acc, s3) {
                Some(v) => v,
                None => {
                    proof {
                        assert(!in_i64(sum_v(wo, w2m, h2s, j as int, k + 1)));
                        lemma_sum_ok_prefix(wo, w2m, h2s, j as int, k + 1, 5);
                        assert(!bias1_c_ok(e as int, wo, w2m, h1s, h2s, j as int));
                    }
                    return Err(ReinforceError::NumericInstability);
                },
            };
        }
        sums.push(acc);
    }
    // Biases of hidden layer 1.
    let mut cb: Vec<i64> = Vec::new();
    for j in 0..5usize
        invariant
            cb@.len() == j,
            forall|jj: int| 0 <= jj < j ==> #[trigger] bias1_c_ok(e as int, wo, w2m, h1s, h2s, jj),
            forall|jj: int|
                0 <= jj < j ==> #[trigger] cb@[jj] as int == bias1_c_v(
                    e as int,
                    wo,
                    w2m,
                    h1s,
                    h2s,
                    jj,
                ),
    {
        let t1 = match fx_mul(e, acts.hidden1[j]) {
            Some(v) => v,
            None => {
                proof {
                    assert(!bias1_c_ok(e as int, wo, w2m, h1s, h2s, j as int));
                }
                return Err(ReinforceError::NumericInstability);
            },
        };
        let t2 = match fx_mul(t1, FX_ONE - acts.hidden1[j]) {
            Some(v) => v,
            None => {
                proof {
                    assert(!bias1_c_ok(e as int, wo, w2m, h1s, h2s, j as int));
                }
                return Err(ReinforceError::NumericInstability);
            },
        };
        let t3 = match fx_mul(t2, sums[j]) {
            Some(v) => v,
            None => {
                proof {
                    assert(!bias1_c_ok(e as int, wo, w2m, h1s, h2s, j as int));
                }
                return Err(ReinforceError::NumericInstability);
            },
        };
        cb.push(t3);
    }
    // Biases of hidden layer 2.
    for k in 0..5usize
        invariant
            cb@.len() == 5 + k,
            forall|jj: int|
                0 <= jj < 5 ==> #[trigger] cb@[jj] as int == bias1_c_v(
                    e as int,
                    wo,
                    w2m,
                    h1s,
                    h2s,
                    jj,
                ),
            forall|kk: int| 0 <= kk < k ==> #[trigger] bias2_c_ok(e as int, wo, h2s, kk),
            forall|kk: int|
                0 <= kk < k ==> #[trigger] cb@[5 + kk] as int == bias2_c_v(e as int, wo, h2s, kk),
    {
        let u1 = match fx_mul(e, network.output_layer_weights[k]) {
            Some(v) => v,
            None => {
                proof {
                    assert(!bias2_c_ok(e as int, wo, h2s, k as int));
                }
                return Err(ReinforceError::NumericInstability);
            },
        };
        let u2 = match fx_mul(u1, acts.hidden2[k]) {
            Some(v) => v,
            None => {
                proof {
                    assert(!bias2_c_ok(e as int, wo, h2s, k as int));
                }
                return Err(ReinforceError::NumericInstability);
            },
        };
        let u3 = match fx_mul(u2, FX_ONE - acts.hidden2[k]) {
            Some(v) => v,
            None => {
                proof {
                    assert(!bias2_c_ok(e as int, wo, h2s, k as int));
                }
                return Err(ReinforceError::NumericInstability);
            },
        };
        cb.push(u3);
    }
    // Bias of the output node.
    cb.push(e);
    // Output-layer weights.
    let mut cwout: Vec<i64> = Vec::new();
    for k in 0..5usize
        invariant
            cwout@.len() == k,
            forall|kk: int| 0 <= kk < k ==> #[trigger] wout_c_ok(e as int, h2s, kk),
            forall|kk: int|
                0 <= kk < k ==> #[trigger] cwout@[kk] as int == wout_c_v(e as int, h2s, kk),
    {
        let u1 = match fx_mul(e, acts.hidden2[k]) {
            Some(v) => v,
            None => {
                proof {
                    assert(!wout_c_ok(e as int, h2s, k as int));
                }
                return Err(ReinforceError::NumericInstability);
            },
        };
        cwout.push(u1);
    }
    // Weights between the hidden layers.
    let mut cw2: Vec<Vec<i64>> = Vec::new();
    for j in 0..5usize
        invariant
            cw2@.len() == j,
            forall|jj: int, kk: int|
                0 <= jj < j && 0 <= kk < 5 ==> #[trigger] w2_c_ok(e as int, wo, h1s, h2s, jj, kk),
            forall|jj: int| 0 <= jj < j ==> (#[trigger] cw2@[jj])@.len() == 5,
            forall|jj: int, kk: int|
                0 <= jj < j && 0 <= kk < 5 ==> #[trigger] cw2@[jj]@[kk] as int == w2_c_v(
                    e as int,
                    wo,
                    h1s,
                    h2s,
                    jj,
                    kk,
                ),
    {
        let mut row: Vec<i64> = Vec::new();
        for k in 0..5usize
            invariant
                row@.len() == k,
                forall|kk: int|
                    0 <= kk < k ==> #[trigger] w2_c_ok(e as int, wo, h1s, h2s, j as int, kk),
                forall|kk: int|
                    0 <= kk < k ==> #[trigger] row@[kk] as int == w2_c_v(
                        e as int,
                        wo,
                        h1s,
                        h2s,
                        j as int,
                        kk,
                    ),
        {
            let s1 = match fx_mul(e, network.output_layer_weights[k]) {
                Some(v) => v,
                None => {
                    proof {
                        assert(!w2_c_ok(e as int, wo, h1s, h2s, j as int, k as int));
                    }
                    return Err(ReinforceError::NumericInstability);
                },
            };
            let s2 = match fx_mul(s1, acts.hidden2[k]) {
                Some(v) => v,
                None => {
                    proof {
                        assert(!w2_c_ok(e as int, wo, h1s, h2s, j as int, k as int));
                    }
                    return Err(ReinforceError::NumericInstability);
                },
            };
            let s3 = match fx_mul(s2, FX_ONE - acts.hidden2[k]) {
                Some(v) => v,
                None => {
                    proof {
                        assert(!w2_c_ok(e as int, wo, h1s, h2s, j as int, k as int));
                    }
                    return Err(ReinforceError::NumericInstability);
                },
            };
            let s4 = match fx_mul(s3, acts.hidden1[j]) {
                Some(v) => v,
                None => {
                    proof {
                        assert(!w2_c_ok(e as int, wo, h1s, h2s, j as int, k as int));
                    }
                    return Err(ReinforceError::NumericInstability);
                },
            };
            row.push(s4);
        }
        cw2.push(row);
    }
    // Weights between the inputs and hidden layer 1.
    let mut cw1: Vec<Vec<i64>> = Vec::new();
    for m in 0..5usize
        invariant
            cw1@.len() == m,
            forall|mm: int, jj: int|
                0 <= mm < m && 0 <= jj < 5 ==> #[trigger] w1_c_ok(
                    e as int,
                    x,
                    wo,
                    w2m,
                    h1s,
                    h2s,
                    mm,
                    jj,
                ),
            forall|mm: int| 0 <= mm < m ==> (#[trigger] cw1@[mm])@.len() == 5,
            forall|mm: int, jj: int|
                0 <= mm < m && 0 <= jj < 5 ==> #[trigger] cw1@[mm]@[jj] as int == w1_c_v(
                    e as int,
                    x,
                    wo,
                    w2m,
                    h1s,
                    h2s,
                    mm,
                    jj,
                ),
    {
        let xm = state.get(m);
        let mut row: Vec<i64> = Vec::new();
        for j in 0..5usize
            invariant
                row@.len() == j,
                forall|jj: int|
                    0 <= jj < j ==> #[trigger] w1_c_ok(e as int, x, wo, w2m, h1s, h2s, m as int, jj),
                forall|jj: int|
                    0 <= jj < j ==> #[trigger] row@[jj] as int == w1_c_v(
                        e as int,
                        x,
                        wo,
                        w2m,
                        h1s,
                        h2s,
                        m as int,
                        jj,
                    ),
        {
            let u1 = match fx_mul(e, xm) {
                Some(v) => v,
                None => {
                    proof {
                        assert(!w1_c_ok(e as int, x, wo, w2m, h1s, h2s, m as int, j as int));
                    }
                    return Err(ReinforceError::NumericInstability);
                },
            };
            let u2 = match fx_mul(u1, acts.hidden1[j]) {
                Some(v) => v,
                None => {
                    proof {
                        assert(!w1_c_ok(e as int, x, wo, w2m, h1s, h2s, m as int, j as int));
                    }
                    return Err(ReinforceError::NumericInstability);
                },
            };
            let u3 = match fx_mul(u2, FX_ONE - acts.hidden1[j]) {
                Some(v) => v,
                None => {
                    proof {
                        assert(!w1_c_ok(e as int, x, wo, w2m, h1s, h2s, m as int, j as int));
                    }
                    return Err(ReinforceError::NumericInstability);
                },
            };
            let u4 = match fx_mul(u3, sums[j]) {
                Some(v) => v,
                None => {
                    proof {
                        assert(!w1_c_ok(e as int, x, wo, w2m, h1s, h2s, m as int, j as int));
                    }
                    return Err(ReinforceError::NumericInstability);
                },
            };
            row.push(u4);
        }
        cw1.push(row);
    }
    let c = PolicyGradient {
        biases: cb,
        first_layer_weights: cw1,
        second_layer_weights: cw2,
        output_layer_weights: cwout,
    };
    proof {
        assert(c@.biases =~= step_contrib(p, x, up, adj as int).biases);
        assert(c@.output_layer_weights =~= step_contrib(p, x, up, adj as int).output_layer_weights);
        assert(c@.first_layer_weights =~~= step_contrib(p, x, up, adj as int).first_layer_weights);
        assert(c@.second_layer_weights =~~= step_contrib(p, x, up, adj as int).second_layer_weights);
        assert(c@ =~~= step_contrib(p, x, up, adj as int));
    }
    Ok(c)
}

/// The gradient accumulated over the first `t` timesteps of the trajectory.
pub open spec fn accum_v(
    p: GParams,
    states: Seq<Seq<int>>,
    ups: Seq<bool>,
    rews: Seq<int>,
    lr: int,
    d: int,
    t: int,
) -> GParams
    decreases t,
{
    if t <= 0 {
        zero_params()
    } else {
        add_params_v(
            accum_v(p, states, ups, rews, lr, d, t - 1),
            step_contrib(
                p,
                states[t - 1],
                ups[t - 1],
                adj_v(lr, d, return_v(rews, d, t - 1), t - 1, ups[t - 1]),
            ),
        )
    }
}

/// Whether accumulating the first `t` timesteps stays inside `i64`
/// throughout.
pub open spec fn accum_ok(
    p: GParams,
    states: Seq<Seq<int>>,
    ups: Seq<bool>,
    rews: Seq<int>,
    lr: int,
    d: int,
    t: int,
) -> bool
    decreases t,
{
    t <= 0 || {
        let adj = adj_v(lr, d, return_v(rews, d, t - 1), t - 1, ups[t - 1]);
        &&& accum_ok(p, states, ups, rews, lr, d, t - 1)
        &&& adj_ok(lr, d, return_v(rews, d, t - 1), t - 1, ups[t - 1])
        &&& step_ok(p, states[t - 1], ups[t - 1], adj)
        &&& add_params_ok(
            accum_v(p, states, ups, rews, lr, d, t - 1),
            step_contrib(p, states[t - 1], ups[t - 1], adj),
        )
    }
}

pub proof fn lemma_accum_ok_prefix(
    p: GParams,
    states: Seq<Seq<int>>,
    ups: Seq<bool>,
    rews: Seq<int>,
    lr: int,
    d: int,
    t1: int,
    t2: int,
)
    requires
        0 <= t1 <= t2,
    ensures
        accum_ok(p, states, ups, rews, lr, d, t2) ==> accum_ok(p, states, ups, rews, lr, d, t1),
    decreases t2 - t1,
{
    if t1 < t2 {
        lemma_accum_ok_prefix(p, states, ups, rews, lr, d, t1, t2 - 1);
    }
}

/// Whether the whole training pass on this trajectory stays inside `i64`:
/// the return recurrence, every timestep's accumulation, and the final
/// application to the policy parameters.
pub open spec fn train_ok(
    p: GParams,
    states: Seq<Seq<int>>,
    ups: Seq<bool>,
    rews: Seq<int>,
    lr: int,
    d: int,
) -> bool {
    let n = states.len() as int;
    &&& return_ok(rews, d, 0)
    &&& accum_ok(p, states, ups, rews, lr, d, n)
    &&& add_params_ok(p, accum_v(p, states, ups, rews, lr, d, n))
}

/// The policy parameters after a successful training pass: the old
/// parameters plus the accumulated gradient of the whole trajectory.
pub open spec fn train_result(
    p: GParams,
    states: Seq<Seq<int>>,
    ups: Seq<bool>,
    rews: Seq<int>,
    lr: int,
    d: int,
) -> GParams {
    add_params_v(p, accum_v(p, states, ups, rews, lr, d, states.len() as int))
}

/// Adds one timestep's contribution into the accumulator, atomically: on
/// overflow the accumulator is unchanged.
fn add_into(gradient: &mut PolicyGradient, c: &PolicyGradient) -> (r: Result<(), ReinforceError>)
    requires
        old(gradient).wf(),
        c.wf(),
    ensures
        match r {
            Ok(()) => {
                &&& add_params_ok(old(gradient)@, c@)
                &&& final(gradient).wf()
                &&& final(gradient)@ == add_params_v(old(gradient)@, c@)
            },
            Err(e) => {
                &&& e == ReinforceError::NumericInstability
                &&& !add_params_ok(old(gradient)@, c@)
                &&& *final(gradient) == *old(gradient)
            },
        },
{
    let nb = match add_vecs(&gradient.biases, &c.biases) {
        Some(v) => v,
        None => {
            return Err(ReinforceError::NumericInstability);
        },
    };
    let n1 = match add_mats(&gradient.first_layer_weights, &c.first_layer_weights) {
        Some(v) => v,
        None => {
            return Err(ReinforceError::NumericInstability);
        },
    };
    let n2 = match add_mats(&gradient.second_layer_weights, &c.second_layer_weights) {
        Some(v) => v,
        None => {
            return Err(ReinforceError::NumericInstability);
        },
    };
    let no = match add_vecs(&gradient.output_layer_weights, &c.output_layer_weights) {
        Some(v) => v,
        None => {
            return Err(ReinforceError::NumericInstability);
        },
    };
    gradient.biases = nb;
    gradient.first_layer_weights = n1;
    gradient.second_layer_weights = n2;
    gradient.output_layer_weights = no;
    proof {
        assert(gradient@ =~~= add_params_v(old(gradient)@, c@));
    }
    Ok(())
}

/// Applies the accumulated gradient to the policy parameters, atomically:
/// either every parameter is updated or none is.
fn apply_gradient(network: &mut Network, g: &PolicyGradient) -> (r: Result<(), ReinforceError>)
    requires
        old(network).wf(),
        g.wf(),
    ensures
        match r {
            Ok(()) => {
                &&& add_params_ok(old(network)@, g@)
                &&& final(network).wf()
                &&& final(network)@ == add_params_v(old(network)@, g@)
            },
            Err(e) => {
                &&& e == ReinforceError::NumericInstability
                &&& !add_params_ok(old(network)@, g@)
                &&& *final(network) == *old(network)
            },
        },
{
    let nb = match add_vecs(&network.biases, &g.biases) {
        Some(v) => v,
        None => {
            return Err(ReinforceError::NumericInstability);
        },
    };
    let n1 = match add_mats(&network.first_layer_weights, &g.first_layer_weights) {
        Some(v) => v,
        None => {
            return Err(ReinforceError::NumericInstability);
        },
    };
    let n2 = match add_mats(&network.second_layer_weights, &g.second_layer_weights) {
        Some(v) => v,
        None => {
            return Err(ReinforceError::NumericInstability);
        },
    };
    let no = match add_vecs(&network.output_layer_weights, &g.output_layer_weights) {
        Some(v) => v,
        None => {
            return Err(ReinforceError::NumericInstability);
        },
    };
    network.biases = nb;
    network.first_layer_weights = n1;
    network.second_layer_weights = n2;
    network.output_layer_weights = no;
    proof {
        assert(network@ =~~= add_params_v(old(network)@, g@));
    }
    Ok(())
}

/// The trajectory buffer emptied, the accumulator zeroed, play resumed.
pub open spec fn pass_closed(dold: EpochData, dnew: EpochData, gnew: PolicyGradient) -> bool {
    &&& dnew.actions@.len() == 0
    &&& dnew.states@.len() == 0
    &&& dnew.rewards@.len() == 0
    &&& dnew.inprogress == true
    &&& dnew.epoch == dold.epoch
    &&& gnew.wf()
    &&& gnew@ == zero_params()
}

/// One training pass of the REINFORCE algorithm, run when the episode has
/// been marked finished.
///
/// With aligned trajectory sequences the pass either succeeds — the policy
/// parameters become exactly the old parameters plus the gradient
/// accumulated over every timestep — or reports numeric instability and
/// leaves the parameters untouched; which of the two happens is decided
/// exactly by whether the pass's arithmetic stays inside `i64`.  Mismatched
/// sequence lengths are rejected without touching the parameters.  In every
/// completed case the trajectory is discarded, the accumulator is left
/// all-zero, and play resumes.
#[verifier::loop_isolation(false)]
pub fn train_with_reinforce(
    network: &mut Network,
    gradient: &mut PolicyGradient,
    epochdata: &mut EpochData,
    hp: &Hyperparams,
) -> (r: Result<(), ReinforceError>)
    requires
        old(network).wf(),
        old(gradient).wf(),
        hp.wf(),
    ensures
        final(network).wf(),
        old(epochdata).inprogress ==> r is Ok && *final(network) == *old(network) && *final(gradient)
            == *old(gradient) && *final(epochdata) == *old(epochdata),
        !old(epochdata).inprogress ==> {
            let p = old(network)@;
            let states = old(epochdata).states_view();
            let ups = old(epochdata).ups_view();
            let rews = old(epochdata).rewards_view();
            let lr = hp.learning_rate as int;
            let d = hp.discount as int;
            &&& pass_closed(*old(epochdata), *final(epochdata), *final(gradient))
            &&& (r == Err::<(), ReinforceError>(ReinforceError::DimensionMismatch)
                <==> !old(epochdata).lens_match())
            &&& !old(epochdata).lens_match() ==> *final(network) == *old(network)
            &&& old(epochdata).lens_match() ==> {
                &&& (r is Ok <==> train_ok(p, states, ups, rews, lr, d))
                &&& (train_ok(p, states, ups, rews, lr, d) ==> final(network)@ == train_result(
                    p,
                    states,
                    ups,
                    rews,
                    lr,
                    d,
                ))
                &&& (!train_ok(p, states, ups, rews, lr, d) ==> r == Err::<(), ReinforceError>(
                    ReinforceError::NumericInstability,
                ) && *final(network) == *old(network))
            }
        },
{
    if epochdata.inprogress {
        return Ok(());
    }
    let ghost p = network@;
    let ghost states = epochdata.states_view();
    let ghost ups = epochdata.ups_view();
    let ghost rews = epochdata.rewards_view();
    let ghost lr = hp.learning_rate as int;
    let ghost d = hp.discount as int;
    let n = epochdata.states.len();
    if epochdata.actions.len() != n || epochdata.rewards.len() != n {
        *gradient = PolicyGradient::zeroed();
        epochdata.clear_trajectory();
        return Err(ReinforceError::DimensionMismatch);
    }
    *gradient = PolicyGradient::zeroed();
    let gvals = match compute_returns(&epochdata.rewards, hp.discount) {
        Ok(v) => v,
        Err(_) => {
            *gradient = PolicyGradient::zeroed();
            epochdata.clear_trajectory();
            return Err(ReinforceError::NumericInstability);
        },
    };
    let mut pw: i64 = FX_ONE;
    for t in 0..n
        invariant
            *epochdata == *old(epochdata),
            *network == *old(network),
            gradient.wf(),
            gradient@ == accum_v(p, states, ups, rews, lr, d, t as int),
            accum_ok(p, states, ups, rews, lr, d, t as int),
            pw as int == pow_v(d, t as int),
            0 <= pw <= FX_ONE,
    {
        let up = epochdata.actions[t].0 == NPCInput::UpKey;
        proof {
            assert(up == ups[t as int]);
            assert(gvals@[t as int] as int == return_v(rews, d, t as int));
        }
        let a1 = match fx_mul(hp.learning_rate, pw) {
            Some(v) => v,
            None => {
                proof {
                    assert(!adj_ok(lr, d, return_v(rews, d, t as int), t as int, up));
                    assert(!accum_ok(p, states, ups, rews, lr, d, t + 1));
                    lemma_accum_ok_prefix(p, states, ups, rews, lr, d, t + 1, n as int);
                }
                *gradient = PolicyGradient::zeroed();
                epochdata.clear_trajectory();
                return Err(ReinforceError::NumericInstability);
            },
        };
        let a2 = match fx_mul(a1, gvals[t]) {
            Some(v) => v,
            None => {
                proof {
                    assert(!adj_ok(lr, d, return_v(rews, d, t as int), t as int, up));
                    assert(!accum_ok(p, states, ups, rews, lr, d, t + 1));
                    lemma_accum_ok_prefix(p, states, ups, rews, lr, d, t + 1, n as int);
                }
                *gradient = PolicyGradient::zeroed();
                epochdata.clear_trajectory();
                return Err(ReinforceError::NumericInstability);
            },
        };
        let adj: i64 = if up {
            a2
        } else {
            match fx_neg(a2) {
                Some(v) => v,
                None => {
                    proof {
                        assert(!adj_ok(lr, d, return_v(rews, d, t as int), t as int, up));
                        assert(!accum_ok(p, states, ups, rews, lr, d, t + 1));
                        lemma_accum_ok_prefix(p, states, ups, rews, lr, d, t + 1, n as int);
                    }
                    *gradient = PolicyGradient::zeroed();
                    epochdata.clear_trajectory();
                    return Err(ReinforceError::NumericInstability);
                },
            }
        };
        proof {
            assert(adj as int == adj_v(lr, d, return_v(rews, d, t as int), t as int, up));
            assert(states[t as int] == epochdata.states@[t as int]@);
        }
        let c = match compute_step_contrib(network, &epochdata.states[t], up, adj) {
            Ok(c) => c,
            Err(_) => {
                proof {
                    assert(!step_ok(p, states[t as int], up, adj as int));
                    assert(!accum_ok(p, states, ups, rews, lr, d, t + 1));
                    lemma_accum_ok_prefix(p, states, ups, rews, lr, d, t + 1, n as int);
                }
                *gradient = PolicyGradient::zeroed();
                epochdata.clear_trajectory();
                return Err(ReinforceError::NumericInstability);
            },
        };
        match add_into(gradient, &c) {
            Ok(()) => {},
            Err(_) => {
                proof {
                    assert(!accum_ok(p, states, ups, rews, lr, d, t + 1));
                    lemma_accum_ok_prefix(p, states, ups, rews, lr, d, t + 1, n as int);
                }
                *gradient = PolicyGradient::zeroed();
                epochdata.clear_trajectory();
                return Err(ReinforceError::NumericInstability);
            },
        };
        pw = match fx_mul(pw, hp.discount) {
            Some(v) => v,
            None => {
                proof {
                    lemma_pow_range(d, t as int + 1);
                    assert(false);
                }
                FX_ONE
            },
        };
        proof {
            lemma_pow_range(d, t as int + 1);
        }
    }
    match apply_gradient(network, gradient) {
        Ok(()) => {},
        Err(_) => {
            *gradient = PolicyGradient::zeroed();
            epochdata.clear_trajectory();
            return Err(ReinforceError::NumericInstability);
        },
    };
    *gradient = PolicyGradient::zeroed();
    epochdata.clear_trajectory();
    Ok(())
}

/// Pointwise negation of a parameter vector.
pub open spec fn neg_seq(a: Seq<int>) -> Seq<int> {
    Seq::new(a.len(), |i: int| -a[i])
}

pub open spec fn neg_mat(a: Seq<Seq<int>>) -> Seq<Seq<int>> {
    Seq::new(a.len(), |i: int| neg_seq(a[i]))
}

/// Pointwise negation of a whole parameter set.
pub open spec fn neg_params(a: GParams) -> GParams {
    GParams {
        biases: neg_seq(a.biases),
        first_layer_weights: neg_mat(a.first_layer_weights),
        second_layer_weights: neg_mat(a.second_layer_weights),
        output_layer_weights: neg_seq(a.output_layer_weights),
    }
}

/// Truncating fixed-point multiplication is odd in its left factor.
pub proof fn lemma_fx_mul_neg_left(a: int, b: int)
    ensures
        fx_mul_v(-a, b) == -fx_mul_v(a, b),
{
    assert((-a) * b == -(a * b)) by (nonlinear_arith);
}

/// The Down-action scalar adjustment is the exact negation of the Up-action
/// one, holding the return, the discount power, and the learning rate fixed.
pub proof fn lemma_adjustment_sign(lr: int, d: int, g: int, t: int)
    ensures
        adj_v(lr, d, g, t, false) == -adj_v(lr, d, g, t, true),
{
}

/// Sign-flip law: when the raw output is exactly one half, the per-timestep
/// gradient contributions of a Down action, driven by the negated
/// adjustment, are the exact pointwise negation of the Up-action
/// contributions on the same state and parameters.
pub proof fn lemma_sign_flip(p: GParams, x: Seq<int>, adj: int)
    requires
        2 * output_v(p, x) == FX_ONE,
    ensures
        step_contrib(p, x, false, -adj) == neg_params(step_contrib(p, x, true, adj)),
{
    let h1 = hidden1_v(p, x);
    let h2 = hidden2_v(p, x);
    let out = output_v(p, x);
    let e = drive_v(p, x, true, adj);
    assert(drive_v(p, x, false, -adj) == -e) by {
        assert(out == FX_ONE - out);
        lemma_fx_mul_neg_left(adj, FX_ONE - out);
    }
    let cu = step_contrib(p, x, true, adj);
    let cd = step_contrib(p, x, false, -adj);
    assert forall|k: int| 0 <= k < 5 implies #[trigger] cd.output_layer_weights[k]
        == -cu.output_layer_weights[k] by {
        lemma_fx_mul_neg_left(e, h2[k]);
    }
    assert(cd.output_layer_weights =~= neg_seq(cu.output_layer_weights));
    assert forall|i: int| 0 <= i < 11 implies #[trigger] cd.biases[i] == -cu.biases[i] by {
        if i < 5 {
            lemma_fx_mul_neg_left(e, h1[i]);
            lemma_fx_mul_neg_left(fx_mul_v(e, h1[i]), FX_ONE - h1[i]);
            lemma_fx_mul_neg_left(
                fx_mul_v(fx_mul_v(e, h1[i]), FX_ONE - h1[i]),
                sum_v(p.output_layer_weights, p.second_layer_weights, h2, i, 5),
            );
        } else if i < 10 {
            let wo = p.output_layer_weights;
            lemma_fx_mul_neg_left(e, wo[i - 5]);
            lemma_fx_mul_neg_left(fx_mul_v(e, wo[i - 5]), h2[i - 5]);
            lemma_fx_mul_neg_left(fx_mul_v(fx_mul_v(e, wo[i - 5]), h2[i - 5]), FX_ONE - h2[i - 5]);
        }
    }
    assert(cd.biases =~= neg_seq(cu.biases));
    assert forall|j: int, k: int| 0 <= j < 5 && 0 <= k < 5 implies #[trigger] cd
        .second_layer_weights[j][k] == -cu.second_layer_weights[j][k] by {
        let wo = p.output_layer_weights;
        lemma_fx_mul_neg_left(e, wo[k]);
        lemma_fx_mul_neg_left(fx_mul_v(e, wo[k]), h2[k]);
        lemma_fx_mul_neg_left(fx_mul_v(fx_mul_v(e, wo[k]), h2[k]), FX_ONE - h2[k]);
        lemma_fx_mul_neg_left(
            fx_mul_v(fx_mul_v(fx_mul_v(e, wo[k]), h2[k]), FX_ONE - h2[k]),
            h1[j],
        );
    }
    assert forall|j: int| 0 <= j < 5 implies #[trigger] cd.second_layer_weights[j] =~= neg_seq(
        cu.second_layer_weights[j],
    ) by {}
    assert(cd.second_layer_weights =~~= neg_mat(cu.second_layer_weights));
    assert forall|m: int, j: int| 0 <= m < 5 && 0 <= j < 5 implies #[trigger] cd
        .first_layer_weights[m][j] == -cu.first_layer_weights[m][j] by {
        lemma_fx_mul_neg_left(e, x[m]);
        lemma_fx_mul_neg_left(fx_mul_v(e, x[m]), h1[j]);
        lemma_fx_mul_neg_left(fx_mul_v(fx_mul_v(e, x[m]), h1[j]), FX_ONE - h1[j]);
        lemma_fx_mul_neg_left(
            fx_mul_v(fx_mul_v(fx_mul_v(e, x[m]), h1[j]), FX_ONE - h1[j]),
            sum_v(p.output_layer_weights, p.second_layer_weights, h2, j, 5),
        );
    }
    assert forall|m: int| 0 <= m < 5 implies #[trigger] cd.first_layer_weights[m] =~= neg_seq(
        cu.first_layer_weights[m],
    ) by {}
    assert(cd.first_layer_weights =~~= neg_mat(cu.first_layer_weights));
    assert(cd =~~= neg_params(cu));
}

} // verus!
