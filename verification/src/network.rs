//! The policy model: a 5-input, two-hidden-layer (5 nodes each), 1-output
//! sigmoid network, and its pure forward pass.
//!
//! The forward pass is specified exactly: each hidden node is the activation
//! of the checked fixed-point dot product of the layer's input with the
//! node's weight column, plus the node's bias.  An intermediate sum that
//! leaves `i64` makes the whole pass report numeric instability instead of a
//! value.

use vstd::prelude::*;

use crate::config::ReinforceError;
use crate::fixed::activation;
use crate::fixed::activation_v;
use crate::fixed::dot_ok;
use crate::fixed::dot_v;
use crate::fixed::fx_add;
use crate::fixed::fx_mul;
use crate::fixed::fx_mul_v;
use crate::fixed::in_i64;
use crate::fixed::lemma_dot_ok_prefix;
use crate::fixed::s2i;
use crate::fixed::FX_ONE;
use crate::rng::rng_range_i64;

verus! {

/// The two actions the policy can choose between.
#[derive(Clone, Copy, Debug, PartialEq, Eq, Structural)]
pub enum NPCInput {
    UpKey,
    DownKey,
}

/// One game-state observation, in fixed-point raw units, in the fixed order
/// the network's five inputs expect.
#[derive(Clone, Copy, Debug, PartialEq, Eq, Structural)]
pub struct StateVec {
    pub ball_x: i64,
    pub ball_y: i64,
    pub ball_vx: i64,
    pub ball_vy: i64,
    pub npc_paddle_y: i64,
}

impl View for StateVec {
    type V = Seq<int>;

    open spec fn view(&self) -> Seq<int> {
        seq![
            self.ball_x as int,
            self.ball_y as int,
            self.ball_vx as int,
            self.ball_vy as int,
            self.npc_paddle_y as int,
        ]
    }
}

impl StateVec {
    pub fn new(ball_x: i64, ball_y: i64, ball_vx: i64, ball_vy: i64, npc_paddle_y: i64) -> (s:
        StateVec)
        ensures
            s@ == seq![
                ball_x as int,
                ball_y as int,
                ball_vx as int,
                ball_vy as int,
                npc_paddle_y as int,
            ],
    {
        StateVec { ball_x, ball_y, ball_vx, ball_vy, npc_paddle_y }
    }

    /// The component at position `i` of the fixed input order.
    pub fn get(&self, i: usize) -> (r: i64)
        requires
            i < 5,
        ensures
            r == self@[i as int],
    {
        if i == 0 {
            self.ball_x
        } else if i == 1 {
            self.ball_y
        } else if i == 2 {
            self.ball_vx
        } else if i == 3 {
            self.ball_vy
        } else {
            self.npc_paddle_y
        }
    }
}

/// The mathematical reading of one parameter set: 11 biases (5 for hidden
/// layer 1, 5 for hidden layer 2, 1 for the output node), a 5-by-5 matrix
/// from input to hidden layer 1, a 5-by-5 matrix between the hidden layers,
/// and a 5-vector from hidden layer 2 to the output.
#[verifier::ext_equal]
pub ghost struct GParams {
    pub biases: Seq<int>,
    pub first_layer_weights: Seq<Seq<int>>,
    pub second_layer_weights: Seq<Seq<int>>,
    pub output_layer_weights: Seq<int>,
}

impl GParams {
    pub open spec fn wf(self) -> bool {
        &&& self.biases.len() == 11
        &&& self.first_layer_weights.len() == 5
        &&& forall|i: int|
            0 <= i < 5 ==> (#[trigger] self.first_layer_weights[i]).len() == 5
        &&& self.second_layer_weights.len() == 5
        &&& forall|i: int|
            0 <= i < 5 ==> (#[trigger] self.second_layer_weights[i]).len() == 5
        &&& self.output_layer_weights.len() == 5
    }
}

/// The mathematical reading of a matrix held as a vector of rows.
pub open spec fn mat_v(m: Seq<Vec<i64>>) -> Seq<Seq<int>> {
    m.map_values(|row: Vec<i64>| s2i(row@))
}

/// Whether every row of an executable matrix has 5 entries.
pub open spec fn mat_wf(m: Seq<Vec<i64>>) -> bool {
    m.len() == 5 && forall|i: int| 0 <= i < 5 ==> (#[trigger] m[i])@.len() == 5
}

/// The policy model's parameters.  Weight `first_layer_weights[i][k]` links
/// input `i` to hidden-layer-1 node `k`; `second_layer_weights[j][k]` links
/// hidden-layer-1 node `j` to hidden-layer-2 node `k`.
pub struct Network {
    pub biases: Vec<i64>,
    pub first_layer_weights: Vec<Vec<i64>>,
    pub second_layer_weights: Vec<Vec<i64>>,
    pub output_layer_weights: Vec<i64>,
}

impl View for Network {
    type V = GParams;

    open spec fn view(&self) -> GParams {
        GParams {
            biases: s2i(self.biases@),
            first_layer_weights: mat_v(self.first_layer_weights@),
            second_layer_weights: mat_v(self.second_layer_weights@),
            output_layer_weights: s2i(self.output_layer_weights@),
        }
    }
}

impl Network {
    pub open spec fn wf(self) -> bool {
        &&& self.biases@.len() == 11
        &&& mat_wf(self.first_layer_weights@)
        &&& mat_wf(self.second_layer_weights@)
        &&& self.output_layer_weights@.len() == 5
    }
}

/// Column `k` of a weight matrix: the weights into node `k`.
pub open spec fn col(m: Seq<Seq<int>>, k: int) -> Seq<int> {
    Seq::new(m.len(), |j: int| m[j][k])
}

/// A node's pre-activation sum: the dot product of the layer input with the
/// node's weight column, plus the node's bias.
pub open spec fn node_pre_v(x: Seq<int>, w: Seq<int>, b: int) -> int {
    dot_v(x, w, x.len() as int) + b
}

/// Whether the node's sum stays inside `i64` at every step.
pub open spec fn node_ok(x: Seq<int>, w: Seq<int>, b: int) -> bool {
    dot_ok(x, w, x.len() as int) && in_i64(node_pre_v(x, w, b))
}

/// A node's activation value.
pub open spec fn node_v(x: Seq<int>, w: Seq<int>, b: int) -> int {
    activation_v(node_pre_v(x, w, b))
}

/// Node `k` of a hidden layer whose biases start at `off`.
pub open spec fn layer_node_v(x: Seq<int>, m: Seq<Seq<int>>, bs: Seq<int>, off: int, k: int) -> int {
    node_v(x, col(m, k), bs[off + k])
}

pub open spec fn layer_node_ok(x: Seq<int>, m: Seq<Seq<int>>, bs: Seq<int>, off: int, k: int) -> bool {
    node_ok(x, col(m, k), bs[off + k])
}

/// The 5 activations of a hidden layer.
pub open spec fn layer_v(x: Seq<int>, m: Seq<Seq<int>>, bs: Seq<int>, off: int) -> Seq<int> {
    Seq::new(5, |k: int| layer_node_v(x, m, bs, off, k))
}

pub open spec fn layer_ok(x: Seq<int>, m: Seq<Seq<int>>, bs: Seq<int>, off: int) -> bool {
    forall|k: int| 0 <= k < 5 ==> #[trigger] layer_node_ok(x, m, bs, off, k)
}

/// Hidden layer 1 of the forward pass on state `x`.
pub open spec fn hidden1_v(p: GParams, x: Seq<int>) -> Seq<int> {
    layer_v(x, p.first_layer_weights, p.biases, 0)
}

/// Hidden layer 2 of the forward pass on state `x`.
pub open spec fn hidden2_v(p: GParams, x: Seq<int>) -> Seq<int> {
    layer_v(hidden1_v(p, x), p.second_layer_weights, p.biases, 5)
}

/// The raw network output: the probability assigned to the Up action.
pub open spec fn output_v(p: GParams, x: Seq<int>) -> int {
    node_v(hidden2_v(p, x), p.output_layer_weights, p.biases[10])
}

/// Whether the whole forward pass on state `x` stays inside `i64`.
pub open spec fn forward_ok(p: GParams, x: Seq<int>) -> bool {
    &&& layer_ok(x, p.first_layer_weights, p.biases, 0)
    &&& layer_ok(hidden1_v(p, x), p.second_layer_weights, p.biases, 5)
    &&& node_ok(hidden2_v(p, x), p.output_layer_weights, p.biases[10])
}

/// The forward pass is deterministic: equal parameters and an equal state
/// give the identical activations and output, bit for bit.
pub proof fn lemma_forward_deterministic(p1: GParams, p2: GParams, x1: Seq<int>, x2: Seq<int>)
    requires
        p1 == p2,
        x1 == x2,
    ensures
        hidden1_v(p1, x1) == hidden1_v(p2, x2),
        hidden2_v(p1, x1) == hidden2_v(p2, x2),
        output_v(p1, x1) == output_v(p2, x2),
        forward_ok(p1, x1) == forward_ok(p2, x2),
{
}

/// The activations a forward pass produces, kept because the trainer derives
/// its gradient from them.
pub struct Activations {
    pub hidden1: Vec<i64>,
    pub hidden2: Vec<i64>,
    pub output: i64,
}

/// One hidden layer of the forward pass.
#[verifier::loop_isolation(false)]
fn compute_layer(x: &Vec<i64>, m: &Vec<Vec<i64>>, bs: &Vec<i64>, off: usize) -> (r: Result<
    Vec<i64>,
    ReinforceError,
>)
    requires
        x@.len() == 5,
        mat_wf(m@),
        bs@.len() == 11,
        off + 5 <= 11,
    ensures
        match r {
            Ok(h) => {
                &&& layer_ok(s2i(x@), mat_v(m@), s2i(bs@), off as int)
                &&& h@.len() == 5
                &&& forall|k: int|
                    0 <= k < 5 ==> #[trigger] h@[k] == layer_node_v(
                        s2i(x@),
                        mat_v(m@),
                        s2i(bs@),
                        off as int,
                        k,
                    )
                &&& forall|k: int| 0 <= k < 5 ==> 0 < #[trigger] h@[k] < FX_ONE
            },
            Err(e) => {
                &&& e == ReinforceError::NumericInstability
                &&& !layer_ok(s2i(x@), mat_v(m@), s2i(bs@), off as int)
            },
        },
{
    let ghost xs = s2i(x@);
    let ghost mm = mat_v(m@);
    let ghost bb = s2i(bs@);
    let mut h: Vec<i64> = Vec::new();
    for k in 0..5usize
        invariant
            h@.len() == k,
            forall|kk: int| 0 <= kk < k ==> #[trigger] layer_node_ok(xs, mm, bb, off as int, kk),
            forall|kk: int|
                0 <= kk < k ==> #[trigger] h@[kk] == layer_node_v(xs, mm, bb, off as int, kk),
            forall|kk: int| 0 <= kk < k ==> 0 < #[trigger] h@[kk] < FX_ONE,
    {
        let ghost ck = col(mm, k as int);
        proof {
            assert(ck.len() == 5);
        }
        let mut acc: i64 = 0;
        for i in 0..5usize
            invariant
                dot_ok(xs, ck, i as int),
                acc as int == dot_v(xs, ck, i as int),
        {
            proof {
                assert(ck[i as int] == mm[i as int][k as int]);
                assert(mm[i as int][k as int] == m@[i as int]@[k as int] as int);
            }
            let p: i64 = match fx_mul(x[i], m[i][k]) {
                Some(p) => p,
                None => {
                    proof {
                        assert(!dot_ok(xs, ck, i + 1));
                        lemma_dot_ok_prefix(xs, ck, i + 1, 5);
                        assert(!layer_node_ok(xs, mm, bb, off as int, k as int));
                    }
                    return Err(ReinforceError::NumericInstability);
                },
            };
            acc = match fx_add(acc, p) {
                Some(s) => s,
                None => {
                    proof {
                        assert(dot_v(xs, ck, i + 1) == dot_v(xs, ck, i as int) + fx_mul_v(
                            xs[i as int],
                            ck[i as int],
                        ));
                        assert(!dot_ok(xs, ck, i + 1));
                        lemma_dot_ok_prefix(xs, ck, i + 1, 5);
                        assert(!layer_node_ok(xs, mm, bb, off as int, k as int));
                    }
                    return Err(ReinforceError::NumericInstability);
                },
            };
        }
        let pre: i64 = match fx_add(acc, bs[off + k]) {
            Some(v) => v,
            None => {
                proof {
                    assert(!in_i64(node_pre_v(xs, ck, bb[off + k])));
                    assert(!layer_node_ok(xs, mm, bb, off as int, k as int));
                }
                return Err(ReinforceError::NumericInstability);
            },
        };
        let a = activation(pre);
        h.push(a);
        proof {
            assert(h@[k as int] == layer_node_v(xs, mm, bb, off as int, k as int));
        }
    }
    Ok(h)
}

/// The pure forward pass: from a game state to the probability of moving up,
/// with both hidden layers' activations.  It fails only when an intermediate
/// fixed-point value leaves the representable range.
pub fn forward(network: &Network, state: &StateVec) -> (r: Result<Activations, ReinforceError>)
    requires
        network.wf(),
    ensures
        match r {
            Ok(a) => {
                &&& forward_ok(network@, state@)
                &&& a.hidden1@.len() == 5
                &&& a.hidden2@.len() == 5
                &&& s2i(a.hidden1@) == hidden1_v(network@, state@)
                &&& s2i(a.hidden2@) == hidden2_v(network@, state@)
                &&& a.output == output_v(network@, state@)
                &&& forall|k: int| 0 <= k < 5 ==> 0 < #[trigger] a.hidden1@[k] < FX_ONE
                &&& forall|k: int| 0 <= k < 5 ==> 0 < #[trigger] a.hidden2@[k] < FX_ONE
                &&& 0 < a.output < FX_ONE
            },
            Err(e) => {
                &&& e == ReinforceError::NumericInstability
                &&& !forward_ok(network@, state@)
            },
        },
{
    let mut xs: Vec<i64> = Vec::new();
    xs.push(state.ball_x);
    xs.push(state.ball_y);
    xs.push(state.ball_vx);
    xs.push(state.ball_vy);
    xs.push(state.npc_paddle_y);
    proof {
        assert(s2i(xs@) =~= state@);
    }
    let h1 = match compute_layer(&xs, &network.first_layer_weights, &network.biases, 0) {
        Ok(h) => h,
        Err(e) => {
            return Err(e);
        },
    };
    proof {
        assert(s2i(h1@) =~= hidden1_v(network@, state@));
    }
    let h2 = match compute_layer(&h1, &network.second_layer_weights, &network.biases, 5) {
        Ok(h) => h,
        Err(e) => {
            return Err(e);
        },
    };
    proof {
        assert(s2i(h2@) =~= hidden2_v(network@, state@));
    }
    let out = match output_node(&h2, &network.output_layer_weights, &network.biases) {
        Ok(v) => v,
        Err(e) => {
            return Err(e);
        },
    };
    Ok(Activations { hidden1: h1, hidden2: h2, output: out })
}

/// The output node of the forward pass.
#[verifier::loop_isolation(false)]
fn output_node(h2: &Vec<i64>, wout: &Vec<i64>, bs: &Vec<i64>) -> (r: Result<i64, ReinforceError>)
    requires
        h2@.len() == 5,
        wout@.len() == 5,
        bs@.len() == 11,
    ensures
        match r {
            Ok(v) => {
                &&& node_ok(s2i(h2@), s2i(wout@), s2i(bs@)[10])
                &&& v == node_v(s2i(h2@), s2i(wout@), s2i(bs@)[10])
                &&& 0 < v < FX_ONE
            },
            Err(e) => {
                &&& e == ReinforceError::NumericInstability
                &&& !node_ok(s2i(h2@), s2i(wout@), s2i(bs@)[10])
            },
        },
{
    let ghost xs = s2i(h2@);
    let ghost ws = s2i(wout@);
    let mut acc: i64 = 0;
    for i in 0..5usize
        invariant
            dot_ok(xs, ws, i as int),
            acc as int == dot_v(xs, ws, i as int),
    {
        let p: i64 = match fx_mul(h2[i], wout[i]) {
            Some(p) => p,
            None => {
                proof {
                    assert(!dot_ok(xs, ws, i + 1));
                    lemma_dot_ok_prefix(xs, ws, i + 1, 5);
                }
                return Err(ReinforceError::NumericInstability);
            },
        };
        acc = match fx_add(acc, p) {
            Some(s) => s,
            None => {
                proof {
                    assert(!dot_ok(xs, ws, i + 1));
                    lemma_dot_ok_prefix(xs, ws, i + 1, 5);
                }
                return Err(ReinforceError::NumericInstability);
            },
        };
    }
    let pre: i64 = match fx_add(acc, bs[10]) {
        Some(v) => v,
        None => {
            return Err(ReinforceError::NumericInstability);
        },
    };
    Ok(activation(pre))
}

/// Draws a fresh parameter set: every weight and bias uniform in
/// `[-half_range, half_range)` raw units.
#[verifier::loop_isolation(false)]
pub fn initialize_network(rng: &mut rand::rngs::StdRng, half_range: i64) -> (n: Network)
    requires
        0 < half_range,
    ensures
        n.wf(),
        forall|i: int| 0 <= i < 11 ==> -half_range <= #[trigger] n@.biases[i] < half_range,
        forall|i: int, j: int|
            0 <= i < 5 && 0 <= j < 5 ==> -half_range <= #[trigger] n@.first_layer_weights[i][j]
                < half_range,
        forall|i: int, j: int|
            0 <= i < 5 && 0 <= j < 5 ==> -half_range <= #[trigger] n@.second_layer_weights[i][j]
                < half_range,
        forall|i: int| 0 <= i < 5 ==> -half_range <= #[trigger] n@.output_layer_weights[i] < half_range,
{
    let lo = -half_range;
    let mut biases: Vec<i64> = Vec::new();
    for i in 0..11usize
        invariant
            biases@.len() == i,
            forall|ii: int| 0 <= ii < i ==> lo <= #[trigger] biases@[ii] < half_range,
    {
        biases.push(rng_range_i64(rng, lo, half_range));
    }
    let first_layer_weights = random_matrix(rng, half_range);
    let second_layer_weights = random_matrix(rng, half_range);
    let mut output_layer_weights: Vec<i64> = Vec::new();
    for i in 0..5usize
        invariant
            output_layer_weights@.len() == i,
            forall|ii: int| 0 <= ii < i ==> lo <= #[trigger] output_layer_weights@[ii] < half_range,
    {
        output_layer_weights.push(rng_range_i64(rng, lo, half_range));
    }
    Network { biases, first_layer_weights, second_layer_weights, output_layer_weights }
}

/// Raw width of a paddle, and so of the chart bar: 2.7% of the 720-unit
/// playfield width.
pub const PADDLE_WIDTH_RAW: i64 = 19_440_000;

/// Raw height of the chart bar.
pub const CHART_HEIGHT_RAW: i64 = 10_000_000;

/// The geometry and colour of the training-progress chart bar, as plain
/// fixed-point values.
pub struct ChartSprite {
    pub width: i64,
    pub height: i64,
    pub red: i64,
    pub green: i64,
    pub blue: i64,
}

/// The chart bar the environment may draw while training: one paddle wide,
/// ten units tall, pure green.  This computes the sprite's values; putting
/// it on screen is the environment's business.
pub fn spawn_chart() -> (c: ChartSprite)
    ensures
        c.width == PADDLE_WIDTH_RAW,
        c.height == CHART_HEIGHT_RAW,
        c.red == 0,
        c.green == FX_ONE,
        c.blue == 0,
{
    ChartSprite {
        width: PADDLE_WIDTH_RAW,
        height: CHART_HEIGHT_RAW,
        red: 0,
        green: FX_ONE,
        blue: 0,
    }
}

/// A fresh 5-by-5 weight matrix, uniform in `[-half_range, half_range)`.
#[verifier::loop_isolation(false)]
fn random_matrix(rng: &mut rand::rngs::StdRng, half_range: i64) -> (m: Vec<Vec<i64>>)
    requires
        0 < half_range,
    ensures
        mat_wf(m@),
        forall|i: int, j: int|
            0 <= i < 5 && 0 <= j < 5 ==> -half_range <= #[trigger] mat_v(m@)[i][j] < half_range,
{
    let lo = -half_range;
    let mut m: Vec<Vec<i64>> = Vec::new();
    for i in 0..5usize
        invariant
            m@.len() == i,
            forall|ii: int| 0 <= ii < i ==> (#[trigger] m@[ii])@.len() == 5,
            forall|ii: int, j: int|
                0 <= ii < i && 0 <= j < 5 ==> lo <= #[trigger] m@[ii]@[j] < half_range,
    {
        let mut row: Vec<i64> = Vec::new();
        for j in 0..5usize
            invariant
                row@.len() == j,
                forall|jj: int| 0 <= jj < j ==> lo <= #[trigger] row@[jj] < half_range,
        {
            row.push(rng_range_i64(rng, lo, half_range));
        }
        m.push(row);
    }
    proof {
        assert forall|i: int, j: int| 0 <= i < 5 && 0 <= j < 5 implies -half_range
            <= #[trigger] mat_v(m@)[i][j] < half_range by {
            assert(mat_v(m@)[i][j] == m@[i]@[j] as int);
        }
    }
    m
}

} // verus!
