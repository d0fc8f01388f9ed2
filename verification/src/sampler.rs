//! Stochastic action sampling.
//!
//! The policy's raw output is the probability of moving up.  A uniform draw
//! from [0, 1) decides the action, and the probability recorded beside it is
//! the one actually realized for the chosen action: the raw output for Up,
//! one minus the raw output for Down.  That pairing, not the raw output
//! alone, gives the gradient its sign later.

use vstd::prelude::*;

use crate::config::ReinforceError;
use crate::fixed::FX_ONE;
use crate::network::forward;
use crate::network::forward_ok;
use crate::network::output_v;
use crate::network::Network;
use crate::network::NPCInput;
use crate::network::StateVec;
use crate::rng::rng_range_i64;
use crate::trajectory::EpochData;

verus! {

/// Draws a Bernoulli sample from the raw output probability.  The recorded
/// probability is the one realized for the chosen action, and always lies
/// strictly between 0 and 1.
pub fn sample_action(output: i64, rng: &mut rand::rngs::StdRng) -> (r: (NPCInput, i64))
    requires
        0 < output < FX_ONE,
    ensures
        r.0 == NPCInput::UpKey ==> r.1 == output,
        r.0 == NPCInput::DownKey ==> r.1 == FX_ONE - output,
        0 < r.1 < FX_ONE,
        2 * output != FX_ONE ==> ((r.1 == output) <==> (r.0 == NPCInput::UpKey)),
        2 * output != FX_ONE ==> ((r.1 == FX_ONE - output) <==> (r.0 == NPCInput::DownKey)),
{
    let draw = rng_range_i64(rng, 0, FX_ONE);
    if draw < output {
        (NPCInput::UpKey, output)
    } else {
        (NPCInput::DownKey, FX_ONE - output)
    }
}

/// One simulation step of the policy: runs the forward pass on the state the
/// environment supplied, samples an action from the output, and appends the
/// state and the (action, probability) pair to the trajectory.  On numeric
/// instability nothing is recorded and the buffer is unchanged.
pub fn feed_forward(
    network: &Network,
    state: StateVec,
    epoch_data: &mut EpochData,
    rng: &mut rand::rngs::StdRng,
) -> (r: Result<NPCInput, ReinforceError>)
    requires
        network.wf(),
    ensures
        match r {
            Ok(action) => {
                &&& forward_ok(network@, state@)
                &&& final(epoch_data).states@ == old(epoch_data).states@.push(state)
                &&& final(epoch_data).actions@ == old(epoch_data).actions@.push(
                    (
                        action,
                        if action == NPCInput::UpKey {
                            output_v(network@, state@) as i64
                        } else {
                            (FX_ONE - output_v(network@, state@)) as i64
                        },
                    ),
                )
                &&& final(epoch_data).rewards@ == old(epoch_data).rewards@
                &&& final(epoch_data).inprogress == old(epoch_data).inprogress
                &&& final(epoch_data).epoch == old(epoch_data).epoch
            },
            Err(e) => {
                &&& e == ReinforceError::NumericInstability
                &&& !forward_ok(network@, state@)
                &&& *final(epoch_data) == *old(epoch_data)
            },
        },
{
    let acts = match forward(network, &state) {
        Ok(a) => a,
        Err(e) => {
            return Err(e);
        },
    };
    let (action, prob) = sample_action(acts.output, rng);
    push_step(epoch_data, state, action, prob);
    Ok(action)
}

/// Appends one step's state and (action, probability) pair.
fn push_step(epoch_data: &mut EpochData, state: StateVec, action: NPCInput, prob: i64)
    ensures
        final(epoch_data).states@ == old(epoch_data).states@.push(state),
        final(epoch_data).actions@ == old(epoch_data).actions@.push((action, prob)),
        final(epoch_data).rewards@ == old(epoch_data).rewards@,
        final(epoch_data).inprogress == old(epoch_data).inprogress,
        final(epoch_data).epoch == old(epoch_data).epoch,
{
    epoch_data.states.push(state);
    epoch_data.actions.push((action, prob));
}

} // verus!
