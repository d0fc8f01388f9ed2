//! The learning agent: one object owning the policy model, the trajectory
//! buffer, the gradient accumulator, the hyperparameters, and the injected
//! random source.  The environment drives it with explicit calls each tick:
//! `step` to get an action for a state, `record_reward` once per step,
//! `end_episode` when a side reaches the score threshold, and `maybe_train`
//! to run the training pass at the episode boundary.

use vstd::prelude::*;

use crate::config::Hyperparams;
use crate::config::ReinforceError;
use crate::fixed::FX_ONE;
use crate::network::forward;
use crate::network::forward_ok;
use crate::network::hidden1_v;
use crate::network::hidden2_v;
use crate::network::initialize_network;
use crate::network::output_v;
use crate::network::Activations;
use crate::network::Network;
use crate::network::NPCInput;
use crate::network::StateVec;
use crate::reinforce::pass_closed;
use crate::reinforce::train_ok;
use crate::reinforce::train_result;
use crate::reinforce::train_with_reinforce;
use crate::reinforce::zero_params;
use crate::reinforce::PolicyGradient;
use crate::rng::seed_rng;
use crate::sampler::feed_forward;
use crate::fixed::s2i;
use crate::trajectory::EpochData;

verus! {

/// The agent owns everything the learning loop mutates; the environment
/// holds only this one object.
pub struct Agent {
    pub network: Network,
    pub gradient: PolicyGradient,
    pub epoch_data: EpochData,
    pub hp: Hyperparams,
    pub rng: rand::rngs::StdRng,
}

impl Agent {
    pub open spec fn wf(self) -> bool {
        &&& self.network.wf()
        &&& self.gradient.wf()
        &&& self.hp.wf()
    }

    /// A fresh agent: policy parameters drawn uniformly from the configured
    /// initial range, gradient accumulator all zero, trajectory empty, and a
    /// deterministic random source built from the seed.
    pub fn new(hp: Hyperparams, seed: u64) -> (a: Agent)
        requires
            hp.wf(),
        ensures
            a.wf(),
            a.hp == hp,
            forall|i: int|
                0 <= i < 11 ==> -hp.init_half_range <= #[trigger] a.network@.biases[i]
                    < hp.init_half_range,
            forall|i: int, j: int|
                0 <= i < 5 && 0 <= j < 5 ==> -hp.init_half_range
                    <= #[trigger] a.network@.first_layer_weights[i][j] < hp.init_half_range,
            forall|i: int, j: int|
                0 <= i < 5 && 0 <= j < 5 ==> -hp.init_half_range
                    <= #[trigger] a.network@.second_layer_weights[i][j] < hp.init_half_range,
            forall|i: int|
                0 <= i < 5 ==> -hp.init_half_range <= #[trigger] a.network@.output_layer_weights[i]
                    < hp.init_half_range,
            a.gradient@ == zero_params(),
            a.epoch_data.states@.len() == 0,
            a.epoch_data.actions@.len() == 0,
            a.epoch_data.rewards@.len() == 0,
            a.epoch_data.inprogress == true,
            a.epoch_data.epoch == 0,
    {
        let mut rng = seed_rng(seed);
        let network = initialize_network(&mut rng, hp.init_half_range);
        Agent { network, gradient: PolicyGradient::zeroed(), epoch_data: EpochData::new(), hp, rng }
    }

    /// The pure forward pass on the current parameters; mutates nothing.
    pub fn forward(&self, state: &StateVec) -> (r: Result<Activations, ReinforceError>)
        requires
            self.wf(),
        ensures
            match r {
                Ok(a) => {
                    &&& forward_ok(self.network@, state@)
                    &&& s2i(a.hidden1@) == hidden1_v(self.network@, state@)
                    &&& s2i(a.hidden2@) == hidden2_v(self.network@, state@)
                    &&& a.output == output_v(self.network@, state@)
                    &&& 0 < a.output < FX_ONE
                },
                Err(e) => {
                    &&& e == ReinforceError::NumericInstability
                    &&& !forward_ok(self.network@, state@)
                },
            },
    {
        forward(&self.network, state)
    }

    /// One play step: forward pass on the supplied state, stochastic action
    /// sampling, and the trajectory append for this step.
    pub fn step(&mut self, state: StateVec) -> (r: Result<NPCInput, ReinforceError>)
        requires
            old(self).wf(),
        ensures
            final(self).wf(),
            final(self).network == old(self).network,
            final(self).gradient == old(self).gradient,
            final(self).hp == old(self).hp,
            match r {
                Ok(action) => {
                    &&& forward_ok(old(self).network@, state@)
                    &&& final(self).epoch_data.states@ == old(self).epoch_data.states@.push(state)
                    &&& final(self).epoch_data.actions@ == old(self).epoch_data.actions@.push(
                        (
                            action,
                            if action == NPCInput::UpKey {
                                output_v(old(self).network@, state@) as i64
                            } else {
                                (FX_ONE - output_v(old(self).network@, state@)) as i64
                            },
                        ),
                    )
                    &&& final(self).epoch_data.rewards@ == old(self).epoch_data.rewards@
                    &&& final(self).epoch_data.inprogress == old(self).epoch_data.inprogress
                    &&& final(self).epoch_data.epoch == old(self).epoch_data.epoch
                },
                Err(e) => {
                    &&& e == ReinforceError::NumericInstability
                    &&& !forward_ok(old(self).network@, state@)
                    &&& final(self).epoch_data == old(self).epoch_data
                },
            },
    {
        feed_forward(&self.network, state, &mut self.epoch_data, &mut self.rng)
    }

    /// Appends one step's reward: 0 on ordinary steps, the terminal value on
    /// the episode's last step.
    pub fn record_reward(&mut self, reward: i64)
        ensures
            final(self).epoch_data.rewards@ == old(self).epoch_data.rewards@.push(reward),
            final(self).epoch_data.actions@ == old(self).epoch_data.actions@,
            final(self).epoch_data.states@ == old(self).epoch_data.states@,
            final(self).epoch_data.inprogress == old(self).epoch_data.inprogress,
            final(self).epoch_data.epoch == old(self).epoch_data.epoch,
            final(self).network == old(self).network,
            final(self).gradient == old(self).gradient,
            final(self).hp == old(self).hp,
    {
        self.epoch_data.record_reward(reward);
    }

    /// Marks the episode finished; the next `maybe_train` call consumes the
    /// trajectory.
    pub fn end_episode(&mut self)
        requires
            old(self).epoch_data.epoch < u32::MAX,
        ensures
            final(self).epoch_data.inprogress == false,
            final(self).epoch_data.epoch == old(self).epoch_data.epoch + 1,
            final(self).epoch_data.rewards@ == old(self).epoch_data.rewards@,
            final(self).epoch_data.actions@ == old(self).epoch_data.actions@,
            final(self).epoch_data.states@ == old(self).epoch_data.states@,
            final(self).network == old(self).network,
            final(self).gradient == old(self).gradient,
            final(self).hp == old(self).hp,
    {
        self.epoch_data.end_episode();
    }

    /// Runs one REINFORCE training pass if the episode has been marked
    /// finished; otherwise does nothing.
    pub fn maybe_train(&mut self) -> (r: Result<(), ReinforceError>)
        requires
            old(self).wf(),
        ensures
            final(self).wf(),
            final(self).hp == old(self).hp,
            old(self).epoch_data.inprogress ==> r is Ok && final(self).network == old(self).network
                && final(self).gradient == old(self).gradient && final(self).epoch_data == old(
                self,
            ).epoch_data,
            !old(self).epoch_data.inprogress ==> {
                let p = old(self).network@;
                let states = old(self).epoch_data.states_view();
                let ups = old(self).epoch_data.ups_view();
                let rews = old(self).epoch_data.rewards_view();
                let lr = old(self).hp.learning_rate as int;
                let d = old(self).hp.discount as int;
                &&& pass_closed(old(self).epoch_data, final(self).epoch_data, final(self).gradient)
                &&& (r == Err::<(), ReinforceError>(ReinforceError::DimensionMismatch) <==> !old(
                    self,
                ).epoch_data.lens_match())
                &&& !old(self).epoch_data.lens_match() ==> final(self).network == old(self).network
                &&& old(self).epoch_data.lens_match() ==> {
                    &&& (r is Ok <==> train_ok(p, states, ups, rews, lr, d))
                    &&& (train_ok(p, states, ups, rews, lr, d) ==> final(self).network@
                        == train_result(p, states, ups, rews, lr, d))
                    &&& (!train_ok(p, states, ups, rews, lr, d) ==> r == Err::<
                        (),
                        ReinforceError,
                    >(ReinforceError::NumericInstability) && final(self).network == old(
                        self,
                    ).network)
                }
            },
    {
        train_with_reinforce(&mut self.network, &mut self.gradient, &mut self.epoch_data, &self.hp)
    }
}

} // verus!
