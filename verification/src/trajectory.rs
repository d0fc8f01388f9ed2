//! The trajectory buffer for the current episode.
//!
//! During play the buffer grows by one entry per simulation step: the state
//! the network saw, the action chosen together with the probability actually
//! realized for it, and the step's reward (0 except at the episode's end).
//! The trainer consumes and clears all three sequences at once.

use vstd::prelude::*;

use crate::fixed::FX_ONE;
use crate::network::NPCInput;
use crate::network::StateVec;

verus! {

/// The environment's scoring decision for one step: while neither side has
/// reached the threshold the step's reward is 0 and play goes on; once a
/// side has, the episode is over and the terminal reward is +1.0 when the
/// agent's side won, -1.0 when it lost.
///
/// Returns `(episode_over, reward)`.
pub fn episode_outcome(pc_score: u32, npc_score: u32, threshold: u32) -> (r: (bool, i64))
    ensures
        r.0 == (pc_score >= threshold || npc_score >= threshold),
        npc_score >= threshold ==> r.1 == FX_ONE,
        pc_score >= threshold && npc_score < threshold ==> r.1 == -FX_ONE,
        !r.0 ==> r.1 == 0,
{
    if npc_score >= threshold {
        (true, FX_ONE)
    } else if pc_score >= threshold {
        (true, -FX_ONE)
    } else {
        (false, 0)
    }
}

/// The recorded trajectory of one episode, with the episode-lifecycle flags.
pub struct EpochData {
    /// The action taken each step, with the probability realized for it.
    pub actions: Vec<(NPCInput, i64)>,
    /// The state vector the network saw each step.
    pub states: Vec<StateVec>,
    /// The reward attached to each step.
    pub rewards: Vec<i64>,
    /// True while an episode is being played; false once the environment has
    /// signalled its end, until the trainer has consumed the buffer.
    pub inprogress: bool,
    /// How many episodes have finished.
    pub epoch: u32,
}

impl EpochData {
    /// The three sequences line up, one entry of each per step.
    pub open spec fn lens_match(self) -> bool {
        self.actions@.len() == self.states@.len() && self.rewards@.len() == self.states@.len()
    }

    /// The recorded states, read as mathematical state vectors.
    pub open spec fn states_view(self) -> Seq<Seq<int>> {
        self.states@.map_values(|s: StateVec| s@)
    }

    /// Which steps chose the Up action.
    pub open spec fn ups_view(self) -> Seq<bool> {
        self.actions@.map_values(|a: (NPCInput, i64)| a.0 == NPCInput::UpKey)
    }

    /// The recorded rewards, read as mathematical integers.
    pub open spec fn rewards_view(self) -> Seq<int> {
        crate::fixed::s2i(self.rewards@)
    }

    /// An empty buffer, ready for the first episode.
    pub fn new() -> (d: EpochData)
        ensures
            d.actions@ =~= Seq::<(NPCInput, i64)>::empty(),
            d.states@ =~= Seq::<StateVec>::empty(),
            d.rewards@ =~= Seq::<i64>::empty(),
            d.inprogress == true,
            d.epoch == 0,
    {
        EpochData {
            actions: Vec::new(),
            states: Vec::new(),
            rewards: Vec::new(),
            inprogress: true,
            epoch: 0,
        }
    }

    /// Appends one step's reward; the environment calls this exactly once
    /// per step, 0 on every step but the episode's last.
    pub fn record_reward(&mut self, reward: i64)
        ensures
            final(self).rewards@ == old(self).rewards@.push(reward),
            final(self).actions@ == old(self).actions@,
            final(self).states@ == old(self).states@,
            final(self).inprogress == old(self).inprogress,
            final(self).epoch == old(self).epoch,
    {
        self.rewards.push(reward);
    }

    /// Marks the episode finished, so the next training call consumes the
    /// buffer.
    pub fn end_episode(&mut self)
        requires
            old(self).epoch < u32::MAX,
        ensures
            final(self).inprogress == false,
            final(self).epoch == old(self).epoch + 1,
            final(self).rewards@ == old(self).rewards@,
            final(self).actions@ == old(self).actions@,
            final(self).states@ == old(self).states@,
    {
        self.inprogress = false;
        self.epoch = self.epoch + 1;
    }

    /// Drains the buffer: all three sequences emptied at once, play resumed.
    pub fn clear_trajectory(&mut self)
        ensures
            final(self).actions@ =~= Seq::<(NPCInput, i64)>::empty(),
            final(self).states@ =~= Seq::<StateVec>::empty(),
            final(self).rewards@ =~= Seq::<i64>::empty(),
            final(self).inprogress == true,
            final(self).epoch == old(self).epoch,
    {
        self.actions = Vec::new();
        self.states = Vec::new();
        self.rewards = Vec::new();
        self.inprogress = true;
    }
}

} // verus!
