//! A reinforcement-learning policy core for a paddle-and-ball game.
//!
//! A small fixed-topology neural network (5 inputs, two hidden layers of 5
//! nodes, 1 output) maps a game-state vector to the probability of moving the
//! paddle up.  An action is sampled from that probability each step, and at
//! the end of every episode the REINFORCE policy-gradient algorithm adjusts
//! the network's weights and biases from the recorded trajectory of states,
//! actions, and rewards.
//!
//! All arithmetic is fixed-point over `i64` raw values with one million raw
//! units to 1.0 (see [`fixed`]), so every numeric step of the forward pass,
//! the discounted-return recurrence, and the gradient derivation is stated
//! and proved exactly.  An intermediate value that leaves the `i64` range
//! plays the role a non-finite float plays elsewhere: the training pass that
//! produced it is discarded and the policy parameters are left untouched.

pub mod agent;
pub mod config;
pub mod fixed;
pub mod network;
pub mod reinforce;
pub mod rng;
pub mod sampler;
pub mod trajectory;
