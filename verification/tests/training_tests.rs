use pong_policy::config::Hyperparams;
use pong_policy::config::ReinforceError;
use pong_policy::fixed::FX_ONE;
use pong_policy::network::Network;
use pong_policy::network::NPCInput;
use pong_policy::network::StateVec;
use pong_policy::reinforce::compute_returns;
use pong_policy::reinforce::train_with_reinforce;
use pong_policy::reinforce::PolicyGradient;
use pong_policy::trajectory::episode_outcome;
use pong_policy::trajectory::EpochData;

fn zero_network() -> Network {
    Network {
        biases: vec![0; 11],
        first_layer_weights: vec![vec![0; 5]; 5],
        second_layer_weights: vec![vec![0; 5]; 5],
        output_layer_weights: vec![0; 5],
    }
}

fn finished_episode(
    states: Vec<StateVec>,
    actions: Vec<(NPCInput, i64)>,
    rewards: Vec<i64>,
) -> EpochData {
    EpochData { actions, states, rewards, inprogress: false, epoch: 1 }
}

fn network_params(n: &Network) -> (Vec<i64>, Vec<Vec<i64>>, Vec<Vec<i64>>, Vec<i64>) {
    (
        n.biases.clone(),
        n.first_layer_weights.clone(),
        n.second_layer_weights.clone(),
        n.output_layer_weights.clone(),
    )
}

#[test]
fn scoring_decides_the_terminal_reward() {
    assert_eq!(episode_outcome(0, 0, 11), (false, 0));
    assert_eq!(episode_outcome(10, 10, 11), (false, 0));
    assert_eq!(episode_outcome(3, 11, 11), (true, FX_ONE));
    assert_eq!(episode_outcome(11, 3, 11), (true, -FX_ONE));
}

#[test]
fn discounted_return_recurrence() {
    // Rewards [0, 0, 0, 1.0] at discount 0.9 give G = [0.729, 0.81, 0.9, 1.0].
    let rewards: Vec<i64> = vec![0, 0, 0, FX_ONE];
    let g = compute_returns(&rewards, 900_000).unwrap();
    assert_eq!(g, vec![729_000, 810_000, 900_000, FX_ONE]);
}

#[test]
fn discounted_return_of_empty_episode_is_empty() {
    let rewards: Vec<i64> = Vec::new();
    let g = compute_returns(&rewards, 900_000).unwrap();
    assert_eq!(g.len(), 0);
}

#[test]
fn discounted_return_overflow_is_instability() {
    let rewards: Vec<i64> = vec![i64::MAX, i64::MAX];
    match compute_returns(&rewards, 900_000) {
        Err(e) => assert_eq!(e, ReinforceError::NumericInstability),
        Ok(_) => panic!("an overflowing return must be rejected"),
    }
}

#[test]
fn training_clears_buffers_and_zeroes_accumulator() {
    // After a successful pass the accumulator is all zero and all three
    // trajectory sequences are empty.
    let mut n = zero_network();
    let mut g = PolicyGradient {
        biases: vec![7; 11],
        first_layer_weights: vec![vec![7; 5]; 5],
        second_layer_weights: vec![vec![7; 5]; 5],
        output_layer_weights: vec![7; 5],
    };
    let s = StateVec::new(1_000_000, 2_000_000, -3_000_000, 500_000, 0);
    let mut d = finished_episode(
        vec![s, s, s],
        vec![
            (NPCInput::UpKey, 500_000),
            (NPCInput::DownKey, 500_000),
            (NPCInput::UpKey, 500_000),
        ],
        vec![0, 0, FX_ONE],
    );
    let hp = Hyperparams::defaults();
    train_with_reinforce(&mut n, &mut g, &mut d, &hp).unwrap();
    assert!(g.biases.iter().all(|v| *v == 0));
    assert!(g.output_layer_weights.iter().all(|v| *v == 0));
    assert!(g.first_layer_weights.iter().all(|row| row.iter().all(|v| *v == 0)));
    assert!(g.second_layer_weights.iter().all(|row| row.iter().all(|v| *v == 0)));
    assert_eq!(d.states.len(), 0);
    assert_eq!(d.actions.len(), 0);
    assert_eq!(d.rewards.len(), 0);
    assert!(d.inprogress);
}

#[test]
fn mismatched_lengths_are_rejected_without_touching_the_model() {
    // 3 states, 3 actions, 2 rewards: DimensionMismatch, parameters
    // byte-for-byte unchanged.
    let mut n = zero_network();
    n.biases[10] = 123_456;
    n.first_layer_weights[2][3] = -789;
    let before = network_params(&n);
    let mut g = PolicyGradient::zeroed();
    let s = StateVec::new(1, 2, 3, 4, 5);
    let mut d = finished_episode(
        vec![s, s, s],
        vec![
            (NPCInput::UpKey, 500_000),
            (NPCInput::UpKey, 500_000),
            (NPCInput::UpKey, 500_000),
        ],
        vec![0, FX_ONE],
    );
    let hp = Hyperparams::defaults();
    match train_with_reinforce(&mut n, &mut g, &mut d, &hp) {
        Err(e) => assert_eq!(e, ReinforceError::DimensionMismatch),
        Ok(()) => panic!("mismatched lengths must be rejected"),
    }
    assert_eq!(network_params(&n), before);
    // The rejected episode's data is discarded.
    assert_eq!(d.states.len(), 0);
    assert_eq!(d.actions.len(), 0);
    assert_eq!(d.rewards.len(), 0);
    assert!(d.inprogress);
}

#[test]
fn single_step_up_episode_matches_the_closed_form() {
    // One timestep, raw output 0.5 (zero parameters), reward +1.0, discount
    // 1.0, learning rate 0.1, action Up.  adjustment = 0.1, pi = 0.5, and the
    // drive is 0.1 * (1 - 0.5) = 0.05.  The chain rule gives: output bias
    // += 0.05; each output weight += 0.05 * 0.5; every delta that carries a
    // weight factor — hidden-2 biases, both weight matrices, hidden-1
    // biases — is 0, because every weight is 0.
    let mut n = zero_network();
    let mut g = PolicyGradient::zeroed();
    let s = StateVec::new(1_000_000, -2_000_000, 3_000_000, -4_000_000, 5_000_000);
    let mut d = finished_episode(vec![s], vec![(NPCInput::UpKey, 500_000)], vec![FX_ONE]);
    let hp = Hyperparams::new(FX_ONE, 100_000, 11, 50_000).unwrap();
    train_with_reinforce(&mut n, &mut g, &mut d, &hp).unwrap();
    assert_eq!(n.biases[10], 50_000);
    for k in 0..5 {
        assert_eq!(n.output_layer_weights[k], 25_000);
        assert_eq!(n.biases[5 + k], 0);
        assert_eq!(n.biases[k], 0);
    }
    for i in 0..5 {
        for j in 0..5 {
            assert_eq!(n.first_layer_weights[i][j], 0);
            assert_eq!(n.second_layer_weights[i][j], 0);
        }
    }
}

#[test]
fn single_step_down_episode_negates_every_delta() {
    // The same setup with the action sampled Down: every delta is the exact
    // negation of the Up-action deltas.
    let mut n = zero_network();
    let mut g = PolicyGradient::zeroed();
    let s = StateVec::new(1_000_000, -2_000_000, 3_000_000, -4_000_000, 5_000_000);
    let mut d = finished_episode(vec![s], vec![(NPCInput::DownKey, 500_000)], vec![FX_ONE]);
    let hp = Hyperparams::new(FX_ONE, 100_000, 11, 50_000).unwrap();
    train_with_reinforce(&mut n, &mut g, &mut d, &hp).unwrap();
    assert_eq!(n.biases[10], -50_000);
    for k in 0..5 {
        assert_eq!(n.output_layer_weights[k], -25_000);
        assert_eq!(n.biases[5 + k], 0);
        assert_eq!(n.biases[k], 0);
    }
    for i in 0..5 {
        for j in 0..5 {
            assert_eq!(n.first_layer_weights[i][j], 0);
            assert_eq!(n.second_layer_weights[i][j], 0);
        }
    }
}

#[test]
fn single_step_chain_rule_with_output_weights() {
    // Output weights 0.5, everything else 0; one Up timestep, reward +1.0,
    // discount 1.0, learning rate 0.1.  Hidden activations are all 0.5, the
    // output pre-activation is 5 * (0.5 * 0.5) = 1.25, so the raw output is
    // (1.25 + 2) / 4 = 0.8125.  adjustment = 0.1 and the drive is
    // e = 0.1 * (1 - 0.8125) = 0.01875 (raw 18 750).  Left-to-right with
    // truncation: output bias += 18 750; each output weight +=
    // e*h2 = 9 375; each hidden-2 bias += e*Wout*h2*(1-h2): 18 750 -> 9 375
    // -> 4 687 -> 2 343; each hidden-to-hidden weight goes one factor
    // further, *h1: 1 171.  The hidden-1 sums carry the zero
    // hidden-to-hidden weights, so hidden-1 biases and input weights move 0.
    let mut n = zero_network();
    for k in 0..5 {
        n.output_layer_weights[k] = 500_000;
    }
    let mut g = PolicyGradient::zeroed();
    let s = StateVec::new(1_000_000, -2_000_000, 3_000_000, -4_000_000, 5_000_000);
    let mut d = finished_episode(vec![s], vec![(NPCInput::UpKey, 812_500)], vec![FX_ONE]);
    let hp = Hyperparams::new(FX_ONE, 100_000, 11, 50_000).unwrap();
    train_with_reinforce(&mut n, &mut g, &mut d, &hp).unwrap();
    assert_eq!(n.biases[10], 18_750);
    for k in 0..5 {
        assert_eq!(n.output_layer_weights[k], 500_000 + 9_375);
        assert_eq!(n.biases[5 + k], 2_343);
        assert_eq!(n.biases[k], 0);
    }
    for i in 0..5 {
        for j in 0..5 {
            assert_eq!(n.first_layer_weights[i][j], 0);
            assert_eq!(n.second_layer_weights[i][j], 1_171);
        }
    }
}

#[test]
fn discount_powers_scale_earlier_steps() {
    // Two Up steps, reward only at the end, discount 0.5, learning rate 1.0,
    // zero network.  G = [0.5, 1.0]; adjustment_t = d^t * G_t = 0.5 at both
    // steps, so both steps contribute the same deltas: output bias gains
    // 2 * 0.5 * 0.5 = 0.5.
    let mut n = zero_network();
    let mut g = PolicyGradient::zeroed();
    let s = StateVec::new(0, 0, 0, 0, 0);
    let mut d = finished_episode(
        vec![s, s],
        vec![(NPCInput::UpKey, 500_000), (NPCInput::UpKey, 500_000)],
        vec![0, FX_ONE],
    );
    let hp = Hyperparams::new(500_000, FX_ONE, 11, 50_000).unwrap();
    train_with_reinforce(&mut n, &mut g, &mut d, &hp).unwrap();
    assert_eq!(n.biases[10], 500_000);
}

#[test]
fn training_instability_leaves_the_model_untouched() {
    let mut n = zero_network();
    n.biases[10] = 777;
    let before = network_params(&n);
    let mut g = PolicyGradient::zeroed();
    let s = StateVec::new(0, 0, 0, 0, 0);
    let mut d = finished_episode(
        vec![s, s],
        vec![(NPCInput::UpKey, 500_000), (NPCInput::UpKey, 500_000)],
        vec![i64::MAX, i64::MAX],
    );
    let hp = Hyperparams::defaults();
    match train_with_reinforce(&mut n, &mut g, &mut d, &hp) {
        Err(e) => assert_eq!(e, ReinforceError::NumericInstability),
        Ok(()) => panic!("an overflowing pass must be rejected"),
    }
    assert_eq!(network_params(&n), before);
    assert!(g.biases.iter().all(|v| *v == 0));
    assert_eq!(d.states.len(), 0);
    assert!(d.inprogress);
}

#[test]
fn empty_finished_episode_trains_to_a_no_op() {
    let mut n = zero_network();
    n.biases[0] = -42;
    let before = network_params(&n);
    let mut g = PolicyGradient::zeroed();
    let mut d = finished_episode(Vec::new(), Vec::new(), Vec::new());
    let hp = Hyperparams::defaults();
    train_with_reinforce(&mut n, &mut g, &mut d, &hp).unwrap();
    assert_eq!(network_params(&n), before);
    assert!(d.inprogress);
}

#[test]
fn training_waits_for_the_episode_to_finish() {
    let mut n = zero_network();
    let before = network_params(&n);
    let mut g = PolicyGradient::zeroed();
    let s = StateVec::new(1, 2, 3, 4, 5);
    let mut d = EpochData {
        actions: vec![(NPCInput::UpKey, 500_000)],
        states: vec![s],
        rewards: vec![0],
        inprogress: true,
        epoch: 0,
    };
    let hp = Hyperparams::defaults();
    train_with_reinforce(&mut n, &mut g, &mut d, &hp).unwrap();
    assert_eq!(network_params(&n), before);
    // Nothing is consumed while the episode is still in progress.
    assert_eq!(d.states.len(), 1);
    assert_eq!(d.rewards.len(), 1);
}
