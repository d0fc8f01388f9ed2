use pong_policy::agent::Agent;
use pong_policy::config::Hyperparams;
use pong_policy::config::ReinforceError;
use pong_policy::fixed::FX_ONE;
use pong_policy::network::forward;
use pong_policy::network::initialize_network;
use pong_policy::network::Network;
use pong_policy::network::StateVec;
use pong_policy::rng::seed_rng;

fn zero_network() -> Network {
    Network {
        biases: vec![0; 11],
        first_layer_weights: vec![vec![0; 5]; 5],
        second_layer_weights: vec![vec![0; 5]; 5],
        output_layer_weights: vec![0; 5],
    }
}

#[test]
fn zero_network_outputs_one_half() {
    let n = zero_network();
    let s = StateVec::new(123, -456, 789, 0, 42);
    let a = forward(&n, &s).unwrap();
    assert_eq!(a.output, FX_ONE / 2);
    for k in 0..5 {
        assert_eq!(a.hidden1[k], FX_ONE / 2);
        assert_eq!(a.hidden2[k], FX_ONE / 2);
    }
}

#[test]
fn forward_is_deterministic() {
    // Identical weights, biases, and state always give bit-identical results.
    let hp = Hyperparams::defaults();
    let agent = Agent::new(hp, 7);
    let s = StateVec::new(3_000_000, -2_000_000, 4_000_000, -4_000_000, 1_500_000);
    let a1 = agent.forward(&s).unwrap();
    let a2 = agent.forward(&s).unwrap();
    assert_eq!(a1.output, a2.output);
    assert_eq!(a1.hidden1, a2.hidden1);
    assert_eq!(a1.hidden2, a2.hidden2);
}

#[test]
fn forward_output_stays_strictly_inside_unit_interval() {
    let hp = Hyperparams::defaults();
    let agent = Agent::new(hp, 11);
    for i in 0..20i64 {
        let s = StateVec::new(
            i * 50_000_000,
            -i * 40_000_000,
            4_000_000,
            -4_000_000,
            i * 10_000_000,
        );
        let a = agent.forward(&s).unwrap();
        assert!(0 < a.output && a.output < FX_ONE);
    }
}

#[test]
fn forward_reports_numeric_instability_on_overflow() {
    let mut n = zero_network();
    for i in 0..5 {
        for k in 0..5 {
            n.first_layer_weights[i][k] = i64::MAX;
        }
    }
    let s = StateVec::new(i64::MAX, i64::MAX, i64::MAX, i64::MAX, i64::MAX);
    match forward(&n, &s) {
        Err(e) => assert_eq!(e, ReinforceError::NumericInstability),
        Ok(_) => panic!("an overflowing forward pass must be rejected"),
    }
}

#[test]
fn output_bias_shifts_the_output() {
    let mut n = zero_network();
    n.biases[10] = 400_000;
    let s = StateVec::new(0, 0, 0, 0, 0);
    let a = forward(&n, &s).unwrap();
    // Pre-activation of the output node is exactly the output bias here.
    assert_eq!(a.output, 600_000);
}

#[test]
fn initial_parameters_lie_in_the_configured_range() {
    let mut rng = seed_rng(99);
    let half = 50_000;
    let n = initialize_network(&mut rng, half);
    for i in 0..11 {
        assert!(-half <= n.biases[i] && n.biases[i] < half);
    }
    for i in 0..5 {
        assert!(-half <= n.output_layer_weights[i] && n.output_layer_weights[i] < half);
        for j in 0..5 {
            assert!(-half <= n.first_layer_weights[i][j] && n.first_layer_weights[i][j] < half);
            assert!(-half <= n.second_layer_weights[i][j] && n.second_layer_weights[i][j] < half);
        }
    }
    // A draw that ignored the generator would make every bias equal.
    assert!((1..11).any(|i| n.biases[i] != n.biases[0]));
}

#[test]
fn seeding_is_reproducible() {
    let hp = Hyperparams::defaults();
    let a = Agent::new(hp, 12345);
    let hp2 = Hyperparams::defaults();
    let b = Agent::new(hp2, 12345);
    assert_eq!(a.network.biases, b.network.biases);
    assert_eq!(a.network.first_layer_weights, b.network.first_layer_weights);
    assert_eq!(a.network.second_layer_weights, b.network.second_layer_weights);
    assert_eq!(a.network.output_layer_weights, b.network.output_layer_weights);
    let hp3 = Hyperparams::defaults();
    let c = Agent::new(hp3, 54321);
    assert_ne!(a.network.biases, c.network.biases);
}
