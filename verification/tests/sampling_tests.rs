use pong_policy::agent::Agent;
use pong_policy::config::Hyperparams;
use pong_policy::fixed::FX_ONE;
use pong_policy::network::NPCInput;
use pong_policy::network::StateVec;
use pong_policy::rng::seed_rng;
use pong_policy::sampler::sample_action;

#[test]
fn sampled_probability_is_the_realized_one() {
    // The recorded probability is in (0, 1); it equals the raw output iff
    // the action is Up, and one minus the raw output iff the action is Down.
    let mut rng = seed_rng(5);
    let output = 600_000;
    for _ in 0..200 {
        let (action, prob) = sample_action(output, &mut rng);
        assert!(0 < prob && prob < FX_ONE);
        match action {
            NPCInput::UpKey => assert_eq!(prob, output),
            NPCInput::DownKey => assert_eq!(prob, FX_ONE - output),
        }
        assert_eq!(prob == output, action == NPCInput::UpKey);
        assert_eq!(prob == FX_ONE - output, action == NPCInput::DownKey);
    }
}

#[test]
fn sampling_sees_both_actions_over_many_draws() {
    let mut rng = seed_rng(6);
    let mut saw_up = false;
    let mut saw_down = false;
    for _ in 0..500 {
        let (action, _) = sample_action(FX_ONE / 2, &mut rng);
        match action {
            NPCInput::UpKey => saw_up = true,
            NPCInput::DownKey => saw_down = true,
        }
    }
    assert!(saw_up && saw_down);
}

#[test]
fn stepping_records_state_action_and_probability_in_lockstep() {
    let hp = Hyperparams::defaults();
    let mut agent = Agent::new(hp, 21);
    for i in 0..50i64 {
        let s = StateVec::new(i * 1_000_000, -i * 500_000, 4_000_000, -4_000_000, 0);
        let out = agent.forward(&s).unwrap().output;
        let action = agent.step(s).unwrap();
        agent.record_reward(0);
        let (recorded_action, prob) = agent.epoch_data.actions[i as usize];
        assert_eq!(recorded_action, action);
        assert!(0 < prob && prob < FX_ONE);
        match recorded_action {
            NPCInput::UpKey => assert_eq!(prob, out),
            NPCInput::DownKey => assert_eq!(prob, FX_ONE - out),
        }
        assert_eq!(agent.epoch_data.states[i as usize], s);
    }
    assert_eq!(agent.epoch_data.states.len(), 50);
    assert_eq!(agent.epoch_data.actions.len(), 50);
    assert_eq!(agent.epoch_data.rewards.len(), 50);
}

#[test]
fn full_episode_through_the_agent_trains_and_resumes() {
    let hp = Hyperparams::defaults();
    let mut agent = Agent::new(hp, 33);
    let biases_before = agent.network.biases.clone();
    for i in 0..10i64 {
        let s = StateVec::new(i * 2_000_000, 1_000_000, -4_000_000, 4_000_000, i * 500_000);
        agent.step(s).unwrap();
        agent.record_reward(if i == 9 { -FX_ONE } else { 0 });
    }
    agent.end_episode();
    assert!(!agent.epoch_data.inprogress);
    agent.maybe_train().unwrap();
    assert!(agent.epoch_data.inprogress);
    assert_eq!(agent.epoch_data.states.len(), 0);
    assert_eq!(agent.epoch_data.actions.len(), 0);
    assert_eq!(agent.epoch_data.rewards.len(), 0);
    assert_eq!(agent.epoch_data.epoch, 1);
    assert!(agent.gradient.biases.iter().all(|v| *v == 0));
    // Training moved the parameters: the output bias gains the drive of
    // every timestep.
    assert_ne!(agent.network.biases, biases_before);
}
