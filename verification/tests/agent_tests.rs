use rlnet::agent::{DQlearning, DQLAgent, TurnRecord};
use rlnet::nn::NeuralNetwork;
use rlnet::tensor::Tensor;

const ONE: i64 = 4294967296;

fn fx(x: f64) -> i64 {
    (x * ONE as f64) as i64
}

fn tiny_agent(exploration: f64) -> DQlearning {
    // a one-action agent over a one-cell board
    let mut nn = NeuralNetwork::new1d(1, "bce".to_string(), "adam".to_string()).unwrap();
    nn.add_dense(1).unwrap();
    nn.add_activation("sigmoid").unwrap();
    DQlearning {
        nn,
        counter: 0,
        sum: 0,
        exploration: fx(exploration),
        learning_rate: fx(0.001),
        discount_factor: fx(0.95),
        last_turn: TurnRecord {
            board: Tensor { shape: vec![], data: vec![] },
            allowed: vec![],
            pred: vec![],
            chosen: 42,
            valid: false,
        },
        epsilon: 43,
    }
}

fn board_1() -> Tensor {
    Tensor::new(vec![1], vec![fx(0.5)]).unwrap()
}

fn board_6x6() -> Tensor {
    Tensor::new(vec![6, 6], vec![0; 36]).unwrap()
}

#[test]
fn single_action_always_chosen() {
    // with one always-legal action the agent must play it every time,
    // whatever the exploration rate
    let mut agent = tiny_agent(0.9);
    for _ in 0..50 {
        let mv = agent.get_move(board_1(), vec![true], 0);
        assert_eq!(mv, 0);
    }
}

#[test]
fn single_legal_among_many_is_forced() {
    // with exactly one legal action among 36 the agent must pick it,
    // whatever the network predicts or the exploration rate draws
    for &expl in &[0.0f64, 0.5, 1.0] {
        let mut agent = DQlearning::new(fx(expl));
        let mut mask = vec![false; 36];
        mask[17] = true;
        for _ in 0..10 {
            let mv = agent.get_move(board_6x6(), mask.clone(), 0);
            assert_eq!(mv, 17);
        }
    }
}

#[test]
fn chosen_move_is_always_legal() {
    let mut agent = DQlearning::new(fx(0.4));
    let mut mask = vec![false; 36];
    mask[3] = true;
    mask[11] = true;
    mask[35] = true;
    for _ in 0..30 {
        let mv = agent.get_move(board_6x6(), mask.clone(), fx(0.1));
        assert!(mask[mv], "agent played illegal move {}", mv);
    }
}

#[test]
fn finish_round_clears_pending_turn() {
    let mut agent = DQlearning::new(fx(0.0));
    let mask = vec![true; 36];
    agent.get_move(board_6x6(), mask, 0);
    agent.finish_round(1);
    assert!(!agent.last_turn.valid);
}

#[test]
fn exploration_rate_validation() {
    let mut agent = DQLAgent::new(fx(0.3));
    assert_eq!(agent.get_exploration_rate(), fx(0.3));
    assert!(agent.set_exploration_rate(fx(0.7)).is_ok());
    assert_eq!(agent.get_exploration_rate(), fx(0.7));
    let e = agent.set_exploration_rate(fx(1.5)).unwrap_err();
    assert_eq!(e, "exploration rate must be in [0,1]!");
    let e2 = agent.set_exploration_rate(fx(-0.1)).unwrap_err();
    assert_eq!(e2, "exploration rate must be in [0,1]!");
    assert_eq!(agent.get_exploration_rate(), fx(0.7));
}

#[test]
fn agent_id_and_round_results() {
    let mut agent = DQLAgent::new(fx(0.2));
    assert_eq!(agent.get_id(), "dqlearning agent");
    let mask = vec![true; 36];
    for result in [-1, 0, 1] {
        agent.get_move(board_6x6(), mask.clone(), 0);
        agent.finish_round(result);
        assert!(!agent.dqlearning.last_turn.valid);
    }
}
