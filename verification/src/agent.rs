use vstd::prelude::*;
use crate::fx::{fx_ok, fx_add_s, fx_sub_s, fx_mul_s, fx_add, SCALE};
use crate::vecops::{
    all_fx_ok, vmul, vmul_s, argmax, is_first_max, get_random_true_entry,
};
use crate::layers::Layer;
use crate::losses::Loss;
use crate::nn::{NeuralNetwork, net_train_post, net_fwd_post, net_fwd_pure};
use crate::vecops::lemma_first_max_unique;
use crate::optimizers::Optimizer;
use crate::tensor::Tensor;

verus! {

/// The deep Q-learning agent: a neural network approximates the value of
/// each action on a board, and credit for a move is assigned one step
/// behind, when the next decision or the round's result reveals it.

/// The floor 0.1 a learning target is clamped to: a deliberate guard
/// against zero-gradient saturation, not a rounding of zero.
pub const FX_TENTH: i64 = 429496730;

/// The 0.2 threshold above which a masked-out action's predicted value is
/// counted as an illegal-move error.
pub const FX_FIFTH: i64 = 858993459;

/// The scale 7 that turns a round's result into a reward.
pub const FX_SEVEN: i64 = 30064771072;

/// The agent network's learning rate of one thousandth.
pub const FX_AGENT_LR: i64 = 4294967;

/// The discount factor 0.95.
pub const FX_AGENT_DISCOUNT: i64 = 4080218931;

/// The epsilon of one hundred-millionth.
pub const FX_AGENT_EPSILON: i64 = 43;

/// A legality mask as fixed-point zeros and ones.
pub open spec fn mask_fx_s(m: Seq<bool>) -> Seq<i64> {
    Seq::new(m.len(), |i: int| if m[i] { SCALE } else { 0i64 })
}

fn mask_to_fx(m: &Vec<bool>) -> (r: Vec<i64>)
    ensures
        r@ == mask_fx_s(m@),
        r@.len() == m@.len(),
        all_fx_ok(r@),
{
    let n: usize = m.len();
    let mut r: Vec<i64> = Vec::new();
    let mut i: usize = 0;
    while i < n
        invariant
            i <= n,
            n == m@.len(),
            r@.len() == i,
            forall|j: int| 0 <= j < i ==> r@[j] == (if m@[j] { SCALE } else { 0i64 }),
            all_fx_ok(r@),
        decreases n - i,
    {
        if m[i] {
            r.push(SCALE);
        } else {
            r.push(0);
        }
        i = i + 1;
    }
    proof {
        assert(r@ =~= mask_fx_s(m@));
    }
    r
}

/// The target a learning step trains toward: the prediction masked to zero
/// on illegal entries, with the chosen entry adjusted by the reward and
/// clamped into [0.1, 1].
pub open spec fn clamp_target_s(v: int) -> int {
    if v > SCALE as int {
        SCALE as int
    } else if v < FX_TENTH as int {
        FX_TENTH as int
    } else {
        v
    }
}

pub open spec fn learn_target_s(pred: Seq<i64>, allowed: Seq<i64>, chosen: int, reward: int) -> Seq<
    i64,
> {
    let base = vmul_s(pred, allowed);
    base.update(chosen, clamp_target_s(fx_add_s(base[chosen] as int, reward)) as i64)
}

/// How many entries the network values above the error threshold although
/// the mask forbids them.
pub open spec fn illegal_count_s(pred: Seq<i64>, allowed: Seq<i64>, n: int) -> int
    decreases n,
{
    if n <= 0 {
        0
    } else {
        illegal_count_s(pred, allowed, n - 1) + (
        if fx_mul_s(pred[n - 1] as int, fx_sub_s(SCALE as int, allowed[n - 1] as int))
            > FX_FIFTH as int {
            1int
        } else {
            0int
        })
    }
}

/// The single-slot memory of the last decision: the board it saw, the
/// legality mask as numbers, the predicted action values, the chosen
/// action, and whether the network (not chance) chose it.
pub struct TurnRecord {
    pub board: Tensor,
    pub allowed: Vec<i64>,
    pub pred: Vec<i64>,
    pub chosen: usize,
    pub valid: bool,
}

/// The deep Q-learning core.
pub struct DQlearning {
    pub nn: NeuralNetwork,
    pub counter: usize,
    pub sum: usize,
    pub exploration: i64,
    pub learning_rate: i64,
    pub discount_factor: i64,
    pub last_turn: TurnRecord,
    pub epsilon: i64,
}

/// The network the agent drives, pinned layer by layer: a 6 by 6 board
/// through a bank of 32 kernels of 3 by 3 (no padding), a sigmoid, a
/// flatten, a dense layer down to 100, a sigmoid, a dense layer down to the
/// 36 action values, and a final sigmoid; the cross-entropy loss behind
/// that sigmoid (so training takes the fused from-logits path), the Adam
/// rule on the template and on every parameter tensor, the given learning
/// rate throughout, and a batch size of four.
pub open spec fn agent_net_s(nn: NeuralNetwork, learning_rate: i64) -> bool {
    &&& nn.input_shape@ =~= seq![6usize, 6usize]
    &&& nn.input_len == 36
    &&& nn.cur_out == 36
    &&& nn.loss is Bce
    &&& nn.template is Adam
    &&& nn.learning_rate == learning_rate
    &&& nn.batch_size == 4
    &&& nn.layers@.len() == 7
    &&& (nn.layers@[0] matches Layer::Conv(c) && c.in_rows == 6 && c.in_cols == 6 && c.k_rows == 3
        && c.k_cols == 3 && c.filters == 32 && c.padding == 0 && c.opt_k is Adam
        && c.learning_rate == learning_rate)
    &&& nn.layers@[1] is Sigmoid
    &&& nn.layers@[2] is Flatten
    &&& (nn.layers@[3] matches Layer::Dense(d) && d.in_dim == 512 && d.out_dim == 100
        && d.opt_w is Adam && d.opt_b is Adam && d.learning_rate == learning_rate)
    &&& nn.layers@[4] is Sigmoid
    &&& (nn.layers@[5] matches Layer::Dense(d) && d.in_dim == 100 && d.out_dim == 36
        && d.opt_w is Adam && d.opt_b is Adam && d.learning_rate == learning_rate)
    &&& nn.layers@[6] is Sigmoid
}

/// Build the network `agent_net_s` describes.
fn new(learning_rate: i64) -> (nn: NeuralNetwork)
    requires
        0 < learning_rate <= crate::fx::FX_MAX,
    ensures
        nn.wf(),
        agent_net_s(nn, learning_rate),
{
    proof {
        reveal_strlit("mse");
        reveal_strlit("bce");
        reveal_strlit("cce");
        reveal_strlit("sgd");
        reveal_strlit("noop");
        reveal_strlit("momentum");
        reveal_strlit("adagrad");
        reveal_strlit("rmsprop");
        reveal_strlit("adam");
    }
    let r0 = NeuralNetwork::new2d(
        (6, 6),
        String::from_str("bce"),
        String::from_str("adam"),
    );
    proof {
        assert(r0 is Ok);
    }
    let mut nn: NeuralNetwork = match r0 {
        Ok(n) => n,
        Err(_) => {
            proof {
                assert(false);
            }
            NeuralNetwork {
                input_shape: Vec::new(),
                input_len: 1,
                cur_out: 1,
                layers: Vec::new(),
                loss: Loss::Mse,
                template: Optimizer::Sgd,
                learning_rate: 1,
                batch_size: 1,
            }
        },
    };
    proof {
        reveal_strlit("mse");
        reveal_strlit("bce");
        assert("bce"@[0] == 'b');
        assert("mse"@[0] == 'm');
        assert("bce"@ != "mse"@);
        assert(nn.loss is Bce);
    }
    let r1 = nn.set_batch_size(4);
    proof {
        assert(r1 is Ok);
    }
    let r2 = nn.set_learning_rate(learning_rate);
    proof {
        assert(r2 is Ok);
    }
    let rc = nn.add_convolution((3, 3), 32, 0);
    let ghost s1 = nn.layers@;
    proof {
        assert(rc is Ok);
        assert(nn.cur_out as int == (4 * 4) * 32);
    }
    let rca = nn.add_activation("sigmoid");
    let ghost s2 = nn.layers@;
    proof {
        assert(rca is Ok);
        assert(s2[0] == s2.subrange(0, 1)[0]);
    }
    nn.add_flatten();
    let ghost s3 = nn.layers@;
    proof {
        assert(forall|i: int| 0 <= i < 2 ==> s3[i] == s3.subrange(0, 2)[i]);
    }
    let r3 = nn.add_dense(100);
    let ghost s4 = nn.layers@;
    proof {
        assert(r3 is Ok);
        assert(forall|i: int| 0 <= i < 3 ==> s4[i] == s4.subrange(0, 3)[i]);
    }
    let r4 = nn.add_activation("sigmoid");
    let ghost s5 = nn.layers@;
    proof {
        assert(r4 is Ok);
        assert(forall|i: int| 0 <= i < 4 ==> s5[i] == s5.subrange(0, 4)[i]);
    }
    let r5 = nn.add_dense(36);
    let ghost s6 = nn.layers@;
    proof {
        assert(r5 is Ok);
        assert(forall|i: int| 0 <= i < 5 ==> s6[i] == s6.subrange(0, 5)[i]);
    }
    let r6 = nn.add_activation("sigmoid");
    proof {
        assert(r6 is Ok);
        assert(forall|i: int| 0 <= i < 6 ==> nn.layers@[i] == nn.layers@.subrange(0, 6)[i]);
        assert(nn.layers@.last() is Sigmoid);
        assert(nn.layers@[6] is Sigmoid);
        reveal_strlit("sgd");
        reveal_strlit("noop");
        reveal_strlit("momentum");
        reveal_strlit("adagrad");
        reveal_strlit("rmsprop");
        reveal_strlit("adam");
        assert("adam"@.len() == 4 && "sgd"@.len() == 3 && "momentum"@.len() == 8
            && "adagrad"@.len() == 7 && "rmsprop"@.len() == 7 && "noop"@.len() == 4);
        assert("adam"@[0] == 'a' && "noop"@[0] == 'n');
        assert("adam"@ != "noop"@);
        assert(crate::nn::opt_kind_of_name("adam"@) == 4);
        assert(nn.template.kind() == 4);
        assert(nn.template is Adam);
        assert(nn.layers@[0]->Conv_0.opt_k.kind() == 4);
        assert(nn.layers@[0]->Conv_0.opt_k is Adam);
        assert(nn.layers@[3]->Dense_0.opt_w is Adam);
        assert(nn.layers@[3]->Dense_0.opt_b is Adam);
        assert(nn.layers@[5]->Dense_0.opt_w is Adam);
        assert(nn.layers@[5]->Dense_0.opt_b is Adam);
        assert(agent_net_s(nn, learning_rate));
    }
    nn
}

impl DQlearning {
    pub open spec fn wf(&self) -> bool {
        &&& self.nn.wf()
        &&& fx_ok(self.exploration as int)
        &&& fx_ok(self.learning_rate as int)
        &&& fx_ok(self.discount_factor as int)
        &&& fx_ok(self.epsilon as int)
        &&& self.counter < 1000
        &&& (self.last_turn.valid ==> {
            &&& self.last_turn.board.wf()
            &&& self.last_turn.board.shape@ == self.nn.input_shape@
            &&& self.last_turn.board.data@.len() == self.nn.input_len
            &&& self.last_turn.allowed@.len() == self.nn.cur_out
            &&& self.last_turn.pred@.len() == self.nn.cur_out
            &&& self.last_turn.chosen < self.nn.cur_out
            &&& all_fx_ok(self.last_turn.allowed@)
            &&& all_fx_ok(self.last_turn.pred@)
        })
    }

    /// A fresh agent with the given initial exploration rate and an
    /// untrained network; no turn is pending.
    pub fn new(exploration: i64) -> (r: Self)
        requires
            fx_ok(exploration as int),
        ensures
            r.wf(),
            r.exploration == exploration,
            !r.last_turn.valid,
            r.counter == 0,
            r.sum == 0,
            r.learning_rate == FX_AGENT_LR,
            r.discount_factor == FX_AGENT_DISCOUNT,
            r.epsilon == FX_AGENT_EPSILON,
            agent_net_s(r.nn, FX_AGENT_LR),
    {
        DQlearning {
            sum: 0,
            counter: 0,
            nn: new(FX_AGENT_LR),
            exploration,
            learning_rate: FX_AGENT_LR,
            last_turn: TurnRecord {
                board: Tensor { shape: Vec::new(), data: Vec::new() },
                allowed: Vec::new(),
                pred: Vec::new(),
                chosen: 42,
                valid: false,
            },
            discount_factor: FX_AGENT_DISCOUNT,
            epsilon: FX_AGENT_EPSILON,
        }
    }

    pub fn get_exploration_rate(&self) -> (r: i64)
        ensures
            r == self.exploration,
    {
        self.exploration
    }

    /// Accepts only a rate inside [0, 1]; anything else is refused and the
    /// agent is left unchanged.
    pub fn set_exploration_rate(&mut self, e: i64) -> (r: Result<(), String>)
        requires
            old(self).wf(),
        ensures
            r is Ok <==> 0 <= e <= SCALE,
            r is Ok ==> final(self).exploration == e && final(self).nn == old(self).nn
                && final(self).last_turn == old(self).last_turn,
            r is Err ==> *final(self) == *old(self) && r->Err_0@
                == "exploration rate must be in [0,1]!"@,
            final(self).wf(),
    {
        if e < 0 || e > SCALE {
            return Err(String::from_str("exploration rate must be in [0,1]!"));
        }
        self.exploration = e;
        Ok(())
    }

    fn select_move(&mut self, prediction: &Vec<i64>) -> (r: usize)
        requires
            prediction@.len() >= 1,
        ensures
            is_first_max(prediction@, r as int),
            *final(self) == *old(self),
    {
        argmax(prediction)
    }

    fn last_move_valid(&self) -> (r: bool)
        ensures
            r == self.last_turn.valid,
    {
        self.last_turn.valid
    }

    /// Apply the deferred learning step: train the network on the recorded
    /// board toward the recorded prediction masked by legality, with the
    /// chosen action's value adjusted by the reward and clamped to [0.1, 1].
    fn learn_from_reward(&mut self, reward: i64)
        requires
            old(self).wf(),
            old(self).last_turn.valid,
            fx_ok(reward as int),
        ensures
            final(self).wf(),
            net_train_post(
                old(self).nn.layers@,
                final(self).nn.layers@,
                old(self).last_turn.board.data@,
                learn_target_s(
                    old(self).last_turn.pred@,
                    old(self).last_turn.allowed@,
                    old(self).last_turn.chosen as int,
                    reward as int,
                ),
                old(self).nn.loss,
            ),
            *final(self) == (DQlearning { nn: final(self).nn, ..*old(self) }),
            final(self).nn.input_shape == old(self).nn.input_shape,
            final(self).nn.input_len == old(self).nn.input_len,
            final(self).nn.cur_out == old(self).nn.cur_out,
            final(self).nn.loss == old(self).nn.loss,
    {
        let mut target: Vec<i64> = vmul(&self.last_turn.pred, &self.last_turn.allowed);
        let ghost base = target@;
        let mv: usize = self.last_turn.chosen;
        let mut tv: i64 = fx_add(target[mv], reward);
        if tv > SCALE {
            tv = SCALE;
        } else if tv < FX_TENTH {
            tv = FX_TENTH;
        }
        target.set(mv, tv);
        proof {
            assert(target@ =~= learn_target_s(
                old(self).last_turn.pred@,
                old(self).last_turn.allowed@,
                old(self).last_turn.chosen as int,
                reward as int,
            ));
        }
        let tr = self.nn.train(&self.last_turn.board, target);
        proof {
            assert(tr is Ok);
        }
    }

    /// Count how many forbidden actions the network still values above the
    /// threshold, accumulating over a window of one thousand moves.
    fn count_illegal_moves(&mut self, predicted: &Vec<i64>, allowed: &Vec<i64>)
        requires
            old(self).wf(),
            predicted@.len() == allowed@.len(),
            all_fx_ok(predicted@),
            all_fx_ok(allowed@),
        ensures
            final(self).wf(),
            *final(self) == (DQlearning {
                sum: final(self).sum,
                counter: final(self).counter,
                ..*old(self)
            }),
            ({
                let errs = illegal_count_s(predicted@, allowed@, predicted@.len() as int);
                let ns = if old(self).sum + errs > usize::MAX {
                    usize::MAX as int
                } else {
                    old(self).sum + errs
                };
                if (old(self).counter + 1) % 1000 == 0 {
                    final(self).sum == 0 && final(self).counter == 0
                } else {
                    final(self).sum == ns && final(self).counter == old(self).counter + 1
                }
            }),
    {
        let n: usize = predicted.len();
        let mut errs: usize = 0;
        let mut i: usize = 0;
        while i < n
            invariant
                i <= n,
                n == predicted@.len() == allowed@.len(),
                all_fx_ok(predicted@),
                all_fx_ok(allowed@),
                errs == illegal_count_s(predicted@, allowed@, i as int),
                errs <= i,
            decreases n - i,
        {
            let masked: i64 = crate::fx::fx_mul(
                predicted[i],
                crate::fx::fx_sub(SCALE, allowed[i]),
            );
            if masked > FX_FIFTH {
                errs = errs + 1;
            }
            i = i + 1;
        }
        if errs > usize::MAX - self.sum {
            self.sum = usize::MAX;
        } else {
            self.sum = self.sum + errs;
        }
        self.counter = self.counter + 1;
        if self.counter % 1000 == 0 {
            self.sum = 0;
            self.counter = 0;
        }
    }
}

/// The sequence of network states one decision call runs through: the
/// deferred learning step on a pending turn (one step behind, never
/// collapsed into immediate learning), then the prediction on the given
/// board, then — only when the best-valued action is illegal — the penalty
/// training toward the masked prediction. `ls1` is the layer stack after
/// the deferred step, `ls2` after the prediction caches.
#[verifier::opaque]
pub open spec fn get_move_phases(
    pre: DQlearning,
    post: DQlearning,
    board: Tensor,
    mask: Seq<bool>,
    reward: int,
    r: int,
    ls1: Seq<Layer>,
    ls2: Seq<Layer>,
) -> bool {
    let pred = net_fwd_pure(ls1, board.data@, ls1.len());
    &&& (if pre.last_turn.valid {
        net_train_post(
            pre.nn.layers@,
            ls1,
            pre.last_turn.board.data@,
            learn_target_s(
                pre.last_turn.pred@,
                pre.last_turn.allowed@,
                pre.last_turn.chosen as int,
                reward,
            ),
            pre.nn.loss,
        )
    } else {
        ls1 == pre.nn.layers@
    })
    &&& net_fwd_post(ls1, ls2, board.data@)
    &&& post.last_turn.pred@ == pred
    &&& (post.last_turn.valid ==> post.nn.layers@ == ls2)
    &&& (forall|am: int|
        #[trigger] is_first_max(pred, am) && am < mask.len() && !mask[am]
            ==> !post.last_turn.valid && net_train_post(
            ls2,
            post.nn.layers@,
            board.data@,
            crate::vecops::vmul_s(pred, mask_fx_s(mask)),
            pre.nn.loss,
        ))
    &&& (forall|am: int|
        #[trigger] is_first_max(pred, am) && am < mask.len() && mask[am] ==> post.nn.layers@
            == ls2 && (pre.exploration <= 0 ==> post.last_turn.valid && r == am))
}

/// Everything one decision call warrants: the chosen action is legal and
/// recorded with the board, the numeric mask and the network's prediction;
/// a network-driven turn records the prediction's first maximum; the
/// hyperparameters are untouched; and the network evolved exactly through
/// the phases of `get_move_phases`.
pub open spec fn get_move_post(
    pre: DQlearning,
    post: DQlearning,
    board: Tensor,
    mask: Seq<bool>,
    reward: int,
    r: int,
) -> bool {
    &&& 0 <= r < mask.len()
    &&& mask[r]
    &&& post.last_turn.chosen == r
    &&& post.last_turn.board.data@ == board.data@
    &&& post.last_turn.allowed@ == mask_fx_s(mask)
    &&& (post.last_turn.valid ==> is_first_max(post.last_turn.pred@, r))
    &&& post.exploration == pre.exploration
    &&& post.learning_rate == pre.learning_rate
    &&& post.discount_factor == pre.discount_factor
    &&& post.epsilon == pre.epsilon
    &&& post.nn.cur_out == pre.nn.cur_out
    &&& post.nn.input_shape == pre.nn.input_shape
    &&& post.nn.loss == pre.nn.loss
    &&& (!pre.last_turn.valid && mask.len() == 1 ==> r == 0 && post.nn.layers@.len()
        == pre.nn.layers@.len() && (forall|t: int|
        0 <= t < pre.nn.layers@.len() ==> Layer::params_eq(
            #[trigger] pre.nn.layers@[t],
            post.nn.layers@[t],
        )))
    &&& exists|ls1: Seq<Layer>, ls2: Seq<Layer>|
        #[trigger] get_move_phases(pre, post, board, mask, reward, r, ls1, ls2)
}

impl DQlearning {
    /// Decide the next move. A pending turn first learns from the handed
    /// reward (deferred, one-step-behind credit assignment). The board is
    /// then run through the network; if the best-valued action is illegal
    /// the network is penalized at once (toward the masked prediction) and
    /// a random legal action is played instead; otherwise the best action
    /// is played, unless exploration overrides it with a random legal one
    /// — with zero exploration the legal best action is played and marked
    /// network-driven, deterministically. The chosen action is always
    /// legal, and the decision is recorded as the new pending turn.
    #[verifier::rlimit(100)]
    #[verifier::spinoff_prover]
    pub fn get_move(&mut self, board: Tensor, action_arr: Vec<bool>, reward: i64) -> (r: usize)
        requires
            old(self).wf(),
            board.wf(),
            board.shape@ == old(self).nn.input_shape@,
            action_arr@.len() == old(self).nn.cur_out,
            exists|i: int| 0 <= i < action_arr@.len() && action_arr@[i],
            fx_ok(reward as int),
        ensures
            final(self).wf(),
            r < action_arr@.len(),
            action_arr@[r as int],
            get_move_post(*old(self), *final(self), board, action_arr@, reward as int, r as int),
    {
        let actions: Vec<i64> = mask_to_fx(&action_arr);
        if self.last_move_valid() {
            self.learn_from_reward(reward);
        }
        let ghost ls1 = self.nn.layers@;
        let pr = self.nn.predict(&board);
        proof {
            assert(pr is Ok);
        }
        let predicted: Vec<i64> = match pr {
            Ok(p) => p,
            Err(_) => {
                proof {
                    assert(false);
                }
                Vec::new()
            },
        };
        let ghost ls2 = self.nn.layers@;
        proof {
            assert(predicted@ == net_fwd_pure(ls1, board.data@, ls1.len()));
        }
        self.count_illegal_moves(&predicted, &actions);
        let mut next_move: usize = self.select_move(&predicted);
        let ghost am0 = next_move as int;
        let mut valid_move: bool = true;
        if !action_arr[next_move] {
            let target: Vec<i64> = vmul(&predicted, &actions);
            let tr = self.nn.train(&board, target);
            proof {
                assert(tr is Ok);
            }
            next_move = get_random_true_entry(&action_arr);
            valid_move = false;
            self.last_turn = TurnRecord {
                board,
                allowed: actions,
                pred: predicted,
                chosen: next_move,
                valid: valid_move,
            };
            proof {
                reveal(get_move_phases);
                let pred = net_fwd_pure(ls1, board.data@, ls1.len());
                assert forall|am: int|
                    #[trigger] is_first_max(pred, am) && am < action_arr@.len()
                        && !action_arr@[am] implies !self.last_turn.valid && net_train_post(
                    ls2,
                    self.nn.layers@,
                    board.data@,
                    crate::vecops::vmul_s(pred, mask_fx_s(action_arr@)),
                    old(self).nn.loss,
                ) by {
                    lemma_first_max_unique(pred, am, am0);
                }
                assert forall|am: int|
                    #[trigger] is_first_max(pred, am) && am < action_arr@.len()
                        && action_arr@[am] implies self.nn.layers@ == ls2 && (old(
                    self,
                ).exploration <= 0 ==> self.last_turn.valid && next_move == am) by {
                    lemma_first_max_unique(pred, am, am0);
                }
                assert(get_move_phases(
                    *old(self),
                    *self,
                    board,
                    action_arr@,
                    reward as int,
                    next_move as int,
                    ls1,
                    ls2,
                ));
            }
            return next_move;
        }
        if self.exploration > (crate::rng::rand_u32() as i64) {
            proof {
                assert(self.exploration > 0);
            }
            next_move = get_random_true_entry(&action_arr);
            valid_move = false;
        }
        self.last_turn = TurnRecord {
            board,
            allowed: actions,
            pred: predicted,
            chosen: next_move,
            valid: valid_move,
        };
        proof {
            reveal(get_move_phases);
            let pred = net_fwd_pure(ls1, board.data@, ls1.len());
            assert forall|am: int|
                #[trigger] is_first_max(pred, am) && am < action_arr@.len() && !action_arr@[am]
                implies !self.last_turn.valid && net_train_post(
                ls2,
                self.nn.layers@,
                board.data@,
                crate::vecops::vmul_s(pred, mask_fx_s(action_arr@)),
                old(self).nn.loss,
            ) by {
                lemma_first_max_unique(pred, am, am0);
            }
            assert forall|am: int|
                #[trigger] is_first_max(pred, am) && am < action_arr@.len() && action_arr@[am]
                implies self.nn.layers@ == ls2 && (old(self).exploration <= 0
                ==> self.last_turn.valid && next_move == am) by {
                lemma_first_max_unique(pred, am, am0);
            }
            assert(get_move_phases(
                *old(self),
                *self,
                board,
                action_arr@,
                reward as int,
                next_move as int,
                ls1,
                ls2,
            ));
        }
        next_move
    }

    /// Close the round: if the pending turn was network-driven, learn from
    /// the result (scaled sevenfold as the reward); either way the pending
    /// turn is cleared.
    pub fn finish_round(&mut self, result: i32)
        requires
            old(self).wf(),
            -1 <= result <= 1,
        ensures
            final(self).wf(),
            !final(self).last_turn.valid,
            old(self).last_turn.valid ==> net_train_post(
                old(self).nn.layers@,
                final(self).nn.layers@,
                old(self).last_turn.board.data@,
                learn_target_s(
                    old(self).last_turn.pred@,
                    old(self).last_turn.allowed@,
                    old(self).last_turn.chosen as int,
                    result as int * FX_SEVEN as int,
                ),
                old(self).nn.loss,
            ),
            !old(self).last_turn.valid ==> final(self).nn == old(self).nn,
            final(self).last_turn == (TurnRecord { valid: false, ..old(self).last_turn }),
            *final(self) == (DQlearning {
                nn: final(self).nn,
                last_turn: final(self).last_turn,
                ..*old(self)
            }),
    {
        if self.last_move_valid() {
            self.learn_from_reward((result as i64) * FX_SEVEN);
        }
        self.last_turn.valid = false;
    }
}

/// An agent using deep Q-learning, based on a small neural network.
pub struct DQLAgent {
    pub dqlearning: DQlearning,
}

impl DQLAgent {
    /// A constructor including an initial exploration rate.
    pub fn new(exploration: i64) -> (r: Self)
        requires
            fx_ok(exploration as int),
        ensures
            r.dqlearning.wf(),
            r.dqlearning.exploration == exploration,
            !r.dqlearning.last_turn.valid,
            r.dqlearning.learning_rate == FX_AGENT_LR,
            r.dqlearning.discount_factor == FX_AGENT_DISCOUNT,
            r.dqlearning.epsilon == FX_AGENT_EPSILON,
            agent_net_s(r.dqlearning.nn, FX_AGENT_LR),
    {
        DQLAgent { dqlearning: DQlearning::new(exploration) }
    }

    pub fn get_id(&self) -> (r: String)
        ensures
            r@ == "dqlearning agent"@,
    {
        String::from_str("dqlearning agent")
    }

    /// Report the round's result: -1 for a loss, 0 for a draw, 1 for a win.
    /// A network-driven pending turn learns from the sevenfold-scaled
    /// result before the turn is cleared; otherwise nothing trains.
    pub fn finish_round(&mut self, result: i32)
        requires
            old(self).dqlearning.wf(),
            -1 <= result <= 1,
        ensures
            final(self).dqlearning.wf(),
            !final(self).dqlearning.last_turn.valid,
            old(self).dqlearning.last_turn.valid ==> net_train_post(
                old(self).dqlearning.nn.layers@,
                final(self).dqlearning.nn.layers@,
                old(self).dqlearning.last_turn.board.data@,
                learn_target_s(
                    old(self).dqlearning.last_turn.pred@,
                    old(self).dqlearning.last_turn.allowed@,
                    old(self).dqlearning.last_turn.chosen as int,
                    result as int * FX_SEVEN as int,
                ),
                old(self).dqlearning.nn.loss,
            ),
            !old(self).dqlearning.last_turn.valid ==> final(self).dqlearning.nn == old(
                self,
            ).dqlearning.nn,
            final(self).dqlearning.last_turn == (TurnRecord {
                valid: false,
                ..old(self).dqlearning.last_turn
            }),
            final(self).dqlearning == (DQlearning {
                nn: final(self).dqlearning.nn,
                last_turn: final(self).dqlearning.last_turn,
                ..old(self).dqlearning
            }),
    {
        self.dqlearning.finish_round(result);
    }

    /// Ask for the next move on the given board under the given legality
    /// mask; the returned action is always legal, and the wrapped core
    /// records the decision and runs the learning phases exactly as its own
    /// contract states.
    pub fn get_move(&mut self, board: Tensor, action_arr: Vec<bool>, reward: i64) -> (r: usize)
        requires
            old(self).dqlearning.wf(),
            board.wf(),
            board.shape@ == old(self).dqlearning.nn.input_shape@,
            action_arr@.len() == old(self).dqlearning.nn.cur_out,
            exists|i: int| 0 <= i < action_arr@.len() && action_arr@[i],
            fx_ok(reward as int),
        ensures
            final(self).dqlearning.wf(),
            r < action_arr@.len(),
            action_arr@[r as int],
            get_move_post(
                old(self).dqlearning,
                final(self).dqlearning,
                board,
                action_arr@,
                reward as int,
                r as int,
            ),
    {
        self.dqlearning.get_move(board, action_arr, reward)
    }

    pub fn get_exploration_rate(&self) -> (r: i64)
        ensures
            r == self.dqlearning.exploration,
    {
        self.dqlearning.get_exploration_rate()
    }

    /// Accepts only a rate inside [0, 1].
    pub fn set_exploration_rate(&mut self, e: i64) -> (r: Result<(), String>)
        requires
            old(self).dqlearning.wf(),
        ensures
            r is Ok <==> 0 <= e <= SCALE,
            r is Ok ==> final(self).dqlearning.exploration == e,
            r is Err ==> *final(self) == *old(self) && r->Err_0@
                == "exploration rate must be in [0,1]!"@,
            final(self).dqlearning.wf(),
    {
        if e < 0 || e > SCALE {
            return Err(String::from_str("exploration rate must be in [0,1]!"));
        }
        self.dqlearning.set_exploration_rate(e)
    }
}

} // verus!