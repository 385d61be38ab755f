use vstd::prelude::*;

use crate::game::{Action, Game, GameNode, PublicHistory};

verus! {

/// First of the two actions at every node: check when no bet is pending,
/// fold otherwise.
pub const CHECK_FOLD: usize = 0;

/// Second of the two actions at every node: bet when no bet is pending,
/// call otherwise.
pub const BET_CALL: usize = 1;

/// Number of cards in the deck; each player is dealt one of them.
pub const KUHN_NUM_HANDS: usize = 3;

/// Three-card poker: each player antes one chip and is dealt one of three
/// ranked cards; one betting round with a single one-chip bet decides who
/// takes the pot.
pub struct KuhnGame {}

/// A node of the game tree, identified by its public history.
pub struct KuhnNode {
    history: PublicHistory,
}

/// A history is terminal once both players checked, a bet was folded to,
/// or a bet was called.
pub open spec fn kuhn_terminal(h: Seq<Action>) -> bool {
    ||| (h.len() == 2 && !(h[0] == CHECK_FOLD && h[1] == BET_CALL))
    ||| h.len() == 3
}

/// The histories reachable from the root: only legal actions, and nothing
/// follows a terminal history. A third action exists only after a check
/// and a bet.
pub open spec fn kuhn_wf(h: Seq<Action>) -> bool {
    &&& forall|k: int| 0 <= k < h.len() ==> h[k] < 2
    &&& h.len() <= 3
    &&& h.len() == 3 ==> h[0] == CHECK_FOLD && h[1] == BET_CALL
}

/// The payoff of `player` at the terminal history `h` when the evaluated
/// player holds `my_card` and the opponent holds `opp_card`: after two
/// checks the higher card wins the ante; after a fold the player left to
/// act wins the ante; after a called bet the higher card wins two chips.
pub open spec fn spec_kuhn_payoff(
    h: Seq<Action>,
    player: usize,
    my_card: usize,
    opp_card: usize,
) -> int {
    if h.len() == 2 && h[0] == CHECK_FOLD && h[1] == CHECK_FOLD {
        if my_card > opp_card {
            1
        } else {
            -1
        }
    } else if h.len() > 0 && h[h.len() - 1] == CHECK_FOLD {
        if h.len() % 2 == player {
            1
        } else {
            -1
        }
    } else {
        if my_card > opp_card {
            2
        } else {
            -2
        }
    }
}

/// The non-terminal histories of the game, in the order a depth-first walk
/// from the root first meets them.
pub open spec fn spec_kuhn_infosets() -> Seq<Seq<Action>> {
    seq![
        Seq::<Action>::empty(),
        seq![CHECK_FOLD],
        seq![CHECK_FOLD, BET_CALL],
        seq![BET_CALL],
    ]
}

impl Game for KuhnGame {
    type Node = KuhnNode;

    fn root() -> (n: KuhnNode) {
        KuhnNode { history: Vec::new() }
    }

    fn num_private_hands() -> (n: usize) {
        KUHN_NUM_HANDS
    }

    open spec fn spec_num_private_hands() -> usize {
        KUHN_NUM_HANDS
    }
}

impl KuhnGame {
    pub fn new() -> (g: Self) {
        Self {}
    }

    /// The payoff of `player` at terminal node `node` for one deal of the
    /// cards, in chips.
    pub fn payoff(node: &KuhnNode, player: usize, my_card: usize, opp_card: usize) -> (p: i32)
        requires
            node.wf(),
            node.spec_terminal(),
            player < 2,
        ensures
            p == spec_kuhn_payoff(node.hist(), player, my_card, opp_card),
    {
        let h = node.public_history();
        let len = h.len();
        if len == 2 && h[0] == CHECK_FOLD && h[1] == CHECK_FOLD {
            if my_card > opp_card {
                1
            } else {
                -1
            }
        } else if h[len - 1] == CHECK_FOLD {
            if len % 2 == player {
                1
            } else {
                -1
            }
        } else {
            if my_card > opp_card {
                2
            } else {
                -2
            }
        }
    }

    /// The non-terminal histories reachable from the root, in depth-first
    /// order; a training run allocates one table entry per element.
    pub fn nonterminal_histories() -> (hs: Vec<PublicHistory>)
        ensures
            hs@.map_values(|v: PublicHistory| v@) == spec_kuhn_infosets(),
    {
        let mut hs: Vec<PublicHistory> = Vec::new();
        hs.push(Vec::new());
        let mut h1: PublicHistory = Vec::new();
        h1.push(CHECK_FOLD);
        hs.push(h1);
        let mut h2: PublicHistory = Vec::new();
        h2.push(CHECK_FOLD);
        h2.push(BET_CALL);
        hs.push(h2);
        let mut h3: PublicHistory = Vec::new();
        h3.push(BET_CALL);
        hs.push(h3);
        proof {
            assert(hs@.map_values(|v: PublicHistory| v@) =~~= spec_kuhn_infosets());
        }
        hs
    }
}

/// Every history the tree walk can reach and does not stop at is one of the
/// four enumerated information sets, and each of those is reachable and
/// non-terminal: the pre-pass that allocates the tables misses nothing.
pub proof fn lemma_kuhn_infosets_complete(h: Seq<Action>)
    ensures
        (kuhn_wf(h) && !kuhn_terminal(h)) <==> spec_kuhn_infosets().contains(h),
{
    if kuhn_wf(h) && !kuhn_terminal(h) {
        if h.len() == 0 {
            assert(h =~= spec_kuhn_infosets()[0]);
        } else if h.len() == 1 {
            if h[0] == CHECK_FOLD {
                assert(h =~= spec_kuhn_infosets()[1]);
            } else {
                assert(h =~= spec_kuhn_infosets()[3]);
            }
        } else {
            assert(h.len() == 2);
            assert(h =~= spec_kuhn_infosets()[2]);
        }
        assert(spec_kuhn_infosets().contains(h));
    }
    if spec_kuhn_infosets().contains(h) {
        assert(kuhn_wf(h) && !kuhn_terminal(h));
    }
}

impl GameNode for KuhnNode {
    closed spec fn hist(&self) -> Seq<Action> {
        self.history@
    }

    open spec fn wf(&self) -> bool {
        kuhn_wf(self.hist())
    }

    open spec fn spec_terminal(&self) -> bool {
        kuhn_terminal(self.hist())
    }

    open spec fn spec_num_actions(&self) -> usize {
        2
    }

    fn public_history(&self) -> (h: &PublicHistory) {
        &self.history
    }

    fn is_terminal(&self) -> (b: bool) {
        let len = self.history.len();
        if len == 2 {
            !(self.history[0] == CHECK_FOLD && self.history[1] == BET_CALL)
        } else {
            len == 3
        }
    }

    fn current_player(&self) -> (p: usize) {
        self.history.len() % 2
    }

    fn num_actions(&self) -> (n: usize) {
        2
    }

    fn actions(&self) -> (r: core::ops::Range<Action>) {
        0..2
    }

    fn play(&self, action: Action) -> (c: Self) {
        let mut history = self.history.clone();
        history.push(action);
        KuhnNode { history }
    }
}

} // verus!
