use vstd::prelude::*;

use crate::game::{Action, GameNode, PublicHistory};

verus! {

/// First action at every node: the small blind folds, or the big blind
/// folds to a push.
pub const FOLD: usize = 0;

/// Second action at every node: the small blind pushes all-in, or the big
/// blind calls the push.
pub const PUSH_CALL: usize = 1;

/// A node of the heads-up push/fold game tree: the small blind either folds
/// or pushes all-in; after a push the big blind either folds or calls.
pub struct PushFoldNode {
    history: PublicHistory,
}

/// A history is terminal once either player folded or the push was called.
pub open spec fn push_fold_terminal(h: Seq<Action>) -> bool {
    !(h.len() == 0 || (h.len() == 1 && h[0] == PUSH_CALL))
}

/// The histories reachable from the root: only legal actions, and nothing
/// follows a terminal history. A second action exists only after a push.
pub open spec fn push_fold_wf(h: Seq<Action>) -> bool {
    &&& forall|k: int| 0 <= k < h.len() ==> h[k] < 2
    &&& h.len() <= 2
    &&& h.len() == 2 ==> h[0] == PUSH_CALL
}

/// The non-terminal histories of the game, in the order a depth-first walk
/// from the root first meets them.
pub open spec fn spec_push_fold_infosets() -> Seq<Seq<Action>> {
    seq![Seq::<Action>::empty(), seq![PUSH_CALL]]
}

impl PushFoldNode {
    /// The root of the game tree: the empty public history.
    pub fn root() -> (n: Self)
        ensures
            n.hist() == Seq::<Action>::empty(),
            n.wf(),
            !n.spec_terminal(),
    {
        PushFoldNode { history: Vec::new() }
    }

    /// The non-terminal histories reachable from the root, in depth-first
    /// order; a training run allocates one table entry per element.
    pub fn nonterminal_histories() -> (hs: Vec<PublicHistory>)
        ensures
            hs@.map_values(|v: PublicHistory| v@) == spec_push_fold_infosets(),
    {
        let mut hs: Vec<PublicHistory> = Vec::new();
        hs.push(Vec::new());
        let mut h1: PublicHistory = Vec::new();
        h1.push(PUSH_CALL);
        hs.push(h1);
        proof {
            assert(hs@.map_values(|v: PublicHistory| v@) =~~= spec_push_fold_infosets());
        }
        hs
    }
}

/// Every history the tree walk can reach and does not stop at is one of the
/// two enumerated information sets, and both of those are reachable and
/// non-terminal: the pre-pass that allocates the tables misses nothing.
pub proof fn lemma_push_fold_infosets_complete(h: Seq<Action>)
    ensures
        (push_fold_wf(h) && !push_fold_terminal(h)) <==> spec_push_fold_infosets().contains(h),
{
    if push_fold_wf(h) && !push_fold_terminal(h) {
        if h.len() == 0 {
            assert(h =~= spec_push_fold_infosets()[0]);
        } else {
            assert(h =~= spec_push_fold_infosets()[1]);
        }
        assert(spec_push_fold_infosets().contains(h));
    }
    if spec_push_fold_infosets().contains(h) {
        assert(push_fold_wf(h) && !push_fold_terminal(h));
    }
}

impl GameNode for PushFoldNode {
    closed spec fn hist(&self) -> Seq<Action> {
        self.history@
    }

    open spec fn wf(&self) -> bool {
        push_fold_wf(self.hist())
    }

    open spec fn spec_terminal(&self) -> bool {
        push_fold_terminal(self.hist())
    }

    open spec fn spec_num_actions(&self) -> usize {
        2
    }

    fn public_history(&self) -> (h: &PublicHistory) {
        &self.history
    }

    fn is_terminal(&self) -> (b: bool) {
        let len = self.history.len();
        !(len == 0 || (len == 1 && self.history[0] == PUSH_CALL))
    }

    fn current_player(&self) -> (p: usize) {
        self.history.len() % 2
    }

    fn num_actions(&self) -> (n: usize) {
        2
    }

    fn actions(&self) -> (r: core::ops::Range<Action>) {
        0..2
    }

    fn play(&self, action: Action) -> (c: Self) {
        let mut history = self.history.clone();
        history.push(action);
        PushFoldNode { history }
    }
}

} // verus!
