use vstd::prelude::*;

verus! {

/// An action is identified by its index among the legal actions of a node.
pub type Action = usize;

/// The ordered sequence of actions visible to both players; it identifies
/// the shared component of an information set.
pub type PublicHistory = Vec<Action>;

/// Tree navigation required of every two-player game: each node exposes its
/// public history, a termination test, the acting player, the number of
/// legal actions, and a transition to a child node.
pub trait GameNode: Sized {
    /// The public action history that identifies this node.
    spec fn hist(&self) -> Seq<Action>;

    /// Histories reachable from the root: every recorded action was legal at
    /// its node and no strict prefix of the history is terminal.
    spec fn wf(&self) -> bool;

    /// Whether the history is terminal.
    spec fn spec_terminal(&self) -> bool;

    /// Number of legal actions at this node, independent of private hands.
    spec fn spec_num_actions(&self) -> usize;

    fn public_history(&self) -> (h: &PublicHistory)
        ensures
            h@ == self.hist(),
    ;

    fn is_terminal(&self) -> (b: bool)
        ensures
            b == self.spec_terminal(),
    ;

    /// The player to act; histories alternate between the two players.
    fn current_player(&self) -> (p: usize)
        ensures
            p == self.hist().len() % 2,
            p < 2,
    ;

    /// Every reachable non-terminal node offers at least one legal action.
    fn num_actions(&self) -> (n: usize)
        ensures
            n == self.spec_num_actions(),
            self.wf() && !self.spec_terminal() ==> n >= 1,
    ;

    /// The legal actions, as the index range `0..num_actions()`.
    fn actions(&self) -> (r: core::ops::Range<Action>)
        ensures
            r.start == 0,
            r.end == self.spec_num_actions(),
    ;

    /// Playing a legal action at a reachable non-terminal node appends it to
    /// the public history and yields a reachable child node.
    fn play(&self, action: Action) -> (c: Self)
        requires
            self.wf(),
            !self.spec_terminal(),
            action < self.spec_num_actions(),
        ensures
            c.hist() == self.hist().push(action),
            c.wf(),
    ;
}

/// The contract every game definition satisfies: it fixes a node type, an
/// initial node, and the cardinality of the private-hand space. Terminal
/// payoff evaluation works on per-hand payoffs; the floating-point weighting
/// of payoffs by reach probabilities lives outside the verified core.
pub trait Game {
    type Node: GameNode;

    /// The root of the game tree: the empty public history.
    fn root() -> (n: Self::Node)
        ensures
            n.hist() == Seq::<Action>::empty(),
            n.wf(),
            !n.spec_terminal(),
    ;

    /// The fixed number of possible private holdings of one player.
    fn num_private_hands() -> (n: usize)
        ensures
            n == Self::spec_num_private_hands(),
            n >= 1,
    ;

    spec fn spec_num_private_hands() -> usize;
}

} // verus!
