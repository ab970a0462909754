use vstd::prelude::*;
use crate::moves::{Move, Round};

verus! {

/// A decision-making agent for one side of a match.
///
/// Its behaviour is a deterministic state machine: `decision` is the move it
/// picks from a state, `after_decide` and `after_notify` the state it moves to.
pub trait Strategy: Sized {
    /// Whether the strategy can take another decision from this state.
    spec fn can_decide(&self) -> bool;

    /// The move picked from this state when offered `favoured_move`.
    spec fn decision(&self, favoured_move: Move) -> Move;

    /// The state after a decision with `favoured_move`.
    spec fn after_decide(&self, favoured_move: Move) -> Self;

    /// The state after being told of a completed round.
    spec fn after_notify(&self, round: Round, favoured_move: Move) -> Self;

    fn play_for_favoured_move(&mut self, favoured_move: Move) -> (r: Move)
        requires
            old(self).can_decide(),
        ensures
            r == old(self).decision(favoured_move),
            *final(self) == old(self).after_decide(favoured_move),
    ;

    fn handle_last_round(&mut self, round: Round, favoured_move: Move)
        ensures
            *final(self) == old(self).after_notify(round, favoured_move),
    ;
}

/// Whether the periodic schedule plays the favoured move on 1-based round `n`.
pub open spec fn favoured_round(n: nat) -> bool {
    n % 5 == 0 || n % 5 == 2
}

/// Counts its decisions and plays the favoured move on every round whose
/// number is 0 or 2 modulo 5, Z on all the others.
pub struct IdentifyAndExploit {
    round: u32,
}

impl IdentifyAndExploit {
    /// The number of decisions taken so far.
    pub closed spec fn rounds_played(&self) -> nat {
        self.round as nat
    }

    pub fn new() -> (r: Self)
        ensures
            r.rounds_played() == 0,
    {
        IdentifyAndExploit { round: 0 }
    }

    pub fn round(&self) -> (r: u32)
        ensures
            r == self.rounds_played(),
    {
        self.round
    }
}

impl Strategy for IdentifyAndExploit {
    open spec fn can_decide(&self) -> bool {
        self.rounds_played() < u32::MAX
    }

    open spec fn decision(&self, favoured_move: Move) -> Move {
        if favoured_round(self.rounds_played() + 1) {
            favoured_move
        } else {
            Move::Z
        }
    }

    closed spec fn after_decide(&self, favoured_move: Move) -> Self {
        IdentifyAndExploit { round: (self.round + 1) as u32 }
    }

    open spec fn after_notify(&self, round: Round, favoured_move: Move) -> Self {
        *self
    }

    fn play_for_favoured_move(&mut self, favoured_move: Move) -> (r: Move) {
        self.round = self.round + 1;
        if self.round % 5 == 0 || self.round % 5 == 2 {
            favoured_move
        } else {
            Move::Z
        }
    }

    fn handle_last_round(&mut self, _round: Round, _favoured_move: Move) {
    }
}

impl IdentifyAndExploit {
    /// Each decision advances the round counter by exactly one, and the move
    /// it picks depends only on the new counter modulo 5.
    pub proof fn lemma_counter_step(&self, favoured_move: Move)
        requires
            self.can_decide(),
        ensures
            self.after_decide(favoured_move).rounds_played() == self.rounds_played() + 1,
            self.decision(favoured_move) == (if favoured_round(self.rounds_played() + 1) {
                favoured_move
            } else {
                Move::Z
            }),
    {
    }
}

/// The state of `s` after `k` decisions, each offered `favoured_move`.
pub open spec fn decide_times<S: Strategy>(s: S, favoured_move: Move, k: nat) -> S
    decreases k,
{
    if k == 0 {
        s
    } else {
        decide_times(s, favoured_move, (k - 1) as nat).after_decide(favoured_move)
    }
}

/// From a fresh follower, the counter after `k` decisions is `k`, and the
/// `k`-th decision (1-based) is the favoured move exactly when `k` is 0 or 2
/// modulo 5, and Z otherwise.
pub proof fn lemma_follower_schedule(s: IdentifyAndExploit, favoured_move: Move, k: nat)
    requires
        s.rounds_played() == 0,
        1 <= k <= u32::MAX,
    ensures
        decide_times(s, favoured_move, k).rounds_played() == k,
        decide_times(s, favoured_move, (k - 1) as nat).decision(favoured_move) == (if favoured_round(k) {
            favoured_move
        } else {
            Move::Z
        }),
    decreases k,
{
    if k > 1 {
        lemma_follower_schedule(s, favoured_move, (k - 1) as nat);
    }
    decide_times(s, favoured_move, (k - 1) as nat).lemma_counter_step(favoured_move);
}

/// Plays Y whatever it is offered and whatever has happened before.
pub struct AlwaysX;

impl Strategy for AlwaysX {
    open spec fn can_decide(&self) -> bool {
        true
    }

    open spec fn decision(&self, favoured_move: Move) -> Move {
        Move::Y
    }

    open spec fn after_decide(&self, favoured_move: Move) -> Self {
        *self
    }

    open spec fn after_notify(&self, round: Round, favoured_move: Move) -> Self {
        *self
    }

    fn play_for_favoured_move(&mut self, _favoured_move: Move) -> (r: Move) {
        Move::Y
    }

    fn handle_last_round(&mut self, _round: Round, _favoured_move: Move) {
    }
}

/// The fixed responder picks Y whatever it is offered, after any number of
/// earlier decisions.
pub proof fn lemma_fixed_responder(s: AlwaysX, earlier: Move, k: nat, favoured_move: Move)
    ensures
        decide_times(s, earlier, k).decision(favoured_move) == Move::Y,
{
}

} // verus!
