use vstd::prelude::*;
use crate::moves::{Move, Round};
use crate::strategy::{favoured_round, AlwaysX, IdentifyAndExploit, Strategy};

verus! {

/// The move that side A is offered on every round.
pub const FAVOURED_A: Move = Move::Y;

/// The move that side B is offered on every round.
pub const FAVOURED_B: Move = Move::X;

/// The largest score a side can earn in one round.
pub const MAX_ROUND_SCORE: usize = 250;

/// Which side's move goes first into the payoff rule for a whole match.
#[derive(Clone, Copy, Debug, PartialEq, Eq, Structural)]
pub enum FirstMover {
    SideA,
    SideB,
}

/// The side whose favoured move is X scores first.
pub open spec fn first_mover_for(favoured_a: Move) -> FirstMover {
    if favoured_a == Move::X {
        FirstMover::SideA
    } else {
        FirstMover::SideB
    }
}

/// The payoff rule: (first mover's score, second mover's score).
pub open spec fn payoff(first: Move, second: Move) -> (int, int) {
    match (first, second) {
        (Move::X, Move::X) => (250, 50),
        (Move::Y, Move::Y) => (50, 250),
        (Move::Z, Move::Z) => (100, 100),
        _ => (0, 0),
    }
}

/// The scores of one round credited to (side A, side B).
pub open spec fn round_scores(order: FirstMover, move_a: Move, move_b: Move) -> (int, int) {
    match order {
        FirstMover::SideA => payoff(move_a, move_b),
        FirstMover::SideB => (payoff(move_b, move_a).1, payoff(move_b, move_a).0),
    }
}

/// The state of a match after `n` rounds from strategies `a` and `b`:
/// (score of A, score of B, strategy A, strategy B).
pub open spec fn play_rounds<A: Strategy, B: Strategy>(n: nat, a: A, b: B) -> (int, int, A, B)
    decreases n,
{
    if n == 0 {
        (0, 0, a, b)
    } else {
        let prev = play_rounds((n - 1) as nat, a, b);
        let move_a = prev.2.decision(FAVOURED_A);
        let move_b = prev.3.decision(FAVOURED_B);
        let scores = round_scores(first_mover_for(FAVOURED_A), move_a, move_b);
        (
            prev.0 + scores.0,
            prev.1 + scores.1,
            prev.2.after_decide(FAVOURED_A).after_notify(
                Round { my_move: move_a, opponent_move: move_b },
                FAVOURED_A,
            ),
            prev.3.after_decide(FAVOURED_B).after_notify(
                Round { my_move: move_b, opponent_move: move_a },
                FAVOURED_B,
            ),
        )
    }
}

/// Both strategies can decide on each of the first `n` rounds.
pub open spec fn playable<A: Strategy, B: Strategy>(n: nat, a: A, b: B) -> bool {
    forall|i: nat|
        i < n ==> {
            let s = #[trigger] play_rounds(i, a, b);
            s.2.can_decide() && s.3.can_decide()
        }
}

/// Every cell of the payoff table is defined, and exactly the three pairs of
/// equal moves score anything.
pub proof fn lemma_payoff_table(first: Move, second: Move)
    ensures
        payoff(first, second) != (0int, 0int) <==> first == second,
        first == second ==> payoff(first, second).0 > 0 && payoff(first, second).1 > 0,
{
}

/// The two scores of a round add up to 0, 100, 200 or 300, and never to
/// anything else, whichever side moves first.
pub proof fn lemma_round_total(order: FirstMover, move_a: Move, move_b: Move)
    ensures
        ({
            let s = round_scores(order, move_a, move_b);
            let t = s.0 + s.1;
            t == 0 || t == 100 || t == 200 || t == 300
        }),
{
}

/// In a match, the totals of the two sides grow together by 0, 100, 200 or
/// 300 on each round.
pub proof fn lemma_match_round_total<A: Strategy, B: Strategy>(n: nat, a: A, b: B)
    ensures
        ({
            let before = play_rounds(n, a, b);
            let after = play_rounds(n + 1, a, b);
            let t = (after.0 + after.1) - (before.0 + before.1);
            t == 0 || t == 100 || t == 200 || t == 300
        }),
{
    let before = play_rounds(n, a, b);
    lemma_round_total(
        first_mover_for(FAVOURED_A),
        before.2.decision(FAVOURED_A),
        before.3.decision(FAVOURED_B),
    );
}

/// No side earns more than 250 in a round, nor less than nothing.
pub proof fn lemma_round_bounds(order: FirstMover, move_a: Move, move_b: Move)
    ensures
        0 <= round_scores(order, move_a, move_b).0 <= MAX_ROUND_SCORE,
        0 <= round_scores(order, move_a, move_b).1 <= MAX_ROUND_SCORE,
{
}

/// After `n` rounds each total lies between 0 and 250 times `n`.
pub proof fn lemma_totals_bounded<A: Strategy, B: Strategy>(n: nat, a: A, b: B)
    ensures
        0 <= play_rounds(n, a, b).0 <= MAX_ROUND_SCORE * n,
        0 <= play_rounds(n, a, b).1 <= MAX_ROUND_SCORE * n,
    decreases n,
{
    if n > 0 {
        let prev = play_rounds((n - 1) as nat, a, b);
        lemma_totals_bounded((n - 1) as nat, a, b);
        lemma_round_bounds(
            first_mover_for(FAVOURED_A),
            prev.2.decision(FAVOURED_A),
            prev.3.decision(FAVOURED_B),
        );
    }
}

/// Runs matches of a fixed number of rounds.
pub struct Simulator {
    rounds: usize,
}

impl Simulator {
    /// The number of rounds in each match.
    pub closed spec fn round_count(&self) -> nat {
        self.rounds as nat
    }

    pub fn new(rounds: usize) -> (r: Self)
        ensures
            r.round_count() == rounds,
    {
        Simulator { rounds }
    }

    /// Decides once per match which side's move goes first into the payoff rule.
    pub fn first_mover(favoured_a: Move) -> (r: FirstMover)
        ensures
            r == first_mover_for(favoured_a),
    {
        if favoured_a == Move::X {
            FirstMover::SideA
        } else {
            FirstMover::SideB
        }
    }

    /// The payoff rule on (first mover's move, second mover's move).
    pub fn calculate_scores(&self, move1: Move, move2: Move) -> (r: (usize, usize))
        ensures
            r.0 == payoff(move1, move2).0,
            r.1 == payoff(move1, move2).1,
    {
        match (move1, move2) {
            (Move::X, Move::X) => (250, 50),
            (Move::Y, Move::Y) => (50, 250),
            (Move::Z, Move::Z) => (100, 100),
            _ => (0, 0),
        }
    }

    /// Plays a match of `round_count()` rounds and returns the totals of
    /// side A and side B. On each round A decides, then B; the round is scored
    /// with the first mover's move first, and each side is then told of the
    /// round as it saw it.
    pub fn run<A: Strategy, B: Strategy>(&self, strategy1: &mut A, strategy2: &mut B) -> (r: (
        usize,
        usize,
    ))
        requires
            MAX_ROUND_SCORE * self.round_count() <= usize::MAX,
            playable(self.round_count(), *old(strategy1), *old(strategy2)),
        ensures
            r.0 == play_rounds(self.round_count(), *old(strategy1), *old(strategy2)).0,
            r.1 == play_rounds(self.round_count(), *old(strategy1), *old(strategy2)).1,
            *final(strategy1) == play_rounds(self.round_count(), *old(strategy1), *old(strategy2)).2,
            *final(strategy2) == play_rounds(self.round_count(), *old(strategy1), *old(strategy2)).3,
            self.round_count() == 0 ==> r == (0usize, 0usize) && *final(strategy1) == *old(strategy1)
                && *final(strategy2) == *old(strategy2),
    {
        let mut score1: usize = 0;
        let mut score2: usize = 0;
        let player_1 = FAVOURED_A;
        let player_2 = FAVOURED_B;
        let order = Self::first_mover(player_1);
        let mut i: usize = 0;
        while i < self.rounds
            invariant
                i <= self.rounds,
                MAX_ROUND_SCORE * self.round_count() <= usize::MAX,
                playable(self.round_count(), *old(strategy1), *old(strategy2)),
                order == first_mover_for(FAVOURED_A),
                player_1 == FAVOURED_A,
                player_2 == FAVOURED_B,
                score1 == play_rounds(i as nat, *old(strategy1), *old(strategy2)).0,
                score2 == play_rounds(i as nat, *old(strategy1), *old(strategy2)).1,
                *strategy1 == play_rounds(i as nat, *old(strategy1), *old(strategy2)).2,
                *strategy2 == play_rounds(i as nat, *old(strategy1), *old(strategy2)).3,
            decreases self.rounds - i,
        {
            proof {
                lemma_totals_bounded((i + 1) as nat, *old(strategy1), *old(strategy2));
                assert(MAX_ROUND_SCORE * (i + 1) <= MAX_ROUND_SCORE * self.round_count())
                    by (nonlinear_arith)
                    requires i + 1 <= self.round_count();
            }
            let move1 = strategy1.play_for_favoured_move(player_1);
            let move2 = strategy2.play_for_favoured_move(player_2);
            match order {
                FirstMover::SideA => {
                    let (inc1, inc2) = self.calculate_scores(move1, move2);
                    score1 = score1 + inc1;
                    score2 = score2 + inc2;
                },
                FirstMover::SideB => {
                    let (inc2, inc1) = self.calculate_scores(move2, move1);
                    score1 = score1 + inc1;
                    score2 = score2 + inc2;
                },
            }
            strategy1.handle_last_round(Round { my_move: move1, opponent_move: move2 }, player_1);
            strategy2.handle_last_round(Round { my_move: move2, opponent_move: move1 }, player_2);
            i = i + 1;
        }
        (score1, score2)
    }
}

/// How many of the rounds 1 to `n` fall on the follower's favoured schedule.
pub open spec fn favoured_count(n: nat) -> nat
    decreases n,
{
    if n == 0 {
        0
    } else {
        favoured_count((n - 1) as nat) + if favoured_round(n) {
            1nat
        } else {
            0nat
        }
    }
}

/// Two of every five rounds are favoured: rounds 2 and 5 of each stretch of five.
pub proof fn lemma_favoured_count(n: nat)
    ensures
        favoured_count(n) == 2 * (n / 5) + if n % 5 >= 2 {
            1nat
        } else {
            0nat
        },
    decreases n,
{
    if n > 0 {
        lemma_favoured_count((n - 1) as nat);
    }
}

/// A fresh periodic follower (side A) against the fixed responder (side B):
/// after `n` rounds the follower has counted `n` decisions, earns 250 on each
/// favoured round (both play Y, and B moves first) and the responder 50, and
/// every other round (Z against Y) scores nothing.
pub proof fn lemma_default_match(n: nat, a: IdentifyAndExploit, b: AlwaysX)
    requires
        a.rounds_played() == 0,
        n <= u32::MAX,
    ensures
        play_rounds(n, a, b).2.rounds_played() == n,
        play_rounds(n, a, b).0 == 250 * favoured_count(n),
        play_rounds(n, a, b).1 == 50 * favoured_count(n),
    decreases n,
{
    if n > 0 {
        lemma_default_match((n - 1) as nat, a, b);
        play_rounds((n - 1) as nat, a, b).2.lemma_counter_step(FAVOURED_A);
    }
}

/// Plays the default match: a fresh periodic follower as side A against
/// the fixed responder as side B, for `rounds` rounds.
pub fn play_default_match(rounds: usize) -> (r: (usize, usize))
    requires
        rounds <= u32::MAX,
        MAX_ROUND_SCORE * rounds <= usize::MAX,
    ensures
        r.0 == 250 * favoured_count(rounds as nat),
        r.1 == 50 * favoured_count(rounds as nat),
{
    let mut strategy1 = IdentifyAndExploit::new();
    let mut strategy2 = AlwaysX;
    let simulator = Simulator::new(rounds);
    proof {
        assert forall|i: nat| i < rounds implies {
            let s = #[trigger] play_rounds(i, strategy1, strategy2);
            s.2.can_decide() && s.3.can_decide()
        } by {
            lemma_default_match(i, strategy1, strategy2);
        }
        lemma_default_match(rounds as nat, strategy1, strategy2);
    }
    simulator.run(&mut strategy1, &mut strategy2)
}

} // verus!
