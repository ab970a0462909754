use vstd::prelude::*;

verus! {

/// One of the three choices a side can make in a round.
#[derive(Clone, Copy, Debug, PartialEq, Eq, Structural)]
pub enum Move {
    X,
    Y,
    Z,
}

/// The opposite of a move: X and Y swap, Z stays.
pub open spec fn opposite_of(m: Move) -> Move {
    match m {
        Move::X => Move::Y,
        Move::Y => Move::X,
        Move::Z => Move::Z,
    }
}

impl Move {
    pub fn opposite(self) -> (r: Self)
        ensures
            r == opposite_of(self),
    {
        match self {
            Move::X => Move::Y,
            Move::Y => Move::X,
            Move::Z => Move::Z,
        }
    }
}

/// Taking the opposite twice gives the move back; Z is its own opposite and
/// X and Y are each other's opposite.
pub proof fn lemma_opposite_involution(m: Move)
    ensures
        opposite_of(opposite_of(m)) == m,
        opposite_of(Move::Z) == Move::Z,
        opposite_of(Move::X) == Move::Y,
        opposite_of(Move::Y) == Move::X,
        m != Move::Z ==> opposite_of(m) != m,
{
}

/// One completed round as seen by one side: its own move and the other side's.
#[derive(Clone, Copy, Debug, PartialEq, Eq, Structural)]
pub struct Round {
    pub my_move: Move,
    pub opponent_move: Move,
}

} // verus!
