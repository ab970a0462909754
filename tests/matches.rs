use strategy_sim::simulator::play_default_match;
use strategy_sim::{AlwaysX, FirstMover, IdentifyAndExploit, Move, Round, Simulator, Strategy};

const ALL: [Move; 3] = [Move::X, Move::Y, Move::Z];

#[test]
fn opposite_swaps_x_and_y() {
    assert_eq!(Move::X.opposite(), Move::Y);
    assert_eq!(Move::Y.opposite(), Move::X);
}

#[test]
fn opposite_keeps_z() {
    assert_eq!(Move::Z.opposite(), Move::Z);
}

#[test]
fn opposite_twice_is_identity() {
    for m in ALL {
        assert_eq!(m.opposite().opposite(), m);
    }
}

#[test]
fn payoff_table_cells() {
    let sim = Simulator::new(1);
    assert_eq!(sim.calculate_scores(Move::X, Move::X), (250, 50));
    assert_eq!(sim.calculate_scores(Move::Y, Move::Y), (50, 250));
    assert_eq!(sim.calculate_scores(Move::Z, Move::Z), (100, 100));
    assert_eq!(sim.calculate_scores(Move::X, Move::Y), (0, 0));
    assert_eq!(sim.calculate_scores(Move::Y, Move::X), (0, 0));
    assert_eq!(sim.calculate_scores(Move::X, Move::Z), (0, 0));
    assert_eq!(sim.calculate_scores(Move::Z, Move::X), (0, 0));
    assert_eq!(sim.calculate_scores(Move::Y, Move::Z), (0, 0));
    assert_eq!(sim.calculate_scores(Move::Z, Move::Y), (0, 0));
}

#[test]
fn payoff_exactly_matching_pairs_score() {
    let sim = Simulator::new(1);
    let mut nonzero = 0;
    for a in ALL {
        for b in ALL {
            let (s1, s2) = sim.calculate_scores(a, b);
            if (s1, s2) != (0, 0) {
                nonzero += 1;
                assert_eq!(a, b);
            }
        }
    }
    assert_eq!(nonzero, 3);
}

#[test]
fn round_totals_are_multiples_of_one_hundred() {
    let sim = Simulator::new(1);
    for a in ALL {
        for b in ALL {
            let (s1, s2) = sim.calculate_scores(a, b);
            assert!([0, 100, 200, 300].contains(&(s1 + s2)));
        }
    }
}

#[test]
fn first_mover_is_side_with_favoured_x() {
    assert_eq!(Simulator::first_mover(Move::X), FirstMover::SideA);
    assert_eq!(Simulator::first_mover(Move::Y), FirstMover::SideB);
    assert_eq!(Simulator::first_mover(Move::Z), FirstMover::SideB);
}

#[test]
fn follower_starts_at_zero() {
    assert_eq!(IdentifyAndExploit::new().round(), 0);
}

#[test]
fn follower_counter_steps_by_one() {
    let mut s = IdentifyAndExploit::new();
    for k in 1..=12u32 {
        s.play_for_favoured_move(Move::Y);
        assert_eq!(s.round(), k);
    }
}

#[test]
fn follower_schedule_with_y() {
    let mut s = IdentifyAndExploit::new();
    let favoured = [2, 5, 7, 10, 12, 15, 17, 20];
    for k in 1..=20 {
        let m = s.play_for_favoured_move(Move::Y);
        if favoured.contains(&k) {
            assert_eq!(m, Move::Y, "round {}", k);
        } else {
            assert_eq!(m, Move::Z, "round {}", k);
        }
    }
}

#[test]
fn follower_plays_whatever_is_favoured() {
    let mut s = IdentifyAndExploit::new();
    assert_eq!(s.play_for_favoured_move(Move::X), Move::Z);
    assert_eq!(s.play_for_favoured_move(Move::X), Move::X);
    assert_eq!(s.play_for_favoured_move(Move::Z), Move::Z);
}

#[test]
fn follower_ignores_notifications() {
    let mut s = IdentifyAndExploit::new();
    s.play_for_favoured_move(Move::Y);
    let r = Round { my_move: Move::Z, opponent_move: Move::Y };
    s.handle_last_round(r, Move::Y);
    assert_eq!(s.round(), 1);
    assert_eq!(s.play_for_favoured_move(Move::Y), Move::Y);
}

#[test]
fn responder_always_plays_y() {
    let mut s = AlwaysX;
    for _ in 0..7 {
        for f in ALL {
            assert_eq!(s.play_for_favoured_move(f), Move::Y);
        }
        let r = Round { my_move: Move::Y, opponent_move: Move::X };
        s.handle_last_round(r, Move::X);
    }
}

#[test]
fn run_zero_rounds() {
    let mut a = IdentifyAndExploit::new();
    let mut b = AlwaysX;
    assert_eq!(Simulator::new(0).run(&mut a, &mut b), (0, 0));
    assert_eq!(a.round(), 0);
}

#[test]
fn run_one_round() {
    let mut a = IdentifyAndExploit::new();
    let mut b = AlwaysX;
    assert_eq!(Simulator::new(1).run(&mut a, &mut b), (0, 0));
    assert_eq!(a.round(), 1);
}

#[test]
fn run_five_rounds() {
    let mut a = IdentifyAndExploit::new();
    let mut b = AlwaysX;
    assert_eq!(Simulator::new(5).run(&mut a, &mut b), (500, 100));
    assert_eq!(a.round(), 5);
}

#[test]
fn run_default_length() {
    let mut a = IdentifyAndExploit::new();
    let mut b = AlwaysX;
    assert_eq!(Simulator::new(101).run(&mut a, &mut b), (10000, 2000));
    assert_eq!(a.round(), 101);
}

#[test]
fn run_with_sides_swapped() {
    // Side A is offered Y and side B is offered X, so a follower on side B
    // plays X on its favoured rounds, which never matches the responder's Y.
    let mut a = AlwaysX;
    let mut b = IdentifyAndExploit::new();
    assert_eq!(Simulator::new(10).run(&mut a, &mut b), (0, 0));
    assert_eq!(b.round(), 10);
}

#[test]
fn run_two_responders() {
    // Both play Y every round; side B moves first and takes the 50.
    let mut a = AlwaysX;
    let mut b = AlwaysX;
    assert_eq!(Simulator::new(3).run(&mut a, &mut b), (750, 150));
}

#[test]
fn default_match_totals() {
    assert_eq!(play_default_match(0), (0, 0));
    assert_eq!(play_default_match(1), (0, 0));
    assert_eq!(play_default_match(2), (250, 50));
    assert_eq!(play_default_match(5), (500, 100));
    assert_eq!(play_default_match(101), (10000, 2000));
}
