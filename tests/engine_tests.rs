use engine::action::{Action, EngineError};
use engine::board::{GameEngine, Piece};
use engine::eval::{PIECE_SCORE, REACH_SCORE, WIN_SCORE};
use engine::search::INF;

fn put(e: &mut GameEngine, index: u8, value: Piece) {
    assert_eq!(e.apply_action(&Action::Put { index, value }), Ok(()));
}

fn board_with(cells: &[(u8, Piece)]) -> GameEngine {
    let mut e = GameEngine::new();
    for &(i, p) in cells {
        put(&mut e, i, p);
    }
    e
}

fn opponent(p: Piece) -> Piece {
    match p {
        Piece::Player1 => Piece::Player2,
        Piece::Player2 => Piece::Player1,
        Piece::Empty => Piece::Empty,
    }
}

// Full-width negamax without pruning, first strictly greatest wins.
fn full_width(e: &GameEngine, player: Piece, depth: usize) -> (i32, Option<Action>) {
    let score = e.evaluate(player);
    if depth == 0 || score.abs() >= WIN_SCORE / 2 {
        return (score, None);
    }
    let legal = e.generate_legal_actions(player);
    if legal.is_empty() {
        return (score, None);
    }
    let mut best = -INF;
    let mut best_action = None;
    for a in legal {
        let mut next = e.duplicate();
        if next.apply_action(&a).is_err() {
            continue;
        }
        let v = -full_width(&next, opponent(player), depth - 1).0;
        if v > best {
            best = v;
            best_action = Some(a);
        }
    }
    (best, best_action)
}

#[test]
fn new_board_is_empty() {
    let e = GameEngine::new();
    assert_eq!(e.get_board(), vec![0u8; 25]);
    assert_eq!(e.get_hand_count(Piece::Player1), 5);
    assert_eq!(e.get_hand_count(Piece::Player2), 5);
}

#[test]
fn reset_clears_board() {
    let mut e = board_with(&[(3, Piece::Player1), (7, Piece::Player2)]);
    e.reset();
    assert_eq!(e.get_board(), vec![0u8; 25]);
}

#[test]
fn get_board_reports_codes() {
    let e = board_with(&[(0, Piece::Player1), (24, Piece::Player2)]);
    let b = e.get_board();
    assert_eq!(b[0], 1);
    assert_eq!(b[24], 2);
    assert_eq!(b.iter().filter(|&&c| c == 0).count(), 23);
}

#[test]
fn hand_count_follows_pieces_on_board() {
    let mut e = GameEngine::new();
    for (k, i) in [0u8, 2, 4, 10, 12].iter().enumerate() {
        put(&mut e, *i, Piece::Player1);
        assert_eq!(e.get_hand_count(Piece::Player1) as usize, 4 - k);
        assert_eq!(e.get_hand_count(Piece::Player2), 5);
    }
    put(&mut e, 14, Piece::Player1);
    assert_eq!(e.get_hand_count(Piece::Player1), 0);
}

#[test]
fn generated_puts_are_accepted() {
    let e = board_with(&[(6, Piece::Player1), (18, Piece::Player2)]);
    let legal = e.generate_legal_actions(Piece::Player1);
    let mut puts = 0;
    for a in legal {
        if let Action::Put { index, value } = a {
            puts += 1;
            assert_eq!(value, Piece::Player1);
            assert_eq!(e.get_board()[index as usize], 0);
            let mut next = e.duplicate();
            assert_eq!(next.apply_action(&a), Ok(()));
            assert_eq!(next.get_board()[index as usize], 1);
        }
    }
    // 23 empty cells, of which the 8 around cell 6 are ruled out.
    assert_eq!(puts, 15);
}

#[test]
fn no_puts_with_empty_hand() {
    let e = board_with(&[
        (0, Piece::Player1),
        (2, Piece::Player1),
        (4, Piece::Player1),
        (10, Piece::Player1),
        (12, Piece::Player1),
    ]);
    let legal = e.generate_legal_actions(Piece::Player1);
    assert!(legal.iter().all(|a| matches!(a, Action::Flick { .. })));
    assert!(!legal.is_empty());
}

#[test]
fn empty_player_has_no_actions() {
    let e = board_with(&[(12, Piece::Player1)]);
    assert!(e.generate_legal_actions(Piece::Empty).is_empty());
    assert_eq!(e.calc_best_action(Piece::Empty, 2), Err(EngineError::NoLegalAction));
}

#[test]
fn flick_order_and_legality() {
    // A piece in the corner can only go right, down or diagonally down-right.
    let e = board_with(&[(0, Piece::Player1)]);
    let flicks: Vec<Action> = e
        .debug_legal_actions(Piece::Player1)
        .into_iter()
        .filter(|a| matches!(a, Action::Flick { .. }))
        .collect();
    assert_eq!(
        flicks,
        vec![
            Action::Flick { index: 0, dx: 1, dy: 0 },
            Action::Flick { index: 0, dx: 0, dy: 1 },
            Action::Flick { index: 0, dx: 1, dy: 1 },
        ]
    );
}

#[test]
fn generated_flicks_change_board() {
    let e = board_with(&[
        (0, Piece::Player1),
        (1, Piece::Player2),
        (12, Piece::Player1),
        (13, Piece::Player2),
        (24, Piece::Player1),
    ]);
    let legal = e.generate_legal_actions(Piece::Player1);
    let mut flicks = 0;
    for a in legal {
        if let Action::Flick { .. } = a {
            flicks += 1;
            let mut next = e.duplicate();
            assert_eq!(next.apply_action(&a), Ok(()));
            assert_ne!(next.get_board(), e.get_board());
        }
    }
    assert!(flicks > 0);
}

#[test]
fn flick_errors() {
    let mut e = board_with(&[(7, Piece::Player1)]);
    let before = e.get_board();
    assert_eq!(e.apply_action(&Action::Flick { index: 7, dx: 0, dy: 0 }), Err(EngineError::ZeroDirection));
    assert_eq!(e.apply_action(&Action::Flick { index: 8, dx: 1, dy: 0 }), Err(EngineError::EmptyOrigin));
    assert_eq!(e.apply_action(&Action::Flick { index: 25, dx: 1, dy: 0 }), Err(EngineError::OutOfBounds));
    assert_eq!(e.apply_action(&Action::Put { index: 25, value: Piece::Player1 }), Err(EngineError::OutOfBounds));
    assert_eq!(e.apply_action(&Action::Pick { index: 200 }), Err(EngineError::OutOfBounds));
    assert_eq!(e.get_board(), before);
}

#[test]
fn pick_clears_cell() {
    let mut e = board_with(&[(7, Piece::Player2)]);
    assert_eq!(e.apply_action(&Action::Pick { index: 7 }), Ok(()));
    assert_eq!(e.get_board(), vec![0u8; 25]);
    assert_eq!(e.apply_action(&Action::Pick { index: 7 }), Ok(()));
}

#[test]
fn put_ignores_generator_rules() {
    let mut e = board_with(&[(0, Piece::Player1)]);
    assert_eq!(e.apply_action(&Action::Put { index: 1, value: Piece::Player1 }), Ok(()));
    assert_eq!(e.apply_action(&Action::Put { index: 0, value: Piece::Player2 }), Ok(()));
    let b = e.get_board();
    assert_eq!((b[0], b[1]), (2, 1));
}

#[test]
fn evaluation_is_antisymmetric() {
    let boards = [
        board_with(&[]),
        board_with(&[(0, Piece::Player1), (1, Piece::Player1), (2, Piece::Player1)]),
        board_with(&[(6, Piece::Player1), (12, Piece::Player2), (18, Piece::Player2), (24, Piece::Player2)]),
        board_with(&[(4, Piece::Player1), (8, Piece::Player1), (20, Piece::Player2), (21, Piece::Player1)]),
    ];
    for e in boards.iter() {
        assert_eq!(e.evaluate(Piece::Player1), -e.evaluate(Piece::Player2));
    }
}

#[test]
fn evaluation_exact_values() {
    assert_eq!(board_with(&[]).evaluate(Piece::Player1), 0);
    assert_eq!(board_with(&[(12, Piece::Player1)]).evaluate(Piece::Player1), PIECE_SCORE);
    // Cells 0 and 1: two pieces, and the row run anchored at 0 is a reach.
    let e = board_with(&[(0, Piece::Player1), (1, Piece::Player1)]);
    assert_eq!(e.evaluate(Piece::Player1), 2 * PIECE_SCORE + REACH_SCORE);
    assert_eq!(e.evaluate(Piece::Player2), -(2 * PIECE_SCORE + REACH_SCORE));
    // Cells 1 and 2: reaches anchored at 0 (empty) and at 1.
    let e = board_with(&[(1, Piece::Player1), (2, Piece::Player1)]);
    assert_eq!(e.evaluate(Piece::Player1), 2 * PIECE_SCORE + 2 * REACH_SCORE);
    // A blocked line scores nothing.
    let e = board_with(&[(0, Piece::Player1), (1, Piece::Player1), (2, Piece::Player2)]);
    assert_eq!(e.evaluate(Piece::Player1), PIECE_SCORE);
}

#[test]
fn scenario_a_empty_board_puts() {
    let e = GameEngine::new();
    let a = e.calc_best_action(Piece::Player1, 1).unwrap();
    assert!(matches!(a, Action::Put { value: Piece::Player1, .. }));
    assert!(e
        .generate_legal_actions(Piece::Player1)
        .iter()
        .all(|a| matches!(a, Action::Put { .. })));
}

#[test]
fn scenario_b_completed_row_scores_win() {
    let e = board_with(&[(0, Piece::Player1), (1, Piece::Player1), (2, Piece::Player1)]);
    assert!(e.evaluate(Piece::Player1) >= WIN_SCORE);
    assert_eq!(e.evaluate(Piece::Player1), 3 * PIECE_SCORE + WIN_SCORE + REACH_SCORE);
}

#[test]
fn scenario_c_flick_slides_to_edge() {
    let mut e = board_with(&[(0, Piece::Player1)]);
    assert_eq!(e.apply_action(&Action::Flick { index: 0, dx: 1, dy: 0 }), Ok(()));
    let mut expected = vec![0u8; 25];
    expected[4] = 1;
    assert_eq!(e.get_board(), expected);
}

#[test]
fn scenario_d_flick_chain_push() {
    let mut e = board_with(&[(0, Piece::Player1), (2, Piece::Player2)]);
    assert_eq!(e.apply_action(&Action::Flick { index: 0, dx: 1, dy: 0 }), Ok(()));
    let b = e.get_board();
    assert_eq!(&b[0..5], &[0, 1, 0, 0, 2]);
}

#[test]
fn flick_diagonal_and_blocked_ray() {
    let mut e = board_with(&[(24, Piece::Player2)]);
    assert_eq!(e.apply_action(&Action::Flick { index: 24, dx: -1, dy: -1 }), Ok(()));
    assert_eq!(e.get_board()[0], 2);
    assert_eq!(e.get_board()[24], 0);
    // Against the edge nothing moves.
    let mut e = board_with(&[(4, Piece::Player1)]);
    assert_eq!(e.apply_action(&Action::Flick { index: 4, dx: 1, dy: 0 }), Ok(()));
    assert_eq!(e.get_board()[4], 1);
}

#[test]
fn search_is_deterministic() {
    let e = board_with(&[(6, Piece::Player1), (12, Piece::Player2), (8, Piece::Player1)]);
    let first = e.calc_best_action(Piece::Player2, 2);
    for _ in 0..3 {
        assert_eq!(e.calc_best_action(Piece::Player2, 2), first);
    }
    assert_eq!(e.duplicate().calc_best_action(Piece::Player2, 2), first);
}

#[test]
fn search_completes_a_row() {
    // The only way to three in a row is to flick the piece at 22 upwards.
    let e = board_with(&[(0, Piece::Player1), (1, Piece::Player1), (22, Piece::Player1)]);
    let a = e.calc_best_action(Piece::Player1, 1).unwrap();
    assert_eq!(a, Action::Flick { index: 22, dx: 0, dy: -1 });
    let mut next = e.duplicate();
    next.apply_action(&a).unwrap();
    assert!(next.evaluate(Piece::Player1) >= WIN_SCORE);
}

#[test]
fn search_at_depth_zero_gives_no_action() {
    let e = board_with(&[(0, Piece::Player1)]);
    assert_eq!(e.calc_best_action(Piece::Player1, 0), Err(EngineError::NoLegalAction));
    assert_eq!(e.alpha_beta(Piece::Player1, 0, -INF, INF), (e.evaluate(Piece::Player1), None));
}

#[test]
fn search_on_decided_board_gives_no_action() {
    let e = board_with(&[(0, Piece::Player2), (1, Piece::Player2), (2, Piece::Player2)]);
    assert_eq!(e.calc_best_action(Piece::Player1, 3), Err(EngineError::NoLegalAction));
}

#[test]
fn pruned_search_matches_full_width() {
    let boards = [
        board_with(&[]),
        board_with(&[(0, Piece::Player1), (12, Piece::Player2)]),
        board_with(&[(6, Piece::Player1), (7, Piece::Player2), (18, Piece::Player1), (13, Piece::Player2)]),
    ];
    for e in boards.iter() {
        for &p in [Piece::Player1, Piece::Player2].iter() {
            for depth in 0..3 {
                assert_eq!(e.alpha_beta(p, depth, -INF, INF), full_width(e, p, depth));
            }
        }
    }
}
