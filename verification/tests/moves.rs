use chess_rules::history::{History, Turn};
use chess_rules::pieces::{
    checked_offset, color_of_square, contains_square, is_occupied, is_occupied_by, Piece,
    PieceColor, PieceType, FIELD_SIZE, KILL_ENERGY,
};

fn piece(color: PieceColor, piece_type: PieceType, x: u8, y: u8) -> Piece {
    Piece { color, piece_type, x, y, energy: 0 }
}

fn no_history() -> History {
    History::default()
}

fn sorted(mut squares: Vec<(u8, u8)>) -> Vec<(u8, u8)> {
    squares.sort();
    squares
}

fn pawn_turn(color: PieceColor, from: (u8, u8), to: (u8, u8)) -> Turn {
    Turn {
        color,
        piece_type: PieceType::Pawn,
        from_x: from.0,
        from_y: from.1,
        to_x: to.0,
        to_y: to.1,
    }
}

#[test]
fn constants_have_their_values() {
    assert_eq!(FIELD_SIZE, 8);
    assert_eq!(KILL_ENERGY, 10);
}

#[test]
fn opposite_swaps_the_sides() {
    assert_eq!(PieceColor::White.opposite(), PieceColor::Black);
    assert_eq!(PieceColor::Black.opposite(), PieceColor::White);
}

#[test]
fn offset_stays_on_the_board() {
    assert_eq!(checked_offset(3, 2), Some(5));
    assert_eq!(checked_offset(3, -3), Some(0));
    assert_eq!(checked_offset(7, 0), Some(7));
    assert_eq!(checked_offset(0, 7), Some(7));
    assert_eq!(checked_offset(9, -2), Some(7));
}

#[test]
fn offset_fails_off_the_board() {
    assert_eq!(checked_offset(0, -1), None);
    assert_eq!(checked_offset(7, 1), None);
    assert_eq!(checked_offset(0, 8), None);
    assert_eq!(checked_offset(5, -128), None);
    assert_eq!(checked_offset(255, 127), None);
    assert_eq!(checked_offset(200, -128), None);
    assert_eq!(checked_offset(20, -1), None);
}

#[test]
fn occupancy_is_found_by_scanning() {
    let pieces = [
        piece(PieceColor::White, PieceType::Rook, 0, 0),
        piece(PieceColor::Black, PieceType::Pawn, 6, 3),
    ];
    assert!(is_occupied(&pieces, 0, 0));
    assert!(is_occupied(&pieces, 6, 3));
    assert!(!is_occupied(&pieces, 3, 6));
    assert!(!is_occupied(&[], 0, 0));
    assert!(is_occupied_by(&pieces, PieceColor::White, 0, 0));
    assert!(!is_occupied_by(&pieces, PieceColor::Black, 0, 0));
    assert!(is_occupied_by(&pieces, PieceColor::Black, 6, 3));
    assert!(!is_occupied_by(&pieces, PieceColor::Black, 6, 4));
}

#[test]
fn color_of_square_is_that_of_the_first_piece_on_it() {
    let pieces = [
        piece(PieceColor::White, PieceType::Rook, 0, 0),
        piece(PieceColor::Black, PieceType::Pawn, 6, 3),
        piece(PieceColor::White, PieceType::Pawn, 6, 3),
    ];
    assert_eq!(color_of_square((0, 0), &pieces), Some(PieceColor::White));
    assert_eq!(color_of_square((6, 3), &pieces), Some(PieceColor::Black));
    assert_eq!(color_of_square((3, 6), &pieces), None);
    assert_eq!(color_of_square((0, 0), &[]), None);
}

#[test]
fn contains_square_tells_members_from_others() {
    let squares = vec![(1, 2), (2, 1), (1, 2)];
    assert!(contains_square(&squares, (1, 2)));
    assert!(contains_square(&squares, (2, 1)));
    assert!(!contains_square(&squares, (2, 2)));
    assert!(!contains_square(&Vec::new(), (0, 0)));
}

#[test]
fn knight_in_the_corner_has_two_jumps() {
    let knight = piece(PieceColor::White, PieceType::Knight, 0, 0);
    let moves = knight.valid_positions(&[knight], &no_history());
    assert_eq!(moves, vec![(1, 2), (2, 1)]);
}

#[test]
fn knight_away_from_the_edge_has_eight_jumps() {
    for x in 2..6u8 {
        for y in 2..6u8 {
            let knight = piece(PieceColor::Black, PieceType::Knight, x, y);
            let moves = knight.valid_positions(&[knight], &no_history());
            assert_eq!(moves.len(), 8);
            for (tx, ty) in moves {
                assert!(tx < 8 && ty < 8);
                let dx = (tx as i16 - x as i16).abs();
                let dy = (ty as i16 - y as i16).abs();
                assert!((dx == 1 && dy == 2) || (dx == 2 && dy == 1));
            }
        }
    }
    let knight = piece(PieceColor::Black, PieceType::Knight, 4, 3);
    let moves = knight.valid_positions(&[knight], &no_history());
    assert_eq!(
        moves,
        vec![(5, 5), (6, 4), (6, 2), (5, 1), (3, 1), (2, 2), (2, 4), (3, 5)]
    );
}

#[test]
fn knight_jumps_over_pieces_but_not_onto_its_own() {
    let knight = piece(PieceColor::White, PieceType::Knight, 0, 1);
    let own = piece(PieceColor::White, PieceType::Pawn, 1, 3);
    let other = piece(PieceColor::Black, PieceType::Pawn, 2, 2);
    let wall = piece(PieceColor::White, PieceType::Pawn, 1, 1);
    let moves = knight.valid_positions(&[knight, own, other, wall], &no_history());
    assert_eq!(moves, vec![(2, 2), (2, 0)]);
}

#[test]
fn rook_on_an_empty_board_has_fourteen_squares() {
    let rook = piece(PieceColor::White, PieceType::Rook, 3, 3);
    let moves = rook.valid_positions(&[rook], &no_history());
    assert_eq!(moves.len(), 14);
    assert!(!moves.contains(&(3, 3)));
    assert_eq!(
        moves,
        vec![
            (4, 3),
            (5, 3),
            (6, 3),
            (7, 3),
            (2, 3),
            (1, 3),
            (0, 3),
            (3, 4),
            (3, 5),
            (3, 6),
            (3, 7),
            (3, 2),
            (3, 1),
            (3, 0),
        ]
    );
}

#[test]
fn rook_is_offered_the_squares_behind_a_piece() {
    let rook = piece(PieceColor::White, PieceType::Rook, 0, 0);
    let own = piece(PieceColor::White, PieceType::Pawn, 1, 0);
    let other = piece(PieceColor::Black, PieceType::Pawn, 0, 2);
    let moves = rook.valid_positions(&[rook, own, other], &no_history());
    assert_eq!(
        moves,
        vec![
            (2, 0),
            (3, 0),
            (4, 0),
            (5, 0),
            (6, 0),
            (7, 0),
            (0, 1),
            (0, 2),
            (0, 3),
            (0, 4),
            (0, 5),
            (0, 6),
            (0, 7),
        ]
    );
}

#[test]
fn bishop_walks_the_four_diagonals() {
    let bishop = piece(PieceColor::Black, PieceType::Bishop, 2, 1);
    let moves = bishop.valid_positions(&[bishop], &no_history());
    assert_eq!(
        moves,
        vec![
            (3, 2),
            (4, 3),
            (5, 4),
            (6, 5),
            (7, 6),
            (3, 0),
            (1, 0),
            (1, 2),
            (0, 3),
        ]
    );
}

#[test]
fn queen_has_the_rook_squares_and_then_the_bishop_squares() {
    let queen = piece(PieceColor::White, PieceType::Queen, 3, 3);
    let rook = piece(PieceColor::White, PieceType::Rook, 3, 3);
    let bishop = piece(PieceColor::White, PieceType::Bishop, 3, 3);
    let history = no_history();
    let moves = queen.valid_positions(&[queen], &history);
    let mut expected = rook.valid_positions(&[rook], &history);
    expected.extend(bishop.valid_positions(&[bishop], &history));
    assert_eq!(moves.len(), 27);
    assert_eq!(moves, expected);
    let mut distinct = sorted(moves);
    distinct.dedup();
    assert_eq!(distinct.len(), 27);
}

#[test]
fn king_in_the_middle_has_eight_squares_and_in_the_corner_three() {
    let king = piece(PieceColor::White, PieceType::King, 3, 3);
    let moves = king.valid_positions(&[king], &no_history());
    assert_eq!(moves.len(), 8);
    assert_eq!(
        moves,
        vec![(2, 2), (3, 2), (4, 2), (2, 3), (4, 3), (2, 4), (3, 4), (4, 4)]
    );
    let corner = piece(PieceColor::White, PieceType::King, 0, 0);
    let moves = corner.valid_positions(&[corner], &no_history());
    assert_eq!(moves.len(), 3);
    assert_eq!(sorted(moves), vec![(0, 1), (1, 0), (1, 1)]);
}

#[test]
fn king_may_step_next_to_the_other_king() {
    let king = piece(PieceColor::White, PieceType::King, 0, 0);
    let other = piece(PieceColor::Black, PieceType::King, 0, 2);
    let own = piece(PieceColor::White, PieceType::Pawn, 1, 1);
    let moves = king.valid_positions(&[king, other, own], &no_history());
    assert_eq!(moves, vec![(1, 0), (0, 1)]);
}

#[test]
fn white_pawn_on_its_starting_rank_has_both_advances() {
    for y in 0..8u8 {
        let pawn = piece(PieceColor::White, PieceType::Pawn, 1, y);
        let moves = pawn.valid_positions(&[pawn], &no_history());
        assert!(moves.contains(&(2, y)));
        assert!(moves.contains(&(3, y)));
        assert_eq!(moves, vec![(2, y), (3, y)]);
    }
}

#[test]
fn pawn_with_both_squares_ahead_taken_has_neither_advance() {
    for y in 0..8u8 {
        let pawn = piece(PieceColor::White, PieceType::Pawn, 1, y);
        let near = piece(PieceColor::Black, PieceType::Knight, 2, y);
        let far = piece(PieceColor::White, PieceType::Knight, 3, y);
        let moves = pawn.valid_positions(&[pawn, near, far], &no_history());
        assert!(!moves.contains(&(2, y)));
        assert!(!moves.contains(&(3, y)));
        assert!(moves.is_empty());
    }
}

#[test]
fn pawn_advance_by_two_does_not_look_at_the_square_between() {
    let pawn = piece(PieceColor::White, PieceType::Pawn, 1, 4);
    let near = piece(PieceColor::Black, PieceType::Knight, 2, 4);
    let moves = pawn.valid_positions(&[pawn, near], &no_history());
    assert!(!moves.contains(&(2, 4)));
    assert_eq!(moves, vec![(3, 4)]);
}

#[test]
fn black_pawn_advances_towards_smaller_x() {
    let pawn = piece(PieceColor::Black, PieceType::Pawn, 6, 2);
    let moves = pawn.valid_positions(&[pawn], &no_history());
    assert_eq!(moves, vec![(5, 2), (4, 2)]);
    let later = piece(PieceColor::Black, PieceType::Pawn, 5, 2);
    assert_eq!(later.valid_positions(&[later], &no_history()), vec![(4, 2)]);
    let last = piece(PieceColor::Black, PieceType::Pawn, 0, 2);
    assert!(last.valid_positions(&[last], &no_history()).is_empty());
    let white_last = piece(PieceColor::White, PieceType::Pawn, 7, 2);
    assert!(white_last
        .valid_positions(&[white_last], &no_history())
        .is_empty());
}

#[test]
fn pawn_takes_on_the_diagonal_only_where_the_other_side_stands() {
    let pawn = piece(PieceColor::White, PieceType::Pawn, 4, 4);
    let other = piece(PieceColor::Black, PieceType::Bishop, 5, 5);
    let moves = pawn.valid_positions(&[pawn, other], &no_history());
    assert!(moves.contains(&(5, 5)));
    assert!(!moves.contains(&(5, 3)));
    assert_eq!(moves, vec![(5, 4), (5, 5)]);
    let own = piece(PieceColor::White, PieceType::Bishop, 5, 3);
    let moves = pawn.valid_positions(&[pawn, other, own], &no_history());
    assert_eq!(moves, vec![(5, 4), (5, 5)]);
    let both = piece(PieceColor::Black, PieceType::Rook, 5, 3);
    let moves = pawn.valid_positions(&[pawn, other, both], &no_history());
    assert_eq!(moves, vec![(5, 4), (5, 3), (5, 5)]);
}

#[test]
fn en_passant_square_is_offered_though_empty() {
    let white = piece(PieceColor::White, PieceType::Pawn, 4, 3);
    let black = piece(PieceColor::Black, PieceType::Pawn, 4, 2);
    let history = History {
        turns: vec![pawn_turn(PieceColor::Black, (6, 2), (4, 2))],
    };
    let moves = white.valid_positions(&[white, black], &history);
    assert!(moves.contains(&(5, 2)));
    assert_eq!(moves, vec![(5, 3), (5, 2)]);
    assert!(white.is_move_valid((5, 2), &[white, black], &history));
}

#[test]
fn en_passant_needs_every_condition() {
    let white = piece(PieceColor::White, PieceType::Pawn, 4, 3);
    let black = piece(PieceColor::Black, PieceType::Pawn, 4, 2);
    let board = [white, black];
    let plain = vec![(5, 3)];
    let own = History {
        turns: vec![pawn_turn(PieceColor::White, (6, 2), (4, 2))],
    };
    assert_eq!(white.valid_positions(&board, &own), plain);
    let rook = History {
        turns: vec![Turn {
            piece_type: PieceType::Rook,
            ..pawn_turn(PieceColor::Black, (6, 2), (4, 2))
        }],
    };
    assert_eq!(white.valid_positions(&board, &rook), plain);
    let single = History {
        turns: vec![pawn_turn(PieceColor::Black, (5, 2), (4, 2))],
    };
    assert_eq!(white.valid_positions(&board, &single), plain);
    let other_rank = History {
        turns: vec![pawn_turn(PieceColor::Black, (5, 2), (3, 2))],
    };
    assert_eq!(white.valid_positions(&board, &other_rank), plain);
    let far_file = History {
        turns: vec![pawn_turn(PieceColor::Black, (6, 1), (4, 1))],
    };
    assert_eq!(white.valid_positions(&board, &far_file), plain);
    let same_file = History {
        turns: vec![pawn_turn(PieceColor::Black, (6, 3), (4, 3))],
    };
    assert_eq!(white.valid_positions(&board, &same_file), plain);
    let older = History {
        turns: vec![
            pawn_turn(PieceColor::Black, (6, 2), (4, 2)),
            pawn_turn(PieceColor::Black, (6, 7), (5, 7)),
        ],
    };
    assert_eq!(white.valid_positions(&board, &older), plain);
}

#[test]
fn en_passant_works_for_black_and_on_the_larger_file() {
    let black = piece(PieceColor::Black, PieceType::Pawn, 3, 3);
    let white = piece(PieceColor::White, PieceType::Pawn, 3, 4);
    let history = History {
        turns: vec![
            pawn_turn(PieceColor::Black, (6, 3), (4, 3)),
            pawn_turn(PieceColor::White, (1, 4), (3, 4)),
        ],
    };
    let moves = black.valid_positions(&[black, white], &history);
    assert_eq!(moves, vec![(2, 3), (2, 4)]);
}

#[test]
fn en_passant_does_not_look_at_who_stands_on_the_square() {
    let white = piece(PieceColor::White, PieceType::Pawn, 4, 3);
    let black = piece(PieceColor::Black, PieceType::Pawn, 4, 2);
    let own = piece(PieceColor::White, PieceType::Knight, 5, 2);
    let board = [white, black, own];
    let history = History {
        turns: vec![pawn_turn(PieceColor::Black, (6, 2), (4, 2))],
    };
    let moves = white.valid_positions(&board, &history);
    assert_eq!(moves, vec![(5, 3), (5, 2)]);
    assert!(!white.is_move_valid((5, 2), &board, &history));
}

#[test]
fn en_passant_off_the_board_is_not_offered() {
    let white = piece(PieceColor::White, PieceType::Pawn, 7, 3);
    let history = History {
        turns: vec![pawn_turn(PieceColor::Black, (5, 2), (7, 2))],
    };
    assert!(white.valid_positions(&[white], &history).is_empty());
    let edge = piece(PieceColor::White, PieceType::Pawn, 4, 7);
    let history = History {
        turns: vec![pawn_turn(PieceColor::Black, (6, 8), (4, 8))],
    };
    assert_eq!(edge.valid_positions(&[edge], &history), vec![(5, 7)]);
}

#[test]
fn move_onto_an_own_piece_is_never_valid() {
    let history = no_history();
    let rook = piece(PieceColor::White, PieceType::Rook, 0, 0);
    let own = piece(PieceColor::White, PieceType::Pawn, 0, 3);
    let other = piece(PieceColor::Black, PieceType::Pawn, 3, 0);
    let board = [rook, own, other];
    assert!(!rook.is_move_valid((0, 3), &board, &history));
    assert!(rook.is_move_valid((3, 0), &board, &history));
    assert!(rook.is_move_valid((0, 7), &board, &history));
    assert!(!rook.is_move_valid((1, 1), &board, &history));
    assert!(!rook.is_move_valid((0, 0), &board, &history));
    let pawn = piece(PieceColor::White, PieceType::Pawn, 4, 4);
    let black = piece(PieceColor::Black, PieceType::Bishop, 5, 5);
    let hidden = piece(PieceColor::White, PieceType::Bishop, 5, 5);
    assert!(pawn.is_move_valid((5, 5), &[pawn, black], &history));
    assert!(pawn
        .valid_positions(&[pawn, black, hidden], &history)
        .contains(&(5, 5)));
    assert!(!pawn.is_move_valid((5, 5), &[pawn, black, hidden], &history));
}

#[test]
fn listing_twice_gives_the_same_list() {
    let history = History {
        turns: vec![pawn_turn(PieceColor::Black, (6, 2), (4, 2))],
    };
    let board = [
        piece(PieceColor::White, PieceType::Pawn, 4, 3),
        piece(PieceColor::Black, PieceType::Pawn, 4, 2),
        piece(PieceColor::White, PieceType::Queen, 0, 3),
        piece(PieceColor::Black, PieceType::Knight, 7, 1),
        piece(PieceColor::White, PieceType::King, 0, 4),
        piece(PieceColor::Black, PieceType::Bishop, 7, 2),
        piece(PieceColor::Black, PieceType::Rook, 7, 0),
    ];
    for mover in board.iter() {
        let first = mover.valid_positions(&board, &history);
        let second = mover.valid_positions(&board, &history);
        assert_eq!(first, second);
        assert_eq!(sorted(first), sorted(second));
    }
}

#[test]
fn every_square_offered_is_on_the_board() {
    let kinds = [
        PieceType::King,
        PieceType::Queen,
        PieceType::Bishop,
        PieceType::Knight,
        PieceType::Rook,
        PieceType::Pawn,
    ];
    for kind in kinds {
        for x in 0..8u8 {
            for y in 0..8u8 {
                let mover = piece(PieceColor::Black, kind, x, y);
                for (tx, ty) in mover.valid_positions(&[mover], &no_history()) {
                    assert!(tx < 8 && ty < 8);
                    assert!((tx, ty) != (x, y));
                }
            }
        }
    }
}

#[test]
fn number_of_squares_offered_has_its_bound() {
    let bounds = [
        (PieceType::King, 8),
        (PieceType::Knight, 8),
        (PieceType::Rook, 14),
        (PieceType::Bishop, 13),
        (PieceType::Queen, 27),
        (PieceType::Pawn, 4),
    ];
    for (kind, bound) in bounds {
        let mut most = 0;
        for x in 0..8u8 {
            for y in 0..8u8 {
                let mover = piece(PieceColor::White, kind, x, y);
                let others = [
                    mover,
                    piece(PieceColor::Black, PieceType::Pawn, x.wrapping_add(1), y.wrapping_add(1)),
                    piece(PieceColor::Black, PieceType::Pawn, x.wrapping_add(1), y.wrapping_sub(1)),
                ];
                let history = History {
                    turns: vec![pawn_turn(PieceColor::Black, (x.wrapping_add(2), y), (x, y))],
                };
                let count = mover.valid_positions(&others, &history).len();
                assert!(count <= bound);
                most = most.max(count);
            }
        }
        if kind != PieceType::Pawn {
            assert_eq!(most, bound);
        }
    }
}

#[test]
fn pawn_on_its_starting_rank_that_was_passed_is_offered_five_squares() {
    let pawn = piece(PieceColor::White, PieceType::Pawn, 1, 3);
    let board = [
        pawn,
        piece(PieceColor::Black, PieceType::Pawn, 2, 2),
        piece(PieceColor::Black, PieceType::Pawn, 2, 4),
        piece(PieceColor::Black, PieceType::Pawn, 1, 4),
    ];
    let history = History {
        turns: vec![pawn_turn(PieceColor::Black, (3, 4), (1, 4))],
    };
    assert_eq!(
        pawn.valid_positions(&board, &history),
        vec![(2, 3), (2, 2), (2, 4), (3, 3), (2, 4)]
    );
}

#[test]
fn pieces_other_than_pawns_keep_off_their_own_side() {
    let kinds = [
        PieceType::King,
        PieceType::Queen,
        PieceType::Bishop,
        PieceType::Knight,
        PieceType::Rook,
    ];
    let mut board = Vec::new();
    for x in 0..8u8 {
        for y in 0..8u8 {
            if (x * 3 + y * 5) % 4 == 0 {
                let color = if (x + y) % 3 == 0 {
                    PieceColor::White
                } else {
                    PieceColor::Black
                };
                board.push(piece(color, PieceType::Pawn, x, y));
            }
        }
    }
    for kind in kinds {
        for x in 0..8u8 {
            for y in 0..8u8 {
                let mover = piece(PieceColor::White, kind, x, y);
                for (tx, ty) in mover.valid_positions(&board, &no_history()) {
                    assert!(!is_occupied_by(&board, PieceColor::White, tx, ty));
                    assert!(mover.is_move_valid((tx, ty), &board, &no_history()));
                }
            }
        }
    }
}
