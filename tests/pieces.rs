use chess::board::Board;
use chess::pieces::{Bishop, King, Knight, Pawn, Piece, Queen, Rook};
use chess::position::{Direction, Position};
use chess::slide::{raw_reachable, sliding_captures, sliding_moves};

fn pawn_captures_board() -> (Board, [Pawn; 5], [Pawn; 5]) {
    let me1 = Pawn::new(Position::new(3, 1), true);
    let me2 = Pawn::new(Position::new(7, 1), true);
    let me3 = Pawn::new(Position::new(1, 4), true);
    let me4 = Pawn::new(Position::new(3, 4), true);
    let me5 = Pawn::new(Position::new(0, 1), true);

    let enemy1 = Pawn::new(Position::new(2, 2), false);
    let enemy2 = Pawn::new(Position::new(4, 2), false);
    let enemy3 = Pawn::new(Position::new(6, 2), false);
    let enemy4 = Pawn::new(Position::new(4, 5), false);
    let enemy5 = Pawn::new(Position::new(1, 2), false);
    let board = Board {
        my_pieces: vec![
            Piece::Pawn(me1),
            Piece::Pawn(me2),
            Piece::Pawn(me3),
            Piece::Pawn(me4),
            Piece::Pawn(me5),
        ],
        enemy_pieces: vec![
            Piece::Pawn(enemy1),
            Piece::Pawn(enemy2),
            Piece::Pawn(enemy3),
            Piece::Pawn(enemy4),
            Piece::Pawn(enemy5),
        ],
    };
    (
        board,
        [me1, me2, me3, me4, me5],
        [enemy1, enemy2, enemy3, enemy4, enemy5],
    )
}

fn check_pawn_captures() {
    let (board, [me1, me2, me3, me4, me5], [enemy1, enemy2, enemy3, enemy4, enemy5]) =
        pawn_captures_board();
    assert_eq!(
        vec![enemy1.get_position(), enemy2.get_position()],
        me1.possible_captures(&board),
        "pawn {:?} captures",
        me1.get_position()
    );
    assert_eq!(
        vec![enemy3.get_position()],
        me2.possible_captures(&board),
        "pawn {:?} captures on the right edge",
        me2.get_position()
    );
    assert_eq!(
        vec![enemy5.get_position()],
        me5.possible_captures(&board),
        "pawn {:?} captures on the left edge",
        me5.get_position()
    );
    let empty_pos: Vec<Position> = Vec::new();
    assert_eq!(
        empty_pos,
        me3.possible_captures(&board),
        "pawn {:?} no targets",
        me3.get_position()
    );
    assert_eq!(
        vec![enemy4.get_position()],
        me4.possible_captures(&board),
        "pawn {:?} one target",
        me4.get_position()
    );
}

fn check_pawn_moves() {
    let me1 = Pawn::new(Position::new(0, 1), true);
    let me2 = Pawn::new(Position::new(1, 1), true);
    let me3 = Pawn::new(Position::new(2, 1), true);
    let me4 = Pawn::new(Position::new(3, 2), false);
    let me5 = Pawn::new(Position::new(4, 7), false);
    let enemy1 = Pawn::new(Position::new(1, 2), false);
    let enemy2 = Pawn::new(Position::new(2, 3), false);
    let board = Board {
        my_pieces: vec![
            Piece::Pawn(me1),
            Piece::Pawn(me2),
            Piece::Pawn(me3),
            Piece::Pawn(me4),
            Piece::Pawn(me5),
        ],
        enemy_pieces: vec![Piece::Pawn(enemy1), Piece::Pawn(enemy2)],
    };

    assert_eq!(
        vec![Position::new(0, 2), Position::new(0, 3)],
        me1.possible_moves(&board),
        "pawn moves from starting position"
    );
    assert_eq!(
        vec![Position::new(3, 3)],
        me4.possible_moves(&board),
        "pawn moves"
    );
    let empty_pos: Vec<Position> = Vec::new();
    assert_eq!(
        empty_pos,
        me5.possible_moves(&board),
        "pawn moves out of board"
    );
    assert_eq!(
        empty_pos,
        me2.possible_moves(&board),
        "pawn moves from starting position with direct collision"
    );
    assert_eq!(
        vec![Position::new(2, 2)],
        me3.possible_moves(&board),
        "pawn moves from starting position with collision"
    );
}

#[test]
fn pieces_pawn_possible_captures() {
    check_pawn_captures();
}

#[test]
fn pieces_pawn_possible_moves() {
    check_pawn_moves();
}

#[test]
fn pawn_pawn_possible_captures() {
    check_pawn_captures();
}

#[test]
fn pawn_pawn_possible_moves() {
    check_pawn_moves();
}

#[test]
fn pawn_blocked_regardless_of_flag() {
    for flag in [true, false] {
        let me = Pawn::new(Position::new(0, 1), flag);
        let board = Board {
            my_pieces: vec![Piece::Pawn(me)],
            enemy_pieces: vec![Piece::Pawn(Pawn::new(Position::new(0, 2), false))],
        };
        assert_eq!(Vec::<Position>::new(), me.possible_moves(&board));
    }
}

#[test]
fn pawn_without_flag_single_step() {
    let me = Pawn::new(Position::new(0, 1), false);
    let board = Board {
        my_pieces: vec![Piece::Pawn(me)],
        enemy_pieces: vec![],
    };
    assert_eq!(vec![Position::new(0, 2)], me.possible_moves(&board));
}

#[test]
fn pawn_double_step_blocked_on_second_square() {
    let me = Pawn::new(Position::new(5, 1), true);
    let board = Board {
        my_pieces: vec![Piece::Pawn(me), Piece::Rook(Rook::new(Position::new(5, 3)))],
        enemy_pieces: vec![],
    };
    assert_eq!(vec![Position::new(5, 2)], me.possible_moves(&board));
}

#[test]
fn bishop_possible_moves_empty() {
    let me1 = Bishop::new(Position::new(3, 3));
    let board = Board {
        my_pieces: vec![Piece::Bishop(me1)],
        enemy_pieces: vec![],
    };

    assert_eq!(
        vec![
            Position::new(4, 4),
            Position::new(5, 5),
            Position::new(6, 6),
            Position::new(7, 7),
            Position::new(4, 2),
            Position::new(5, 1),
            Position::new(6, 0),
            Position::new(2, 2),
            Position::new(1, 1),
            Position::new(0, 0),
            Position::new(2, 4),
            Position::new(1, 5),
            Position::new(0, 6),
        ],
        me1.possible_moves(&board),
        "bishop moves on an empty board"
    );
}

#[test]
fn bishop_captures_first_blocker() {
    let me = Bishop::new(Position::new(3, 3));
    let board = Board {
        my_pieces: vec![Piece::Bishop(me), Piece::Pawn(Pawn::new(Position::new(2, 2), false))],
        enemy_pieces: vec![
            Piece::Pawn(Pawn::new(Position::new(5, 5), false)),
            Piece::Pawn(Pawn::new(Position::new(6, 6), false)),
            Piece::Pawn(Pawn::new(Position::new(1, 1), false)),
            Piece::Pawn(Pawn::new(Position::new(5, 1), false)),
        ],
    };
    assert_eq!(
        vec![Position::new(5, 5), Position::new(5, 1)],
        me.possible_captures(&board)
    );
}

#[test]
fn king_possible_moves_empty_board() {
    let me1 = King::new(Position::new(3, 3));
    let board = Board {
        my_pieces: vec![Piece::King(me1)],
        enemy_pieces: vec![],
    };

    assert_eq!(
        vec![
            Position::new(3, 4),
            Position::new(4, 4),
            Position::new(4, 3),
            Position::new(4, 2),
            Position::new(3, 2),
            Position::new(2, 2),
            Position::new(2, 3),
            Position::new(2, 4),
        ],
        me1.possible_moves(&board),
        "king moves on an empty board"
    );
}

#[test]
fn possible_moves_allied_collisions() {
    let me1 = King::new(Position::new(3, 3));
    let board = Board {
        my_pieces: vec![
            Piece::King(me1),
            Piece::Knight(Knight::new(Position::new(4, 4))),
            Piece::Knight(Knight::new(Position::new(2, 3))),
        ],
        enemy_pieces: vec![],
    };

    assert_eq!(
        vec![
            Position::new(3, 4),
            Position::new(4, 3),
            Position::new(4, 2),
            Position::new(3, 2),
            Position::new(2, 2),
            Position::new(2, 4),
        ],
        me1.possible_moves(&board),
        "king moves on a board with collisions"
    );
}

// The king's moves are filtered by occupancy only: squares that an enemy
// piece attacks stay among them, since check safety is outside this library.
#[test]
fn possible_moves_move_to_check() {
    let me1 = King::new(Position::new(3, 3));
    let board = Board {
        my_pieces: vec![Piece::King(me1)],
        enemy_pieces: vec![Piece::Rook(Rook::new(Position::new(0, 4)))],
    };

    assert_eq!(
        vec![
            Position::new(3, 4),
            Position::new(4, 4),
            Position::new(4, 3),
            Position::new(4, 2),
            Position::new(3, 2),
            Position::new(2, 2),
            Position::new(2, 3),
            Position::new(2, 4),
        ],
        me1.possible_moves(&board),
        "king moves next to an enemy rook's line"
    );
}

#[test]
fn king_captures_nothing() {
    let me = King::new(Position::new(3, 3));
    let board = Board {
        my_pieces: vec![Piece::King(me)],
        enemy_pieces: vec![Piece::Pawn(Pawn::new(Position::new(3, 4), false))],
    };
    assert_eq!(Vec::<Position>::new(), me.possible_captures(&board));
    assert_eq!(7, me.possible_moves(&board).len());
}

#[test]
fn knight_possible_moves_empty_board() {
    let me1 = Knight::new(Position::new(3, 3));
    let board = Board {
        my_pieces: vec![Piece::Knight(me1)],
        enemy_pieces: vec![],
    };

    assert_eq!(
        vec![
            Position::new(4, 5),
            Position::new(5, 4),
            Position::new(5, 2),
            Position::new(4, 1),
            Position::new(2, 1),
            Position::new(1, 2),
            Position::new(1, 4),
            Position::new(2, 5),
        ],
        me1.possible_moves(&board),
        "knight moves on an empty board"
    );
}

fn knight_crowded_board(me1: Knight) -> Board {
    Board {
        my_pieces: vec![
            Piece::Knight(me1),
            Piece::Knight(Knight::new(Position::new(4, 5))),
            Piece::Knight(Knight::new(Position::new(1, 4))),
        ],
        enemy_pieces: vec![
            Piece::Knight(Knight::new(Position::new(1, 2))),
            Piece::Knight(Knight::new(Position::new(2, 3))),
            Piece::Knight(Knight::new(Position::new(2, 2))),
            Piece::Knight(Knight::new(Position::new(3, 2))),
        ],
    }
}

#[test]
fn possible_moves_collision() {
    let me1 = Knight::new(Position::new(3, 3));
    let board = knight_crowded_board(me1);

    assert_eq!(
        vec![
            Position::new(5, 4),
            Position::new(5, 2),
            Position::new(4, 1),
            Position::new(2, 1),
            Position::new(2, 5),
        ],
        me1.possible_moves(&board),
        "knight moves with collisions"
    );
}

#[test]
fn possible_moves_corner() {
    let me1 = Knight::new(Position::new(7, 0));
    let board = Board {
        my_pieces: vec![Piece::Knight(me1)],
        enemy_pieces: vec![],
    };

    assert_eq!(
        vec![Position::new(5, 1), Position::new(6, 2)],
        me1.possible_moves(&board),
        "knight moves from the corner"
    );
}

#[test]
fn possible_captures_collision() {
    let me1 = Knight::new(Position::new(3, 3));
    let board = knight_crowded_board(me1);

    assert_eq!(
        vec![Position::new(1, 2)],
        me1.possible_captures(&board),
        "knight captures"
    );
}

#[test]
fn knight_destinations_from_corner() {
    let me = Knight::new(Position::new(7, 0));
    assert_eq!(
        vec![Position::new(5, 1), Position::new(6, 2)],
        me.destinations()
    );
}

#[test]
fn rook_possible_moves_empty() {
    let me1 = Rook::new(Position::new(3, 3));
    let board = Board {
        my_pieces: vec![Piece::Rook(me1)],
        enemy_pieces: vec![],
    };

    assert_eq!(
        vec![
            Position::new(3, 4),
            Position::new(3, 5),
            Position::new(3, 6),
            Position::new(3, 7),
            Position::new(4, 3),
            Position::new(5, 3),
            Position::new(6, 3),
            Position::new(7, 3),
            Position::new(3, 2),
            Position::new(3, 1),
            Position::new(3, 0),
            Position::new(2, 3),
            Position::new(1, 3),
            Position::new(0, 3),
        ],
        me1.possible_moves(&board),
        "rook moves on an empty board"
    );
}

#[test]
fn rook_possible_moves_collisions() {
    let me1 = Rook::new(Position::new(3, 3));
    let board = Board {
        my_pieces: vec![Piece::Rook(me1)],
        enemy_pieces: vec![
            Piece::Rook(Rook::new(Position::new(4, 3))),
            Piece::Rook(Rook::new(Position::new(2, 3))),
            Piece::Rook(Rook::new(Position::new(3, 2))),
            Piece::Rook(Rook::new(Position::new(3, 4))),
        ],
    };

    let empty: Vec<Position> = vec![];
    assert_eq!(
        empty,
        me1.possible_moves(&board),
        "rook has collisions on every side"
    );
}

#[test]
fn rook_possible_moves_some_collisions() {
    let me1 = Rook::new(Position::new(3, 3));
    let board = Board {
        my_pieces: vec![Piece::Rook(me1), Piece::Rook(Rook::new(Position::new(4, 3)))],
        enemy_pieces: vec![
            Piece::Rook(Rook::new(Position::new(2, 3))),
            Piece::Rook(Rook::new(Position::new(3, 2))),
        ],
    };

    assert_eq!(
        vec![
            Position::new(3, 4),
            Position::new(3, 5),
            Position::new(3, 6),
            Position::new(3, 7)
        ],
        me1.possible_moves(&board),
        "rook has collisions on every side"
    );
}

#[test]
fn rook_possible_captures_some_collisions() {
    let me1 = Rook::new(Position::new(3, 3));
    let board = Board {
        my_pieces: vec![Piece::Rook(me1), Piece::Rook(Rook::new(Position::new(4, 3)))],
        enemy_pieces: vec![
            Piece::Rook(Rook::new(Position::new(2, 3))),
            Piece::Rook(Rook::new(Position::new(3, 2))),
            Piece::Rook(Rook::new(Position::new(4, 2))),
        ],
    };

    assert_eq!(
        vec![Position::new(3, 2), Position::new(2, 3)],
        me1.possible_captures(&board),
        "rook has 2 immidiate captures on every side"
    );
}

#[test]
fn rook_possible_captures_no_enemies() {
    let me1 = Rook::new(Position::new(3, 3));
    let board = Board {
        my_pieces: vec![Piece::Rook(me1), Piece::Rook(Rook::new(Position::new(4, 3)))],
        enemy_pieces: vec![Piece::Rook(Rook::new(Position::new(0, 0)))],
    };

    let empty: Vec<Position> = vec![];
    assert_eq!(empty, me1.possible_captures(&board), "rook has no enemies");
}

#[test]
fn rook_directions_order() {
    assert_eq!(
        vec![Direction::Up, Direction::Right, Direction::Down, Direction::Left],
        Rook::directions()
    );
}

#[test]
fn queen_moves_and_captures() {
    let me = Queen::new(Position::new(0, 0));
    let board = Board {
        my_pieces: vec![Piece::Queen(me), Piece::Pawn(Pawn::new(Position::new(1, 0), false))],
        enemy_pieces: vec![
            Piece::Pawn(Pawn::new(Position::new(0, 2), false)),
            Piece::Pawn(Pawn::new(Position::new(3, 3), false)),
        ],
    };
    assert_eq!(
        vec![Position::new(0, 1), Position::new(1, 1), Position::new(2, 2)],
        me.possible_moves(&board)
    );
    assert_eq!(
        vec![
            Position::new(0, 1),
            Position::new(0, 2),
            Position::new(1, 1),
            Position::new(2, 2),
            Position::new(3, 3)
        ],
        me.allowed_strike_destinations(&board)
    );
    assert_eq!(
        vec![Position::new(0, 2), Position::new(3, 3)],
        me.possible_captures(&board)
    );
}

#[test]
fn queen_on_empty_board() {
    let me = Queen::new(Position::new(3, 3));
    let board = Board {
        my_pieces: vec![Piece::Queen(me)],
        enemy_pieces: vec![],
    };
    assert_eq!(27, me.possible_moves(&board).len());
    assert_eq!(Vec::<Position>::new(), me.possible_captures(&board));
}

#[test]
fn piece_dispatch_and_icons() {
    let rook = Piece::Rook(Rook::new(Position::new(3, 3)));
    let board = Board {
        my_pieces: vec![rook],
        enemy_pieces: vec![Piece::Pawn(Pawn::new(Position::new(3, 5), false))],
    };
    assert_eq!(
        vec![
            Position::new(3, 4),
            Position::new(4, 3),
            Position::new(5, 3),
            Position::new(6, 3),
            Position::new(7, 3),
            Position::new(3, 2),
            Position::new(3, 1),
            Position::new(3, 0),
            Position::new(2, 3),
            Position::new(1, 3),
            Position::new(0, 3),
            Position::new(3, 5),
        ],
        rook.possible_actions(&board)
    );
    assert_eq!('♖', rook.icon().light);
    assert_eq!('♜', rook.icon().dark);
    assert_eq!('♙', Pawn::new(Position::new(0, 0), true).icon().light);
    assert_eq!('♗', Bishop::new(Position::new(0, 0)).icon().light);
}

#[test]
fn set_and_swap_position() {
    let mut pawn = Piece::Pawn(Pawn::new(Position::new(2, 1), true));
    pawn.set_position(Position::new(2, 3));
    assert_eq!(Piece::Pawn(Pawn::new(Position::new(2, 3), true)), pawn);
    pawn.swap_position();
    assert_eq!(Position::new(2, 4), pawn.get_position());
}

#[test]
fn queen_captures_match_sliding_captures() {
    let me = Queen::new(Position::new(3, 3));
    let board = Board {
        my_pieces: vec![Piece::Queen(me), Piece::Pawn(Pawn::new(Position::new(3, 5), false))],
        enemy_pieces: vec![
            Piece::Pawn(Pawn::new(Position::new(3, 6), false)),
            Piece::Pawn(Pawn::new(Position::new(6, 3), false)),
            Piece::Pawn(Pawn::new(Position::new(1, 1), false)),
            Piece::Pawn(Pawn::new(Position::new(0, 0), false)),
            Piece::Pawn(Pawn::new(Position::new(5, 1), false)),
        ],
    };
    let sliding = sliding_captures(&Queen::directions(), Position::new(3, 3), &board);
    assert_eq!(
        vec![Position::new(6, 3), Position::new(5, 1), Position::new(1, 1)],
        sliding
    );
    assert_eq!(sliding, me.possible_captures(&board));
    assert_eq!(
        sliding_moves(&Queen::directions(), Position::new(3, 3), &board),
        me.possible_moves(&board)
    );
    let threatened = raw_reachable(&Queen::directions(), Position::new(3, 3), &board);
    assert_eq!(threatened, me.allowed_strike_destinations(&board));
}
