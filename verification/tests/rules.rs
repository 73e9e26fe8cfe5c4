use ocelot::board::{col_num, Board, Color, Coordinate, Piece, PieceType, Square};
use ocelot::movement::{Action, Castle, CastleSide, Move};

fn empty_with(pieces: &[(usize, usize, Color, PieceType, bool)]) -> Board {
    let mut b = Board::new();
    for &(col, row, color, ptype, has_moved) in pieces {
        let c = Coordinate::new(col, row);
        b.put_piece_on(&c, Piece { color, ptype, location: c, has_moved });
    }
    b
}

#[test]
fn opposite_twice_gives_back_the_color() {
    for c in [Color::White, Color::Black] {
        assert_eq!(c.opposite().opposite(), c);
        assert_ne!(c.opposite(), c);
        assert_eq!(c.opposite().value(), -c.value());
    }
    assert_eq!(Color::White.home_rank(), 0);
    assert_eq!(Color::Black.home_rank(), 7);
    assert_eq!(Color::White.pawn_home_rank(), 1);
    assert_eq!(Color::Black.pawn_home_rank(), 6);
    assert_eq!(Color::from('w'), Ok(Color::White));
    assert_eq!(Color::from('b'), Ok(Color::Black));
    assert_eq!(Color::from('x'), Err(()));
}

#[test]
fn piece_letters_read_back() {
    for t in [
        PieceType::Pawn(3),
        PieceType::Knight,
        PieceType::Bishop,
        PieceType::Rook,
        PieceType::Queen,
        PieceType::King,
    ] {
        let expected = match t {
            PieceType::Pawn(_) => PieceType::Pawn(0),
            other => other,
        };
        assert_eq!(PieceType::from(t.letter()), Ok(expected));
        assert_eq!(PieceType::from(t.letter().to_ascii_uppercase()), Ok(expected));
    }
    assert_eq!(PieceType::from('x'), Err(()));
    assert_eq!(PieceType::Queen.value(), 9);
    assert_eq!(PieceType::King.value(), 50);
    assert_eq!(PieceType::Pawn(7).value(), 1);
}

#[test]
fn offsets_leave_the_board_or_come_back() {
    let c = Coordinate::new(0, 7);
    assert_eq!(c.with_offset(1, 0), Err(()));
    assert_eq!(c.with_offset(0, -1), Err(()));
    let d = c.with_offset(-3, 2).unwrap();
    assert_eq!(d, Coordinate::new(2, 4));
    assert_eq!(d.with_offset(3, -2), Ok(c));
    assert!(Coordinate::new(7, 7).is_valid());
    assert!(!Coordinate::new(8, 0).is_valid());
    assert_eq!(col_num('h'), 7);
    assert_eq!(Coordinate::new(0, 0).color(), Some(Color::Black));
    assert_eq!(Coordinate::new(1, 0).color(), Some(Color::White));
}

#[test]
fn coordinate_from_takes_two_characters() {
    let mut s = String::from("h8e2");
    let c = Coordinate::from(&mut s);
    assert_eq!(c, Coordinate::new(7, 7));
    assert_eq!(s, "e2");
}

#[test]
fn square_values() {
    let b: Board = Default::default();
    assert_eq!(b.square(&Coordinate::new(3, 0)).value(), 9);
    assert_eq!(b.square(&Coordinate::new(3, 3)).value(), 0);
}

#[test]
fn put_remove_and_move_pieces() {
    let mut b = Board::new();
    let c = Coordinate::new(2, 2);
    let p = Piece { color: Color::White, ptype: PieceType::Bishop, location: Coordinate::new(0, 0), has_moved: false };
    b.put_piece_on(&c, p);
    let placed = b.square(&c).piece.unwrap();
    assert_eq!(placed.location, c);
    assert_eq!(placed.ptype, PieceType::Bishop);

    let to = Coordinate::new(5, 5);
    b.move_from(&c, &to);
    assert!(b.square(&c).piece.is_none());
    let moved = b.square(&to).piece.unwrap();
    assert!(moved.has_moved);
    assert_eq!(moved.location, to);

    b.remove_on(&to);
    assert!(b.square(&to).piece.is_none());
    assert_eq!(b.pieces().len(), 0);
}

#[test]
fn duplicate_is_equal_and_knows_its_moves() {
    let mut b: Board = Default::default();
    b.turn = Color::Black;
    b.round = 4;
    let d = b.duplicate();
    assert_eq!(d, b);
    assert_eq!(d.round, 4);
    assert_eq!(d.move_info.white_potential_moves.len(), 22);
    assert_eq!(d.move_info.black_threatened_squares.len(), 20);
    assert_eq!(b.move_info.white_potential_moves.len(), 0);
}

#[test]
fn boards_differing_in_turn_are_not_equal() {
    let a: Board = Default::default();
    let mut b: Board = Default::default();
    assert_eq!(a, b);
    b.turn = Color::Black;
    assert_ne!(a, b);
}

#[test]
fn round_next_turn_counts_black_into_the_next_round() {
    let mut b = Board::new();
    assert_eq!(b.round_next_turn(), 1);
    b.turn = Color::Black;
    assert_eq!(b.round_next_turn(), 2);
}

#[test]
fn locations_are_in_column_order() {
    let b = empty_with(&[(3, 3, Color::White, PieceType::Queen, true), (1, 6, Color::Black, PieceType::Rook, true)]);
    assert_eq!(b.locations(), vec![Coordinate::new(1, 6), Coordinate::new(3, 3)]);
}

#[test]
fn new_move_values_captures_and_promotions() {
    let b = empty_with(&[
        (0, 6, Color::White, PieceType::Pawn(0), true),
        (1, 7, Color::Black, PieceType::Rook, false),
    ]);
    let capture = Move::new(Coordinate::new(0, 6), Coordinate::new(1, 7), &b, None, false);
    assert_eq!(capture.value, 5);
    assert!(!capture.piece_first_move);
    let promote = Move::new(Coordinate::new(0, 6), Coordinate::new(0, 7), &b, Some(PieceType::Queen), false);
    assert_eq!(promote.value, 8);
    let quiet = Move::new(Coordinate::new(1, 7), Coordinate::new(1, 5), &b, None, false);
    assert_eq!(quiet.value, 0);
    assert!(quiet.piece_first_move);
    assert!(quiet.is_two_square_pawn_move());
    assert_eq!(capture, Move::new(Coordinate::new(0, 6), Coordinate::new(1, 7), &b, Some(PieceType::Rook), false));
}

#[test]
fn new_move_finds_a_pawn_to_take_en_passant() {
    let mut b = empty_with(&[
        (0, 4, Color::White, PieceType::Pawn(0), true),
        (1, 4, Color::Black, PieceType::Pawn(3), true),
    ]);
    b.round = 3;
    let m = Move::new(Coordinate::new(0, 4), Coordinate::new(1, 5), &b, None, true);
    assert_eq!(m.en_passant, Some(Coordinate::new(1, 4)));
    b.round = 4;
    let late = Move::new(Coordinate::new(0, 4), Coordinate::new(1, 5), &b, None, true);
    assert_eq!(late.en_passant, None);
}

#[test]
fn capture_then_undo_restores_the_board() {
    let mut b = empty_with(&[
        (4, 0, Color::White, PieceType::Rook, true),
        (4, 6, Color::Black, PieceType::Knight, false),
    ]);
    let backup = b.clone();
    let mut m = Move::new(Coordinate::new(4, 0), Coordinate::new(4, 6), &b, None, false);
    m.perform_on(&mut b);
    assert_eq!(m.captured_type, Some(PieceType::Knight));
    assert_eq!(b.turn, Color::Black);
    assert_eq!(b.pieces().len(), 1);
    m.undo_on(&mut b);
    assert_eq!(b, backup);
    //the round ends one lower than it was
    assert_eq!(b.round, 0);
}

#[test]
fn en_passant_capture_removes_the_pawn() {
    let mut b = empty_with(&[
        (0, 4, Color::White, PieceType::Pawn(0), true),
        (1, 4, Color::Black, PieceType::Pawn(1), true),
    ]);
    let mut m = Move::new(Coordinate::new(0, 4), Coordinate::new(1, 5), &b, None, true);
    m.perform_on(&mut b);
    assert!(b.square(&Coordinate::new(1, 4)).piece.is_none());
    assert_eq!(b.square(&Coordinate::new(1, 5)).piece.unwrap().color, Color::White);
}

#[test]
fn two_square_pawn_move_can_be_taken_en_passant() {
    let mut b: Board = Default::default();
    let mut m = Move::new(Coordinate::new(4, 1), Coordinate::new(4, 3), &b, None, false);
    m.perform_on(&mut b);
    //black answers in the same round
    assert_eq!(b.square(&Coordinate::new(4, 3)).piece.unwrap().ptype, PieceType::Pawn(1));
    assert_eq!(b.round, 1);
    let mut reply = Move::new(Coordinate::new(3, 6), Coordinate::new(3, 4), &b, None, false);
    reply.perform_on(&mut b);
    //white answers in the next round
    assert_eq!(b.round, 2);
    assert_eq!(b.square(&Coordinate::new(3, 4)).piece.unwrap().ptype, PieceType::Pawn(3));
}

#[test]
fn castle_then_undo_keeps_pieces_marked_moved() {
    let mut b = empty_with(&[
        (4, 0, Color::White, PieceType::King, false),
        (7, 0, Color::White, PieceType::Rook, false),
    ]);
    let mut c = Castle::new(CastleSide::KingSide, Color::White);
    c.perform_on(&mut b);
    assert_eq!(b.square(&Coordinate::new(6, 0)).piece.unwrap().ptype, PieceType::King);
    assert_eq!(b.square(&Coordinate::new(5, 0)).piece.unwrap().ptype, PieceType::Rook);
    assert_eq!(b.turn, Color::White);
    c.undo_on(&mut b);
    let king = b.square(&Coordinate::new(4, 0)).piece.unwrap();
    let rook = b.square(&Coordinate::new(7, 0)).piece.unwrap();
    assert_eq!(king.ptype, PieceType::King);
    assert_eq!(rook.ptype, PieceType::Rook);
    assert!(king.has_moved);
    assert!(rook.has_moved);
}

#[test]
fn castle_legality() {
    let mut b = empty_with(&[
        (4, 0, Color::White, PieceType::King, false),
        (7, 0, Color::White, PieceType::Rook, false),
        (0, 0, Color::White, PieceType::Rook, true),
    ]);
    b.update();
    let mut king_side = Castle::new(CastleSide::KingSide, Color::White);
    let mut queen_side = Castle::new(CastleSide::QueenSide, Color::White);
    assert!(!king_side.is_illegal(&mut b));
    //the queen-side rook has moved
    assert!(queen_side.is_illegal(&mut b));

    //a black rook attacking f1 makes the king side illegal
    let f8 = Coordinate::new(5, 7);
    b.put_piece_on(&f8, Piece { color: Color::Black, ptype: PieceType::Rook, location: f8, has_moved: true });
    b.update();
    assert!(king_side.is_illegal(&mut b));
    assert_eq!(b.legal_castles(), (false, false, false, false));
}

#[test]
fn checkmate_needs_check_and_no_known_moves() {
    let mut b = empty_with(&[
        (4, 0, Color::White, PieceType::King, true),
        (0, 0, Color::Black, PieceType::Rook, true),
    ]);
    b.update();
    assert!(b.is_check(Color::White));
    //the king still has potential moves
    assert!(!b.is_checkmate(Color::White));
    b.move_info.white_potential_moves.clear();
    assert!(b.is_checkmate(Color::White));
    assert!(!b.is_check(Color::Black));
}

#[test]
fn two_kings_mean_no_check() {
    let mut b = empty_with(&[
        (4, 0, Color::White, PieceType::King, true),
        (5, 0, Color::White, PieceType::King, true),
        (0, 0, Color::Black, PieceType::Rook, true),
    ]);
    b.update();
    assert!(!b.is_check(Color::White));
}

#[test]
fn illegal_move_into_check() {
    let mut b = empty_with(&[
        (4, 0, Color::White, PieceType::King, true),
        (0, 1, Color::Black, PieceType::Rook, true),
    ]);
    b.update();
    let mut up = Action::Move(Move::new(Coordinate::new(4, 0), Coordinate::new(4, 1), &b, None, false));
    let mut aside = Action::Move(Move::new(Coordinate::new(4, 0), Coordinate::new(3, 0), &b, None, false));
    assert!(up.is_illegal(&mut b));
    assert!(!aside.is_illegal(&mut b));
    //a move from an empty square is not illegal
    let mut none = Action::Move(Move::new(Coordinate::new(2, 2), Coordinate::new(2, 3), &b, None, false));
    assert!(!none.is_illegal(&mut b));
}

#[test]
fn captures_come_first() {
    let b = empty_with(&[
        (0, 0, Color::White, PieceType::Rook, true),
        (0, 5, Color::Black, PieceType::Queen, true),
    ]);
    let moves = b.white_potential_moves();
    assert_eq!(moves.len(), 12);
    match moves[0] {
        Action::Move(m) => assert_eq!(m.to, Coordinate::new(0, 5)),
        Action::Castle(_) => panic!("a castle came first"),
    }
    assert_eq!(moves[0].evaluate(), 9);
    assert_eq!(moves[0].to_coordinate(), Some(Coordinate::new(0, 5)));
}

#[test]
fn drawing() {
    let b: Board = Default::default();
    let drawn = b.draw();
    assert!(drawn.starts_with("     a    b    c    d    e    f    g    h\n\n8 | "));
    assert!(drawn.contains("br"));
    assert!(drawn.contains("wk"));
    let s = Square { location: Coordinate::new(0, 0), color: Color::Black, piece: None };
    assert_eq!(s.draw(), "\x1b[40m\x1b[0;37m  \x1b[0m");
    assert_eq!(b.square(&Coordinate::new(4, 7)).piece.unwrap().draw(), "bk");
}

#[test]
fn material_and_center() {
    let mut b: Board = Default::default();
    assert_eq!(b.white_material(), 89);
    assert_eq!(b.black_material(), 89);
    assert_eq!(b.pawns_in_center(), 0);
    assert_eq!(b.queens_at_home(), (true, true));
    b.move_from(&Coordinate::new(4, 1), &Coordinate::new(4, 3));
    assert_eq!(b.pawns_in_center(), 1);
    b.remove_on(&Coordinate::new(3, 7));
    assert_eq!(b.black_material(), 80);
    assert_eq!(b.queens_at_home(), (false, true));
}
