use ocelot::board::{Board, Color, Coordinate, Piece, PieceType};
use ocelot::bot::{interpret_uci, uci_line_would_panic, UciCommand};
use ocelot::fen::fen_would_panic;
use ocelot::go::{go_would_panic, Go, SearchCutoff};
use ocelot::movement::{Action, Castle, CastleSide, Move};
use ocelot::uci::{
    move_parse_would_panic, parse_action, parse_action_would_panic, safe_parse_action,
    safe_parse_would_panic, FromUCI, ToUCI,
};

fn castling_board() -> Board {
    let mut b = Board::new();
    for (col, ptype) in [(4, PieceType::King), (7, PieceType::Rook), (0, PieceType::Rook)] {
        let c = Coordinate::new(col, 0);
        b.put_piece_on(&c, Piece { color: Color::White, ptype, location: c, has_moved: false });
    }
    b
}

#[test]
fn move_text_reads_back() {
    let b: Board = Default::default();
    let m = Move::new(Coordinate::new(6, 0), Coordinate::new(5, 2), &b, None, false);
    let text = m.generate();
    assert_eq!(text, "g1f3");
    match Move::parse(text, &b) {
        Ok(Action::Move(read)) => {
            assert_eq!(read.from, m.from);
            assert_eq!(read.to, m.to);
            assert_eq!(read.promotion, None);
        }
        _ => panic!("the move did not read back"),
    }
}

#[test]
fn move_parse_refusals() {
    let b: Board = Default::default();
    //own piece on the target
    assert!(Move::parse(String::from("e1e2"), &b).is_err());
    //not squares
    assert!(Move::parse(String::from("z1e2"), &b).is_err());
    assert!(Move::parse(String::from("e0e2"), &b).is_err());
    //too short, too long, a space
    assert!(Move::parse(String::from("e2e"), &b).is_err());
    assert!(Move::parse(String::from("e2e4qq"), &b).is_err());
    assert!(Move::parse(String::from("e2 e4"), &b).is_err());
    //a promotion letter that names nothing is dropped
    match Move::parse(String::from("e2e4x"), &b) {
        Ok(Action::Move(m)) => assert_eq!(m.promotion, None),
        _ => panic!("expected a move"),
    }
    //the black pawn on a7 would take the black rook on a8
    assert!(Move::parse(String::from("a7a8Q"), &b).is_err());
    let mut e = Board::new();
    let a7 = Coordinate::new(0, 6);
    e.put_piece_on(&a7, Piece { color: Color::White, ptype: PieceType::Pawn(0), location: a7, has_moved: true });
    match Move::parse(String::from("a7a8Q"), &e) {
        Ok(Action::Move(m)) => assert_eq!(m.promotion, Some(PieceType::Queen)),
        _ => panic!("expected a move"),
    }
}

#[test]
fn move_along_the_last_row_panics() {
    let b = castling_board();
    assert!(move_parse_would_panic(&String::from("a8b8"), &b));
    assert!(!move_parse_would_panic(&String::from("a7b8"), &b));
    assert!(parse_action_would_panic(&String::from("a8b8"), &b));
    assert!(parse_action_would_panic(&String::from(""), &b));
    assert!(parse_action_would_panic(&String::from("zz"), &b));
    assert!(!parse_action_would_panic(&String::from("e1g1"), &b));
    assert!(safe_parse_would_panic(&String::from(""), &b));
    assert!(!safe_parse_would_panic(&String::from("zz"), &b));
}

#[test]
fn castle_text_reads_back_where_legal() {
    let mut b = castling_board();
    let c = Castle::new(CastleSide::KingSide, Color::White);
    let text = c.generate();
    assert_eq!(text, "e1g1");
    match Castle::parse(text.clone(), &b) {
        Ok(Action::Castle(read)) => assert_eq!(read, c),
        _ => panic!("the castle did not read back"),
    }
    assert_eq!(Castle::new(CastleSide::QueenSide, Color::White).generate(), "e1c1");
    //black's castles are illegal here: there is no black king
    assert!(Castle::parse(String::from("e8g8"), &b).is_err());
    assert!(Castle::parse(String::from("e1f1"), &b).is_err());
    assert!(Castle::parse(String::from("d1g1"), &b).is_err());

    let action = parse_action(text.clone(), &mut b);
    assert!(matches!(action, Action::Castle(_)));
    assert_eq!(action.generate(), "e1g1");
    //a king's step that is not a castle reads as a move
    assert!(matches!(safe_parse_action(String::from("e1e2"), &mut b), Ok(Action::Move(_))));
    assert!(safe_parse_action(String::from("hello"), &mut b).is_err());
}

#[test]
fn fen_reading() {
    let b = Board::parse(String::from("startpos moves e2e4")).unwrap();
    assert_eq!(b, Default::default());

    let k = Board::parse(String::from("4k3/8/8/8/8/8/8/4K2R w K - 0 1")).unwrap();
    assert_eq!(k.pieces().len(), 3);
    assert!(!k.square(&Coordinate::new(4, 0)).piece.unwrap().has_moved);
    assert!(!k.square(&Coordinate::new(7, 0)).piece.unwrap().has_moved);
    //black's king keeps counting as moved: black has no castling right
    assert!(k.square(&Coordinate::new(4, 7)).piece.unwrap().has_moved);
    assert_eq!(k.turn, Color::White);
    assert_eq!(k.round, 1);

    //no turn field
    assert!(Board::parse(String::from("8/8/8/8/8/8/8/8")).is_err());
    //a turn that names no color
    assert!(Board::parse(String::from("8/8/8/8/8/8/8/8 x - - 0 1")).is_err());
    //the text ends in the castling field
    assert!(Board::parse(String::from("8/8/8/8/8/8/8/8 b KQ")).is_err());
}

#[test]
fn fen_panics_detected() {
    //nine pieces on a row
    assert!(fen_would_panic(&String::from("ppppppppp/8/8/8/8/8/8/8 w - - 0 1")));
    //more rows than the board has
    assert!(fen_would_panic(&String::from("8/8/8/8/8/8/8/8/8 w - - 0 1")));
    //an en passant square is read
    assert!(fen_would_panic(&String::from("8/8/8/8/8/8/8/8 w - e3 0 1")));
    assert!(!fen_would_panic(&String::from("8/8/8/8/8/8/8/8 w - - 0 1")));
    assert!(!fen_would_panic(&String::from("startpos")));
}

#[test]
fn go_reading() {
    let mut b: Board = Default::default();
    let g = Go::parse(String::from("depth 5"), &mut b).unwrap();
    assert_eq!(g.cutoff, SearchCutoff::Depth(5));
    assert_eq!(g.searchmoves.len(), 0);
    assert_eq!(g.movestogo, None);
    assert_eq!(Go::parse(String::from("infinite"), &mut b).unwrap().cutoff, SearchCutoff::Infinite);
    assert_eq!(Go::parse(String::from("mate -3"), &mut b).unwrap().cutoff, SearchCutoff::Mate(-3));
    assert_eq!(Go::parse(String::from(" nodes\t+100 "), &mut b).unwrap().cutoff, SearchCutoff::Nodes(100));
    //a number out of range is skipped
    assert_eq!(Go::parse(String::from("depth 99999999999"), &mut b).unwrap().cutoff, SearchCutoff::Infinite);
    //a number without a unit is skipped
    assert_eq!(Go::parse(String::from("7"), &mut b).unwrap().cutoff, SearchCutoff::Infinite);
    //anything after the cutoff is refused
    assert!(Go::parse(String::from("depth 5 wtime 100"), &mut b).is_err());
    assert!(Go::parse(String::from("depth 5 searchmoves e2e4"), &mut b).is_err());
    assert!(!go_would_panic(&String::from("depth 5 searchmoves e2e4"), &b));
}

#[test]
fn uci_commands() {
    assert!(matches!(interpret_uci(&String::from("quit\n")), UciCommand::Quit));
    assert!(matches!(interpret_uci(&String::from("isready\n")), UciCommand::IsReady));
    assert!(matches!(interpret_uci(&String::from("d\n")), UciCommand::Display));
    assert!(matches!(interpret_uci(&String::from("   \n")), UciCommand::Empty));
    match interpret_uci(&String::from("position startpos\n")) {
        UciCommand::Position(tail) => assert_eq!(tail, "startpos\n"),
        _ => panic!("expected a position command"),
    }
    match interpret_uci(&String::from("go depth 3\n")) {
        UciCommand::Go(tail) => assert_eq!(tail, "depth 3\n"),
        _ => panic!("expected a go command"),
    }
    //the text after the command is counted from the start of the line
    match interpret_uci(&String::from("  go\n")) {
        UciCommand::Go(tail) => assert_eq!(tail, "o\n"),
        _ => panic!("expected a go command"),
    }
    match interpret_uci(&String::from("hello there\n")) {
        UciCommand::Unknown(command) => assert_eq!(command, "hello"),
        _ => panic!("expected an unknown command"),
    }
    assert!(uci_line_would_panic(&String::from("quit")));
    assert!(!uci_line_would_panic(&String::from("quit\n")));
    assert!(!uci_line_would_panic(&String::from("")));
}
