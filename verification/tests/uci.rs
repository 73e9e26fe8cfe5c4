use ocelot::board::{Board, Color, Coordinate, PieceType};
use ocelot::movement::{Castle, CastleSide, Move};
use ocelot::uci::ToUCI;

#[test]
//generate an impossible pawn move to test all generation
fn generate_move() {
    let b: Board = Default::default();
    let expected = String::from("e2e4q");
    let m = Move::new(
        Coordinate::new(4, 1),
        Coordinate::new(4, 3),
        &b,
        Some(PieceType::Queen),
        false,
    );
    let generated = m.generate();
    assert_eq!(expected, generated);
}

#[test]
fn generate_castle() {
    let expected = String::from("e8g8");
    let generated = Castle::new(CastleSide::KingSide, Color::Black).generate();
    assert_eq!(generated, expected);
}
