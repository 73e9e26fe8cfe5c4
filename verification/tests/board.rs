use ocelot::board::{Board, Coordinate};

fn default_board() -> Board {
    let mut b = Board::new();
    b.populate_starting_pos();
    b
}

#[test]
fn positive_offset() {
    let c = Coordinate::new(5, 5);
    let new = c.with_offset(1, 1);
    assert_eq!(new, Ok(Coordinate::new(6, 6)));
}

#[test]
fn negative_offset() {
    let c = Coordinate::new(5, 5);
    let new = c.with_offset(-5, -5);
    assert_eq!(new, Ok(Coordinate::new(0, 0)));
}

#[test]
fn num_of_pieces() {
    let b = default_board();
    assert_eq!(b.pieces().len(), 32);
    assert_eq!(b.white_pieces().len(), 16);
    assert_eq!(b.black_pieces().len(), 16);
}

#[test]
fn coordinate_from() {
    let expected = Coordinate::new(0, 0);
    let generated = Coordinate::from(&mut String::from("a1"));
    assert_eq!(generated, expected);
}
