use ocelot::board::{Board, Color, Coordinate, Square};

fn diff(generated: &[Square], expected: &[Square]) {
    let mut differences = 0;
    for col in 0..8 {
        for row in 0..8 {
            let generated_square = generated[col * 8 + row];
            let expected_square = expected[col * 8 + row];

            if generated_square != expected_square {
                differences += 1;
                println!("\n\nDifference at col {col} and row {row}.");
                if let Some(piece) = generated_square.piece {
                    println!("Generated piece: {piece:?}");
                } else {
                    println!("Didn't generate a piece.");
                }

                if let Some(piece) = expected_square.piece {
                    println!("Expected piece:  {piece:?}");
                } else {
                    println!("Didn't expect a piece.");
                }
            }
        }
    }
    println!("{differences} differences found.");
}

#[test]
fn parse_default_pos_fen() {
    let expected: Board = Default::default();
    let generated = Board::parse(String::from(
        "rnbqkbnr/pppppppp/8/8/8/8/PPPPPPPP/RNBQKBNR w KQkq - 0 1",
    ))
    .unwrap();
    println!(
        "drawing generated board (should be default position):\n{}",
        generated.draw()
    );
    diff(&generated.squares, &expected.squares);
    assert_eq!(generated, expected);
}

#[test]
fn parse_e4_pos_fen() {
    let mut expected: Board = Default::default();

    //move pawn to e4
    let pawn_start = Coordinate::new(4, 1);
    let pawn_end = Coordinate::new(4, 3);
    expected.move_from(&pawn_start, &pawn_end);
    expected.turn = Color::Black;

    //generate board
    let generated = Board::parse(String::from(
        "rnbqkbnr/pppppppp/8/8/4P3/8/PPPP1PPP/RNBQKBNR b KQkq e3 0 1",
    ))
    .unwrap();
    assert_eq!(generated, expected);
}
