//! The integer parts of the static evaluation of a board: material, pawns in the center,
//! which castles are legal, and queens on their home squares.
use vstd::prelude::*;
use crate::board::{
    Board, Color, Coordinate, Piece, PieceType, Square, color_pieces, color_value, colored_upto,
    lemma_coord_at, on_board, type_value,
};
use crate::movement::{Castle, CastleSide};
use crate::perform::castle_illegal;

verus! {

/// The total value of some pieces.
pub open spec fn material(ps: Seq<Piece>) -> int
    decreases ps.len(),
{
    if ps.len() == 0 {
        0
    } else {
        material(ps.drop_last()) + type_value(ps.last().ptype)
    }
}

/// A grid holds at most one piece of a color per square.
proof fn lemma_colored_len(g: Seq<Square>, n: int, color: Color)
    requires
        0 <= n,
    ensures
        colored_upto(g, n, color).len() <= n,
    decreases n,
{
    if n > 0 {
        lemma_colored_len(g, n - 1, color);
    }
}

/// The value of some pieces lies between 0 and 50 per piece.
proof fn lemma_material_bounds(ps: Seq<Piece>)
    ensures
        0 <= material(ps) <= 50 * ps.len(),
    decreases ps.len(),
{
    if ps.len() > 0 {
        lemma_material_bounds(ps.drop_last());
    }
}

/// What a pawn on a center square scores: 1 for White, -1 for Black, 0 for anything else.
pub open spec fn center_score(s: Square) -> int {
    match s.piece {
        Some(p) => if type_value(p.ptype) == 1 {
            color_value(p.color)
        } else {
            0
        },
        None => 0,
    }
}

/// Whether a square holds a queen of a color.
pub open spec fn queen_of(s: Square, color: Color) -> bool {
    s.piece matches Some(p) && p.color == color && p.ptype == PieceType::Queen
}

impl Board {
    /// The total value of White's pieces.
    pub fn white_material(&self) -> (v: i32)
        requires
            self.wf(),
        ensures
            v == material(color_pieces(self.grid(), Color::White)),
    {
        let pieces = self.white_pieces();
        proof {
            lemma_colored_len(self.grid(), 64, Color::White);
        }
        Self::material_of(&pieces)
    }

    /// The total value of Black's pieces.
    pub fn black_material(&self) -> (v: i32)
        requires
            self.wf(),
        ensures
            v == material(color_pieces(self.grid(), Color::Black)),
    {
        let pieces = self.black_pieces();
        proof {
            lemma_colored_len(self.grid(), 64, Color::Black);
        }
        Self::material_of(&pieces)
    }

    fn material_of(pieces: &Vec<Piece>) -> (v: i32)
        requires
            pieces@.len() <= 64,
        ensures
            v == material(pieces@),
    {
        let mut value: i32 = 0;
        let mut i: usize = 0;
        while i < pieces.len()
            invariant
                i <= pieces@.len(),
                pieces@.len() <= 64,
                value == material(pieces@.take(i as int)),
            decreases pieces@.len() - i,
        {
            proof {
                assert(pieces@.take(i as int + 1).drop_last() == pieces@.take(i as int));
                lemma_material_bounds(pieces@.take(i as int));
            }
            value = value + pieces[i].ptype.value();
            i += 1;
        }
        assert(pieces@.take(pieces@.len() as int) == pieces@);
        value
    }

    /// The sum of the colors' values of the pawns on the four center squares (columns 3 and
    /// 4, rows 3 and 4).
    pub fn pawns_in_center(&self) -> (v: i32)
        requires
            self.wf(),
        ensures
            v == center_score(self.grid()[27int]) + center_score(self.grid()[28int])
                + center_score(self.grid()[35int]) + center_score(self.grid()[36int]),
    {
        let mut value: i32 = 0;
        let mut col: usize = 3;
        while col <= 4
            invariant
                self.wf(),
                3 <= col <= 5,
                value == (if col > 3 {
                    center_score(self.grid()[27int]) + center_score(self.grid()[28int])
                } else {
                    0
                }) + (if col > 4 {
                    center_score(self.grid()[35int]) + center_score(self.grid()[36int])
                } else {
                    0
                }),
            decreases 5 - col,
        {
            let mut row: usize = 3;
            let ghost before = value;
            while row <= 4
                invariant
                    self.wf(),
                    3 <= col <= 4,
                    3 <= row <= 5,
                    value == before + (if row > 3 {
                        center_score(self.grid()[col * 8 + 3])
                    } else {
                        0
                    }) + (if row > 4 {
                        center_score(self.grid()[col * 8 + 4])
                    } else {
                        0
                    }),
                    -2 <= before <= 2,
                decreases 5 - row,
            {
                //get the piece and score it
                let location = Coordinate::new(col, row);
                let square = self.square(&location);
                if let Some(piece) = square.piece {
                    if piece.ptype.value() == 1 {
                        value = value + piece.color.value();
                    }
                }
                row += 1;
            }
            col += 1;
        }
        value
    }

    /// Which castles are legal as far as the board's move information knows: White's
    /// queen side, Black's queen side, White's king side, Black's king side.
    pub fn legal_castles(&mut self) -> (r: (bool, bool, bool, bool))
        requires
            old(self).wf(),
        ensures
            *final(self) == *old(self),
            r.0 == !castle_illegal(*old(self), Castle { side: CastleSide::QueenSide, player: Color::White }),
            r.1 == !castle_illegal(*old(self), Castle { side: CastleSide::QueenSide, player: Color::Black }),
            r.2 == !castle_illegal(*old(self), Castle { side: CastleSide::KingSide, player: Color::White }),
            r.3 == !castle_illegal(*old(self), Castle { side: CastleSide::KingSide, player: Color::Black }),
    {
        let mut white_queenside = Castle::new(CastleSide::QueenSide, Color::White);
        let mut black_queenside = Castle::new(CastleSide::QueenSide, Color::Black);
        let mut white_kingside = Castle::new(CastleSide::KingSide, Color::White);
        let mut black_kingside = Castle::new(CastleSide::KingSide, Color::Black);

        let a = !white_queenside.is_illegal(self);
        let b = !black_queenside.is_illegal(self);
        let c = !white_kingside.is_illegal(self);
        let d = !black_kingside.is_illegal(self);
        (a, b, c, d)
    }

    /// Whether each queen is on its home square: Black's on column 3 of row 7, White's on
    /// column 3 of row 0.
    pub fn queens_at_home(&self) -> (r: (bool, bool))
        requires
            self.wf(),
        ensures
            r.0 == queen_of(self.grid()[31int], Color::Black),
            r.1 == queen_of(self.grid()[24int], Color::White),
    {
        let black_queen_square = self.square(&Coordinate::new(3, 7));
        let white_queen_square = self.square(&Coordinate::new(3, 0));
        let black_home = match black_queen_square.piece {
            Some(piece) => piece.color == Color::Black && piece.ptype == PieceType::Queen,
            None => false,
        };
        let white_home = match white_queen_square.piece {
            Some(piece) => piece.color == Color::White && piece.ptype == PieceType::Queen,
            None => false,
        };
        (black_home, white_home)
    }
}

} // verus!
