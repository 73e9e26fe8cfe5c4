//! Generation of the potential moves of a piece: the moves that don't collide with the
//! piece's own side, before any check for legality.
use vstd::prelude::*;
use crate::board::{Board, Position, Color, Coordinate, Piece, PieceType, type_value, offset, on_board, idx, square_value_of, color_value};
use crate::movement::{Action, Castle, CastleSide, Move, spec_new_move};

verus! {

/// What a piece finds on a square: `Some(0)` when it is empty, the value of an enemy
/// piece, and `None` when a piece of its own color stands there.
pub open spec fn spec_square_value(p: Piece, b: Position, loc: Coordinate) -> Option<u32> {
    match b.piece_at(loc) {
        Some(q) => if q.color != p.color {
            Some(type_value(q.ptype) as u32)
        } else {
            None
        },
        None => Some(0),
    }
}

/// The move of a piece to a square, as `Move::new` builds it.
pub open spec fn step_to(
    p: Piece,
    b: Position,
    to: Coordinate,
    promotion: Option<PieceType>,
    en_passant: bool,
) -> Action {
    Action::Move(spec_new_move(p.location, to, b, promotion, en_passant))
}

/// A direction of one square at most in each way, and not standing still.
pub open spec fn unit_direction(rise: int, run: int) -> bool {
    &&& -1 <= rise <= 1
    &&& -1 <= run <= 1
    &&& (rise != 0 || run != 0)
}

/// How many more steps fit on the board going from `c` in a direction (an upper bound).
pub open spec fn room(c: Coordinate, rise: int, run: int) -> int {
    if rise > 0 {
        8 - c.row
    } else if rise < 0 {
        c.row + 1
    } else if run > 0 {
        8 - c.col
    } else {
        c.col + 1
    }
}

/// The moves of a sliding piece beyond `c` in a direction: every square up to the first
/// piece, that piece included where it is an enemy.
pub open spec fn ray(p: Piece, b: Position, c: Coordinate, rise: int, run: int) -> Seq<Action>
    decreases room(c, rise, run),
{
    if !unit_direction(rise, run) || room(c, rise, run) <= 0 {
        Seq::empty()
    } else {
        match offset(c, rise, run) {
            None => Seq::empty(),
            Some(n) => match spec_square_value(p, b, n) {
                None => Seq::empty(),
                Some(v) => if v > 0 {
                    seq![step_to(p, b, n, None, false)]
                } else {
                    seq![step_to(p, b, n, None, false)] + ray(p, b, n, rise, run)
                },
            },
        }
    }
}

/// The moves of a sliding piece in one direction.
pub open spec fn spec_project(p: Piece, b: Position, rise: int, run: int) -> Seq<Action> {
    ray(p, b, p.location, rise, run)
}

pub open spec fn spec_rook_moves(p: Piece, b: Position) -> Seq<Action> {
    spec_project(p, b, 1, 0) + spec_project(p, b, -1, 0) + spec_project(p, b, 0, 1)
        + spec_project(p, b, 0, -1)
}

pub open spec fn spec_bishop_moves(p: Piece, b: Position) -> Seq<Action> {
    spec_project(p, b, 1, 1) + spec_project(p, b, -1, 1) + spec_project(p, b, -1, -1)
        + spec_project(p, b, 1, -1)
}

/// The move of a piece to the square at an offset, where that square is on the board and
/// holds no piece of its own color.
pub open spec fn spec_try_square(p: Piece, b: Position, rise: int, run: int) -> Seq<Action> {
    match offset(p.location, rise, run) {
        None => Seq::empty(),
        Some(loc) => if spec_square_value(p, b, loc) is Some {
            seq![step_to(p, b, loc, None, false)]
        } else {
            Seq::empty()
        },
    }
}

pub open spec fn spec_knight_moves(p: Piece, b: Position) -> Seq<Action> {
    spec_try_square(p, b, 2, 1) + spec_try_square(p, b, 1, 2) + spec_try_square(p, b, -1, 2)
        + spec_try_square(p, b, -2, 1) + spec_try_square(p, b, -2, -1) + spec_try_square(
        p,
        b,
        -1,
        -2,
    ) + spec_try_square(p, b, 1, -2) + spec_try_square(p, b, 2, -1)
}

/// The king's moves: both castles (their legality is decided later), then the 8
/// surrounding squares.
pub open spec fn spec_king_moves(p: Piece, b: Position) -> Seq<Action> {
    seq![
        Action::Castle(Castle { side: CastleSide::KingSide, player: p.color }),
        Action::Castle(Castle { side: CastleSide::QueenSide, player: p.color }),
    ] + spec_try_square(p, b, 1, 1) + spec_try_square(p, b, 0, 1) + spec_try_square(p, b, -1, 1)
        + spec_try_square(p, b, -1, 0) + spec_try_square(p, b, -1, -1) + spec_try_square(
        p,
        b,
        0,
        -1,
    ) + spec_try_square(p, b, 1, -1) + spec_try_square(p, b, 1, 0)
}

/// The row on which a pawn of a color promotes.
pub open spec fn target_rank(c: Color) -> usize {
    match c {
        Color::White => 7,
        Color::Black => 0,
    }
}

/// The four promotions of a pawn moving to a square, queen first.
pub open spec fn promotions(p: Piece, b: Position, loc: Coordinate) -> Seq<Action> {
    seq![
        step_to(p, b, loc, Some(PieceType::Queen), false),
        step_to(p, b, loc, Some(PieceType::Rook), false),
        step_to(p, b, loc, Some(PieceType::Bishop), false),
        step_to(p, b, loc, Some(PieceType::Knight), false),
    ]
}

/// A pawn's push of one square, where that square is empty.
pub open spec fn spec_one_square(p: Piece, b: Position, direction: int) -> Option<Seq<Action>> {
    match offset(p.location, direction, 0) {
        None => None,
        Some(loc) => if spec_square_value(p, b, loc) != Some(0u32) {
            None
        } else if loc.row == target_rank(p.color) {
            Some(promotions(p, b, loc))
        } else {
            Some(seq![step_to(p, b, loc, None, false)])
        },
    }
}

/// A pawn's push of two squares, where the target square is empty.
pub open spec fn spec_two_square(p: Piece, b: Position, direction: int) -> Option<Move> {
    match offset(p.location, direction * 2, 0) {
        None => None,
        Some(loc) => if spec_square_value(p, b, loc) == Some(0u32) {
            Some(spec_new_move(p.location, loc, b, None, false))
        } else {
            None
        },
    }
}

/// A pawn's move to a square that holds an enemy piece.
pub open spec fn spec_only_captures(
    p: Piece,
    b: Position,
    loc: Coordinate,
    promotion: Option<PieceType>,
) -> Seq<Action> {
    match spec_square_value(p, b, loc) {
        Some(x) => if x != 0 {
            seq![step_to(p, b, loc, promotion, false)]
        } else {
            Seq::empty()
        },
        None => Seq::empty(),
    }
}

/// A pawn's diagonal captures to one side, promoting on the last row.
pub open spec fn spec_pawn_capture(p: Piece, b: Position, rise: int, run: int) -> Seq<Action> {
    match offset(p.location, rise, run) {
        None => Seq::empty(),
        Some(loc) => if loc.row == target_rank(p.color) {
            spec_only_captures(p, b, loc, Some(PieceType::Queen)) + spec_only_captures(
                p,
                b,
                loc,
                Some(PieceType::Rook),
            ) + spec_only_captures(p, b, loc, Some(PieceType::Bishop)) + spec_only_captures(
                p,
                b,
                loc,
                Some(PieceType::Knight),
            )
        } else {
            spec_only_captures(p, b, loc, None)
        },
    }
}

/// A pawn's capture en passant of the enemy pawn beside it, where that pawn may be taken
/// this round.
pub open spec fn spec_en_passant(p: Piece, b: Position, rise: int, run: int) -> Seq<Action> {
    match offset(p.location, 0, run) {
        None => Seq::empty(),
        Some(n) => match b.piece_at(n) {
            None => Seq::empty(),
            Some(q) => if q.ptype == PieceType::Pawn(b.round) && q.color != p.color {
                match offset(p.location, rise, run) {
                    None => Seq::empty(),
                    Some(e) => seq![step_to(p, b, e, None, true)],
                }
            } else {
                Seq::empty()
            },
        },
    }
}

/// A pawn's pushes, then its captures, then its captures en passant.
pub open spec fn spec_pawn_moves(p: Piece, b: Position) -> Seq<Action> {
    let d = color_value(p.color);
    let pushes = match spec_one_square(p, b, d) {
        Some(one) => match spec_two_square(p, b, d) {
            Some(m) => if !p.has_moved {
                one.push(Action::Move(m))
            } else {
                one
            },
            None => one,
        },
        None => Seq::empty(),
    };
    pushes + spec_pawn_capture(p, b, d, 1) + spec_pawn_capture(p, b, d, -1) + spec_en_passant(
        p,
        b,
        d,
        1,
    ) + spec_en_passant(p, b, d, -1)
}

/// The potential moves of a piece on a board.
pub open spec fn spec_potential_moves(p: Piece, b: Position) -> Seq<Action> {
    match p.ptype {
        PieceType::Rook => spec_rook_moves(p, b),
        PieceType::Knight => spec_knight_moves(p, b),
        PieceType::Bishop => spec_bishop_moves(p, b),
        PieceType::Queen => spec_rook_moves(p, b) + spec_bishop_moves(p, b),
        PieceType::King => spec_king_moves(p, b),
        PieceType::Pawn(_) => spec_pawn_moves(p, b),
    }
}

impl Piece {
    /// Potential moves that don't collide with the piece's own side; legality (check) is
    /// not looked at.
    pub fn potential_moves(&self, game: &Board) -> (moves: Vec<Action>)
        requires
            game.wf(),
            on_board(self.location),
        ensures
            moves@ == spec_potential_moves(*self, game.pos()),
    {
        match self.ptype {
            PieceType::Rook => self.rook_moves(game),
            PieceType::Knight => self.knight_moves(game),
            PieceType::Bishop => self.bishop_moves(game),
            PieceType::Queen => {
                //queen movement is just rook and bishop combined
                let mut moves = self.rook_moves(game);
                let mut more = self.bishop_moves(game);
                moves.append(&mut more);
                moves
            },
            PieceType::King => self.king_moves(game),
            PieceType::Pawn(_) => self.pawn_moves(game),
        }
    }

    fn rook_moves(&self, game: &Board) -> (moves: Vec<Action>)
        requires
            game.wf(),
            on_board(self.location),
        ensures
            moves@ == spec_rook_moves(*self, game.pos()),
    {
        let mut moves = self.project(game, 1, 0);
        let mut m2 = self.project(game, -1, 0);
        moves.append(&mut m2);
        let mut m3 = self.project(game, 0, 1);
        moves.append(&mut m3);
        let mut m4 = self.project(game, 0, -1);
        moves.append(&mut m4);
        moves
    }

    fn bishop_moves(&self, game: &Board) -> (moves: Vec<Action>)
        requires
            game.wf(),
            on_board(self.location),
        ensures
            moves@ == spec_bishop_moves(*self, game.pos()),
    {
        let mut moves = self.project(game, 1, 1);
        let mut m2 = self.project(game, -1, 1);
        moves.append(&mut m2);
        let mut m3 = self.project(game, -1, -1);
        moves.append(&mut m3);
        let mut m4 = self.project(game, 1, -1);
        moves.append(&mut m4);
        moves
    }

    fn king_moves(&self, game: &Board) -> (moves: Vec<Action>)
        requires
            game.wf(),
            on_board(self.location),
        ensures
            moves@ == spec_king_moves(*self, game.pos()),
    {
        let mut moves: Vec<Action> = Vec::new();

        //castling legality is determined later; for now it's just included
        moves.push(Action::Castle(Castle::new(CastleSide::KingSide, self.color)));
        moves.push(Action::Castle(Castle::new(CastleSide::QueenSide, self.color)));

        //try all 8 surrounding squares
        self.try_square(game, 1, 1, &mut moves);
        self.try_square(game, 0, 1, &mut moves);
        self.try_square(game, -1, 1, &mut moves);
        self.try_square(game, -1, 0, &mut moves);
        self.try_square(game, -1, -1, &mut moves);
        self.try_square(game, 0, -1, &mut moves);
        self.try_square(game, 1, -1, &mut moves);
        self.try_square(game, 1, 0, &mut moves);
        moves
    }

    fn knight_moves(&self, game: &Board) -> (moves: Vec<Action>)
        requires
            game.wf(),
            on_board(self.location),
        ensures
            moves@ == spec_knight_moves(*self, game.pos()),
    {
        let mut moves: Vec<Action> = Vec::new();

        self.try_square(game, 2, 1, &mut moves);
        self.try_square(game, 1, 2, &mut moves);
        self.try_square(game, -1, 2, &mut moves);
        self.try_square(game, -2, 1, &mut moves);
        self.try_square(game, -2, -1, &mut moves);
        self.try_square(game, -1, -2, &mut moves);
        self.try_square(game, 1, -2, &mut moves);
        self.try_square(game, 2, -1, &mut moves);
        moves
    }

    fn pawn_moves(&self, game: &Board) -> (moves: Vec<Action>)
        requires
            game.wf(),
            on_board(self.location),
        ensures
            moves@ == spec_pawn_moves(*self, game.pos()),
    {
        let mut moves: Vec<Action> = Vec::new();
        //multiplier for movement
        let direction = self.color.value();

        //move one square
        let one_square_movement = self.one_square_pawn_movement(game, direction);
        if let Some(mut pushes) = one_square_movement {
            moves.append(&mut pushes);

            //could move one, so can move 2
            if !self.has_moved {
                if let Some(m) = self.two_square_pawn_movement(game, direction) {
                    moves.push(Action::Move(m));
                }
            }
        }

        self.pawn_capture(direction, 1, game, &mut moves);
        self.pawn_capture(direction, -1, game, &mut moves);

        self.try_en_passant(direction, 1, game, &mut moves);
        self.try_en_passant(direction, -1, game, &mut moves);

        moves
    }

    fn try_en_passant(&self, rise: i32, run: i32, game: &Board, buffer: &mut Vec<Action>)
        requires
            game.wf(),
            on_board(self.location),
            rise == 1 || rise == -1,
            run == 1 || run == -1,
        ensures
            final(buffer)@ == old(buffer)@ + spec_en_passant(*self, game.pos(), rise as int, run as int),
    {
        let neighbor_loc = match self.location.with_offset(0, run) {
            Ok(loc) => loc,
            Err(_) => return ,
        };

        //get piece at loc
        let piece = match game.square(&neighbor_loc).piece {
            Some(piece) => piece,
            None => return ,
        };

        //determine if en passantable
        if piece.ptype == PieceType::Pawn(game.round) && piece.color != self.color {
            //possible!
            let en_passant_location = match self.location.with_offset(rise, run) {
                Ok(loc) => loc,
                Err(_) => return ,
            };
            buffer.push(
                Action::Move(Move::new(self.location, en_passant_location, game, None, true)),
            );
        }
    }

    fn pawn_capture(&self, rise: i32, run: i32, game: &Board, buffer: &mut Vec<Action>)
        requires
            game.wf(),
            on_board(self.location),
            rise == 1 || rise == -1,
            run == 1 || run == -1,
        ensures
            final(buffer)@ == old(buffer)@ + spec_pawn_capture(*self, game.pos(), rise as int, run as int),
    {
        let loc = match self.location.with_offset(rise, run) {
            Ok(l) => l,
            Err(_) => return ,
        };

        if loc.row == self.pawn_target_rank() {
            //all promotion types
            let ghost b0 = buffer@;
            self.only_captures(game, &loc, Some(PieceType::Queen), buffer);
            self.only_captures(game, &loc, Some(PieceType::Rook), buffer);
            self.only_captures(game, &loc, Some(PieceType::Bishop), buffer);
            self.only_captures(game, &loc, Some(PieceType::Knight), buffer);
            assert(buffer@ =~= b0 + spec_pawn_capture(*self, game.pos(), rise as int, run as int));
        } else {
            //only capture
            self.only_captures(game, &loc, None, buffer);
        }
    }

    fn one_square_pawn_movement(&self, game: &Board, direction: i32) -> (r: Option<Vec<Action>>)
        requires
            game.wf(),
            on_board(self.location),
            direction == 1 || direction == -1,
        ensures
            r matches Some(v) ==> spec_one_square(*self, game.pos(), direction as int) == Some(v@),
            r is None ==> spec_one_square(*self, game.pos(), direction as int) is None,
    {
        let location = match self.location.with_offset(direction, 0) {
            Ok(l) => l,
            Err(_) => return None,
        };

        let value = self.square_value(game, &location);
        if value != Some(0u32) {
            return None;
        }
        let mut moves: Vec<Action> = Vec::new();

        if location.row == self.pawn_target_rank() {
            //go through all promotion types
            moves.push(
                Action::Move(
                    Move::new(self.location, location, game, Some(PieceType::Queen), false),
                ),
            );
            moves.push(
                Action::Move(
                    Move::new(self.location, location, game, Some(PieceType::Rook), false),
                ),
            );
            moves.push(
                Action::Move(
                    Move::new(self.location, location, game, Some(PieceType::Bishop), false),
                ),
            );
            moves.push(
                Action::Move(
                    Move::new(self.location, location, game, Some(PieceType::Knight), false),
                ),
            );
            assert(moves@ =~= promotions(*self, game.pos(), location));
        } else {
            moves.push(Action::Move(Move::new(self.location, location, game, None, false)));
            assert(moves@ =~= seq![step_to(*self, game.pos(), location, None, false)]);
        }
        Some(moves)
    }

    //find two-square move without checking for legality/blocked
    fn two_square_pawn_movement(&self, game: &Board, direction: i32) -> (r: Option<Move>)
        requires
            game.wf(),
            on_board(self.location),
            direction == 1 || direction == -1,
        ensures
            r == spec_two_square(*self, game.pos(), direction as int),
    {
        let location = match self.location.with_offset(direction * 2, 0) {
            Ok(loc) => loc,
            Err(_) => return None,
        };

        if self.square_value(game, &location) == Some(0u32) {
            return Some(Move::new(self.location, location, game, None, false));
        }
        None
    }

    /// The row on which this pawn promotes: 7 for White, 0 for Black.
    pub fn pawn_target_rank(&self) -> (r: usize)
        ensures
            r == target_rank(self.color),
    {
        match self.color {
            Color::White => 7,
            Color::Black => 0,
        }
    }

    //like try_square(), but only works if there's a capture
    fn only_captures(
        &self,
        game: &Board,
        location: &Coordinate,
        promotion: Option<PieceType>,
        buffer: &mut Vec<Action>,
    )
        requires
            game.wf(),
            on_board(self.location),
            on_board(*location),
        ensures
            final(buffer)@ == old(buffer)@ + spec_only_captures(*self, game.pos(), *location, promotion),
    {
        let value = self.square_value(game, location);
        let capture = match value {
            Some(x) => x != 0,
            None => false,
        };
        if capture {
            buffer.push(Action::Move(Move::new(self.location, *location, game, promotion, false)));
        }
        assert(final(buffer)@ =~= old(buffer)@ + spec_only_captures(
            *self,
            game.pos(),
            *location,
            promotion,
        ));
    }

    fn try_square(&self, game: &Board, rise: i32, run: i32, buffer: &mut Vec<Action>)
        requires
            game.wf(),
            on_board(self.location),
            -2 <= rise <= 2,
            -2 <= run <= 2,
        ensures
            final(buffer)@ == old(buffer)@ + spec_try_square(*self, game.pos(), rise as int, run as int),
    {
        //apply movement
        let location = match self.location.with_offset(rise, run) {
            Ok(loc) => loc,
            Err(_) => return ,
        };

        //find square value
        let value = self.square_value(game, &location);
        if value.is_some() {
            //create move to square
            buffer.push(Action::Move(Move::new(self.location, location, game, None, false)));
        }
    }

    //project in a direction until a collision or end of board
    fn project(&self, game: &Board, rise: i32, run: i32) -> (moves: Vec<Action>)
        requires
            game.wf(),
            on_board(self.location),
            unit_direction(rise as int, run as int),
        ensures
            moves@ == spec_project(*self, game.pos(), rise as int, run as int),
    {
        let mut moves: Vec<Action> = Vec::new();
        let mut coord = self.location;

        //loop until end of board
        loop
            invariant_except_break
                on_board(coord),
                moves@ + ray(*self, game.pos(), coord, rise as int, run as int) == spec_project(
                    *self,
                    game.pos(),
                    rise as int,
                    run as int,
                ),
            invariant
                game.wf(),
                on_board(self.location),
                unit_direction(rise as int, run as int),
            ensures
                moves@ == spec_project(*self, game.pos(), rise as int, run as int),
            decreases room(coord, rise as int, run as int),
        {
            let ghost prev = coord;
            //step once, stopping at the edge of the board
            if rise < 0 {
                if coord.row == 0 {
                    break ;
                }
                coord.row = coord.row - 1;
            } else {
                coord.row = coord.row + rise as usize;
            }

            if run < 0 {
                if coord.col == 0 {
                    break ;
                }
                coord.col = coord.col - 1;
            } else {
                coord.col = coord.col + run as usize;
            }

            if coord.col > 7 {
                break ;
            }
            if !coord.is_valid() {
                break ;
            }
            assert(offset(prev, rise as int, run as int) == Some(coord));

            //create move
            let m = Move::new(self.location, coord, game, None, false);

            let value = self.square_value(game, &coord);
            if let Some(v) = value {
                moves.push(Action::Move(m));
                if v > 0 {
                    break ;
                }
            } else {
                break ;  //returned None, so illegal
            }
        }
        moves
    }

    /// `Some(0)` for an empty square, the value of an enemy piece, and `None` for a square
    /// occupied by a piece of the same color.
    pub fn square_value(&self, game: &Board, location: &Coordinate) -> (v: Option<u32>)
        requires
            game.wf(),
            on_board(*location),
        ensures
            v == spec_square_value(*self, game.pos(), *location),
    {
        let square = game.square(location);
        if let Some(piece) = square.piece {
            if piece.color != self.color {
                Some(piece.ptype.value() as u32)
            } else {
                None
            }
        } else {
            Some(0)
        }
    }
}

} // verus!
