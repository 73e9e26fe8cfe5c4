//! Moves, castles, and what a board keeps known of the moves on it.
use vstd::prelude::*;
use crate::board::{Board, Position, Color, Coordinate, PieceType, type_value, offset, on_board, idx, square_value_of};

verus! {

/// A move of one piece from one square to another. It records what it captured when
/// performed, so that it can be undone.
#[derive(Debug, Clone, Copy)]
pub struct Move {
    pub from: Coordinate,
    pub to: Coordinate,
    /// The square of a pawn that this move takes en passant.
    pub en_passant: Option<Coordinate>,
    /// A quick estimate of what the move gains.
    pub value: u32,
    pub promotion: Option<PieceType>,
    /// The type of the piece captured when the move was last performed.
    pub captured_type: Option<PieceType>,
    /// Whether the moving piece had not moved before.
    pub piece_first_move: bool,
}

/// The row beside `to` that a pawn taken en passant stands on, for a move from `from`.
pub open spec fn en_passant_square(from: Coordinate, to: Coordinate) -> Option<Coordinate> {
    let direction: int = if from.row < to.row { -1 } else { 1 };
    offset(to, direction, 0)
}

/// The move that `Move::new` builds.
pub open spec fn spec_new_move(
    from: Coordinate,
    to: Coordinate,
    b: Position,
    promotion: Option<PieceType>,
    en_passant: bool,
) -> Move {
    let moving = b.piece_at(from);
    let first = match moving {
        Some(p) => !p.has_moved,
        None => false,
    };
    let ep = if en_passant {
        let loc = en_passant_square(from, to).unwrap();
        match b.piece_at(loc) {
            Some(q) => if q.ptype == PieceType::Pawn(b.round) && (moving matches Some(p)
                ==> q.color != p.color) {
                Some(loc)
            } else {
                None
            },
            None => None,
        }
    } else {
        None
    };
    let value: int = match promotion {
        Some(t) => type_value(t) - 1,
        None => square_value_of(b.grid[idx(to)]),
    };
    Move {
        from,
        to,
        en_passant: ep,
        value: value as u32,
        promotion,
        captured_type: None,
        piece_first_move: first,
    }
}

/// Whether a move covers two rows.
pub open spec fn two_rows(m: Move) -> bool {
    m.to.row - m.from.row == 2 || m.from.row - m.to.row == 2
}

impl Move {
    /// A move from `from` to `to` on `game`. Where `en_passant` is set, the move takes the
    /// enemy pawn beside `to` if that pawn may be taken en passant this round. The value is
    /// the promotion's value minus 1, or else the value of the piece on `to`.
    pub fn new(
        from: Coordinate,
        to: Coordinate,
        game: &Board,
        promotion: Option<PieceType>,
        en_passant: bool,
    ) -> (m: Self)
        requires
            game.wf(),
            on_board(from),
            on_board(to),
            en_passant ==> en_passant_square(from, to) is Some,
        ensures
            m == spec_new_move(from, to, game.pos(), promotion, en_passant),
    {
        //get info about move
        let mut piece_first_move = false;
        let mut moving_piece_color: Option<Color> = None;
        let moving_piece = game.square(&from).piece;
        if let Some(piece) = moving_piece {
            piece_first_move = !piece.has_moved;
            moving_piece_color = Some(piece.color);
        }
        //check if en passant is possible

        let en_passant_location = if en_passant {
            //direction of en passant, NOT pawn movement direction.
            let direction: i32 = if from.row < to.row {
                -1
            } else {
                1
            };
            let loc = match to.with_offset(direction, 0) {
                Ok(l) => l,
                Err(_) => {
                    assert(false);
                    to
                },
            };
            //check if can be en passant'ed
            match game.square(&loc).piece {
                Some(piece) => {
                    //can it be en passant'ed this turn?
                    let other_color = match moving_piece_color {
                        Some(c) => piece.color != c,
                        None => true,
                    };
                    if piece.ptype == PieceType::Pawn(game.round) && other_color {
                        Some(loc)
                    } else {
                        None
                    }
                },
                None => None,
            }
        } else {
            None
        };

        //a quick-and-dirty evaluation, overwritten by search but useful in some places.
        let value: i32 = if let Some(ptype) = promotion {
            ptype.value() - 1
        } else {
            game.square(&to).value()
        };

        Move {
            from,
            to,
            en_passant: en_passant_location,
            value: value as u32,
            promotion,
            captured_type: None,
            piece_first_move,
        }
    }

    /// Whether the move covers two rows.
    pub fn is_two_square_pawn_move(&self) -> (b: bool)
        ensures
            b == two_rows(*self),
    {
        if self.to.row >= self.from.row {
            self.to.row - self.from.row == 2
        } else {
            self.from.row - self.to.row == 2
        }
    }

    /// Where the move goes.
    pub fn to_coordinate(&self) -> (c: Option<Coordinate>)
        ensures
            c == Some(self.to),
    {
        Some(self.to)
    }
}

impl PartialEq for Move {
    /// Two moves are equal where they go from and to the same squares.
    fn eq(&self, other: &Self) -> (r: bool) {
        self.from == other.from && self.to == other.to
    }
}

impl vstd::std_specs::cmp::PartialEqSpecImpl for Move {
    open spec fn obeys_eq_spec() -> bool {
        true
    }

    open spec fn eq_spec(&self, other: &Move) -> bool {
        self.from == other.from && self.to == other.to
    }
}

/// The side a player can castle on.
#[derive(Debug, Clone, Copy, PartialEq, Eq, Structural)]
pub enum CastleSide {
    KingSide,
    QueenSide,
}

/// The column the rook of a side starts on.
pub open spec fn rook_start(side: CastleSide) -> usize {
    match side {
        CastleSide::KingSide => 7,
        CastleSide::QueenSide => 0,
    }
}

/// The column the rook of a side ends on.
pub open spec fn rook_end(side: CastleSide) -> usize {
    match side {
        CastleSide::KingSide => 5,
        CastleSide::QueenSide => 3,
    }
}

/// The column the king ends on.
pub open spec fn king_end(side: CastleSide) -> usize {
    match side {
        CastleSide::KingSide => 6,
        CastleSide::QueenSide => 2,
    }
}

/// The columns that must be empty and unattacked for a castle.
pub open spec fn must_be_empty(side: CastleSide) -> Seq<usize> {
    match side {
        CastleSide::KingSide => seq![6usize, 5usize],
        CastleSide::QueenSide => seq![1usize, 2usize, 3usize],
    }
}

impl CastleSide {
    pub fn rook_start_col(&self) -> (c: usize)
        ensures
            c == rook_start(*self),
    {
        match self {
            Self::KingSide => 7,
            Self::QueenSide => 0,
        }
    }

    pub fn rook_end_col(&self) -> (c: usize)
        ensures
            c == rook_end(*self),
    {
        match self {
            Self::KingSide => 5,
            Self::QueenSide => 3,
        }
    }

    pub fn king_end_col(&self) -> (c: usize)
        ensures
            c == king_end(*self),
    {
        match self {
            Self::KingSide => 6,
            Self::QueenSide => 2,
        }
    }

    pub fn squares_that_must_be_empty(&self) -> (v: Vec<usize>)
        ensures
            v@ == must_be_empty(*self),
    {
        match self {
            Self::KingSide => vec![6, 5],
            Self::QueenSide => vec![1, 2, 3],
        }
    }
}

/// A castling move of one player on one side.
#[derive(Debug, Clone, Copy, PartialEq, Eq, Structural)]
pub struct Castle {
    pub side: CastleSide,
    pub player: Color,
}

/// The row a player castles on.
pub open spec fn castle_row(c: Castle) -> usize {
    match c.player {
        Color::White => 0,
        Color::Black => 7,
    }
}

impl Castle {
    pub fn new(side: CastleSide, player: Color) -> (c: Self)
        ensures
            c.side == side,
            c.player == player,
    {
        Castle { side, player }
    }

    /// The row the player castles on: 0 for White, 7 for Black.
    pub fn row(&self) -> (r: usize)
        ensures
            r == castle_row(*self),
    {
        match self.player {
            Color::White => 0,
            Color::Black => 7,
        }
    }

    /// A castle moves two pieces and has no single target square.
    pub fn to_coordinate(&self) -> (c: Option<Coordinate>)
        ensures
            c is None,
    {
        None
    }
}

/// Something a player can do: move a piece, or castle.
#[derive(Debug, Clone, Copy)]
pub enum Action {
    Move(Move),
    Castle(Castle),
}

/// Where an action goes: a move's target, and nothing for a castle.
pub open spec fn target_of(a: Action) -> Option<Coordinate> {
    match a {
        Action::Move(m) => Some(m.to),
        Action::Castle(_) => None,
    }
}

/// The quick estimate of an action: a move's value, and 2 for a castle.
pub open spec fn estimate(a: Action) -> int {
    match a {
        Action::Move(m) => m.value as int,
        Action::Castle(_) => 2,
    }
}

impl Action {
    /// Where the action goes; a castle has no single target.
    pub fn to_coordinate(&self) -> (c: Option<Coordinate>)
        ensures
            c == target_of(*self),
    {
        match self {
            Action::Move(m) => m.to_coordinate(),
            Action::Castle(c) => c.to_coordinate(),
        }
    }

    /// The quick estimate of what the action gains: a move's value, 2 for a castle.
    pub fn evaluate(&self) -> (v: u32)
        ensures
            v == estimate(*self),
    {
        match self {
            Action::Move(m) => m.value,
            Action::Castle(_) => 2,
        }
    }

    /// A copy of the action.
    pub fn duplicate(&self) -> (a: Action)
        ensures
            a == *self,
    {
        *self
    }
}

} // verus!
