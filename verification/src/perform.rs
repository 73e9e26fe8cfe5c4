//! Performing and undoing actions on a board, and telling whether an action is illegal.
use vstd::prelude::*;
use crate::board::{
    Board, Color, Coordinate, Piece, PieceType, Position, cleared, grid_wf, idx, lemma_idx_injective,
    moved, on_board, opposite_of, put, square_ok, type_value,
};
use crate::check::{check_in, check_with, holds, side_moves, spec_is_check, targets, threatened_by};
use crate::movement::{
    Action, Castle, CastleSide, Move, castle_row, king_end, must_be_empty, rook_end, rook_start,
    two_rows,
};

verus! {

/// The moving piece after a move: promoted where the move promotes, marked as moved, and
/// after a pawn's two-row move marked as takeable en passant on the round its opponent
/// answers (`round` is the round after the move).
pub open spec fn performed_piece(p: Piece, m: Move, round: int) -> Piece {
    let t = match m.promotion {
        Some(t) => t,
        None => p.ptype,
    };
    let t2 = if type_value(t) == 1 && two_rows(m) {
        PieceType::Pawn((if p.color == Color::White { round } else { round + 1 }) as i32)
    } else {
        t
    };
    Piece { color: p.color, ptype: t2, location: p.location, has_moved: true }
}

/// The position after a move: the other player's turn (a new round where White is next),
/// the piece moved from `from` to `to`, and the pawn taken en passant removed.
pub open spec fn after_perform(b: Position, m: Move) -> Position {
    let p = b.piece_at(m.from).unwrap();
    let turn = opposite_of(p.color);
    let round = if turn == Color::White { b.round + 1 } else { b.round as int };
    let g = put(cleared(b.grid, m.from), m.to, performed_piece(p, m, round));
    let g2 = match m.en_passant {
        Some(e) => cleared(g, e),
        None => g,
    };
    Position { grid: g2, turn, round: round as i32 }
}

/// A move after it was performed: it records the type of the piece it captured, if any.
pub open spec fn recorded(b: Position, m: Move) -> Move {
    match b.piece_at(m.to) {
        Some(q) => Move { captured_type: Some(q.ptype), ..m },
        None => m,
    }
}

/// The moving piece as an undo puts it back: a promoted piece becomes a pawn again, a
/// pawn's two-row move loses its en passant mark, and it has moved unless the move was its
/// first.
pub open spec fn undone_piece(q: Piece, m: Move) -> Piece {
    let t = if m.promotion is Some { PieceType::Pawn(0) } else { q.ptype };
    let t2 = if type_value(t) == 1 && two_rows(m) { PieceType::Pawn(0) } else { t };
    Piece { color: q.color, ptype: t2, location: q.location, has_moved: !m.piece_first_move }
}

/// The position after a move is undone: the round goes back once, and once more where it
/// becomes Black's turn again; the piece goes back from `to` to `from`; a pawn taken en
/// passant and a captured piece come back, as unmoved pieces of the other color.
pub open spec fn after_undo(b: Position, m: Move) -> Position {
    let r1 = b.round - 1;
    let q = undone_piece(b.piece_at(m.to).unwrap(), m);
    let turn = opposite_of(b.turn);
    let round = if turn == Color::Black { r1 - 1 } else { r1 };
    let g = put(cleared(b.grid, m.to), m.from, q);
    let g2 = match m.en_passant {
        Some(e) => put(
            g,
            e,
            Piece {
                color: opposite_of(q.color),
                ptype: PieceType::Pawn(round as i32),
                location: e,
                has_moved: false,
            },
        ),
        None => g,
    };
    let g3 = match m.captured_type {
        Some(t) => put(
            g2,
            m.to,
            Piece { color: opposite_of(q.color), ptype: t, location: m.to, has_moved: false },
        ),
        None => g2,
    };
    Position { grid: g3, turn, round: round as i32 }
}

/// The squares of a move lie on the board.
pub open spec fn move_on_board(m: Move) -> bool {
    &&& on_board(m.from)
    &&& on_board(m.to)
    &&& m.en_passant matches Some(e) ==> on_board(e)
}

/// A round far enough from the ends of `i32` for a move and its undo.
pub open spec fn round_in_range(round: i32) -> bool {
    i32::MIN + 2 < round < i32::MAX - 2
}

/// A round far enough from the ends of `i32` for a move, its undo, and a check between.
pub open spec fn round_in_range_for_trial(round: i32) -> bool {
    i32::MIN + 2 < round < i32::MAX - 3
}

impl Move {
    /// Whether the move leaves its own player in check: it performs the move, looks for
    /// check, and undoes it. A move from an empty square is not illegal. Undoing does not
    /// give back the round exactly (see `after_undo`), so the board is left as `after_undo`
    /// of `after_perform` says.
    pub fn is_illegal(&mut self, game: &mut Board) -> (r: bool)
        requires
            old(game).wf(),
            move_on_board(*old(self)),
            old(self).en_passant != Some(old(self).to),
            round_in_range_for_trial(old(game).round),
        ensures
            final(game).wf(),
            match old(game).piece_at(old(self).from) {
                None => {
                    &&& r == false
                    &&& *final(game) == *old(game)
                    &&& *final(self) == *old(self)
                },
                Some(p) => {
                    let after = after_perform(old(game).pos(), *old(self));
                    let m = recorded(old(game).pos(), *old(self));
                    &&& r == check_in(after, p.color)
                    &&& *final(self) == m
                    &&& final(game).pos() == after_undo(after, m)
                    &&& final(game).move_info.describes(*final(game))
                },
            },
    {
        //unwrap moving piece
        let moving_piece = match game.square(&self.from).piece {
            Some(piece) => piece,
            None => {
                return false;
            },
        };

        //check for check
        self.perform_on(game);
        let result = game.is_check(moving_piece.color);
        self.undo_on(game);

        result
    }

    /// Moves the piece (promoting it where the move promotes), records what it captures,
    /// removes a pawn taken en passant, passes the turn, and updates the board's move
    /// information.
    pub fn perform_on(&mut self, game: &mut Board)
        requires
            old(game).wf(),
            move_on_board(*old(self)),
            old(game).piece_at(old(self).from) is Some,
            round_in_range(old(game).round),
        ensures
            final(game).wf(),
            final(game).pos() == after_perform(old(game).pos(), *old(self)),
            *final(self) == recorded(old(game).pos(), *old(self)),
            final(game).move_info.describes(*final(game)),
    {
        let from_square = game.square(&self.from);
        let mut moving_piece = match from_square.piece {
            Some(p) => p,
            None => {
                assert(false);
                return ;
            },
        };
        let ghost p0 = moving_piece;
        moving_piece.has_moved = true;

        //handle promotion
        if let Some(promo_type) = self.promotion {
            moving_piece.ptype = promo_type;
        }
        //record capture

        if let Some(captured_piece) = game.square(&self.to).piece {
            self.captured_type = Some(captured_piece.ptype);
        }
        //pass the turn, and start a new round where White is next

        game.turn = moving_piece.color.opposite();
        if game.turn == Color::White {
            game.round = game.round + 1;
        }
        //a pawn moving two squares can be taken en passant on the opponent's answer

        if moving_piece.ptype.value() == 1 && self.is_two_square_pawn_move() {
            //if white, black captures on same turn. If black, white captures next round
            let turn = if moving_piece.color == Color::White {
                game.round
            } else {
                game.round + 1
            };
            moving_piece.ptype = PieceType::Pawn(turn);
        }
        assert(moving_piece == performed_piece(p0, *old(self), game.round as int));

        //perform move
        game.remove_on(&self.from);
        game.put_piece_on(&self.to, moving_piece);

        //lastly, delete the piece on the en_passant square
        if let Some(ep_loc) = self.en_passant {
            game.remove_on(&ep_loc);
        }
        //update board

        game.update();
    }

    /// Reverses a performed move: see `after_undo`.
    pub fn undo_on(&self, game: &mut Board)
        requires
            old(game).wf(),
            move_on_board(*self),
            old(game).piece_at(self.to) is Some,
            round_in_range(old(game).round),
        ensures
            final(game).wf(),
            final(game).pos() == after_undo(old(game).pos(), *self),
            final(game).move_info.describes(*final(game)),
    {
        game.round = game.round - 1;
        let to_square = game.square(&self.to);
        let mut moving_piece = match to_square.piece {
            Some(p) => p,
            None => {
                assert(false);
                return ;
            },
        };
        let ghost q0 = moving_piece;

        //handle un-promoting
        if self.promotion.is_some() {
            moving_piece.ptype = PieceType::Pawn(0);  //promotion doesn't matter
        }
        //set has_moved

        moving_piece.has_moved = !self.piece_first_move;

        //a pawn's two-square move loses its en passant mark
        if moving_piece.ptype.value() == 1 && self.is_two_square_pawn_move() {
            moving_piece.ptype = PieceType::Pawn(0);
        }
        assert(moving_piece == undone_piece(q0, *self));

        //give the turn back, and go back a round where Black is next
        game.turn = game.turn.opposite();
        if game.turn == Color::Black {
            game.round = game.round - 1;
        }
        //perform un-move

        game.remove_on(&self.to);
        game.put_piece_on(&self.from, moving_piece);

        //restore en passant
        if let Some(ep_loc) = self.en_passant {
            game.put_piece_on(
                &ep_loc,
                Piece {
                    color: if moving_piece.color == Color::White {
                        Color::Black
                    } else {
                        Color::White
                    },
                    ptype: PieceType::Pawn(game.round),
                    location: ep_loc,
                    has_moved: false,
                },
            );
        }
        //restore capture

        if let Some(captured_type) = self.captured_type {
            let restored_piece = Piece {
                color: if moving_piece.color == Color::White {
                    Color::Black
                } else {
                    Color::White
                },
                ptype: captured_type,
                location: self.to,
                has_moved: false,
            };
            game.put_piece_on(&self.to, restored_piece);
        }
        game.update();
    }
}


/// The coordinate of a column on a castle's row.
pub open spec fn on_castle_row(c: Castle, col: usize) -> Coordinate {
    Coordinate { col, row: castle_row(c) }
}

/// The position after a castle: the king and the rook moved to their castled squares.
pub open spec fn castle_performed(b: Position, c: Castle) -> Position {
    let g1 = moved(b.grid, on_castle_row(c, 4), on_castle_row(c, king_end(c.side)));
    let g2 = moved(g1, on_castle_row(c, rook_start(c.side)), on_castle_row(c, rook_end(c.side)));
    Position { grid: g2, ..b }
}

/// The position after a castle is undone: the king and the rook moved back. Both stay
/// marked as having moved.
pub open spec fn castle_undone(b: Position, c: Castle) -> Position {
    let g1 = moved(b.grid, on_castle_row(c, king_end(c.side)), on_castle_row(c, 4));
    let g2 = moved(g1, on_castle_row(c, rook_end(c.side)), on_castle_row(c, rook_start(c.side)));
    Position { grid: g2, ..b }
}

/// A square a castle passes is threatened by the other side or occupied.
pub open spec fn castle_square_blocked(
    b: Position,
    c: Castle,
    col: usize,
    threats: Seq<Coordinate>,
) -> bool {
    let sq = on_castle_row(c, col);
    threats.contains(sq) || b.piece_at(sq) is Some
}

/// A castle is illegal, against the squares the other side threatens, where the king is
/// not an unmoved king of the player on column 4, the player is in check, the rook is not
/// an unmoved rook of the player on its corner, or a square between them is threatened or
/// occupied.
pub open spec fn castle_illegal_with(b: Position, c: Castle, threats: Seq<Coordinate>) -> bool {
    let kloc = on_castle_row(c, 4);
    let rloc = on_castle_row(c, rook_start(c.side));
    match b.piece_at(kloc) {
        None => true,
        Some(k) => {
            ||| k != Piece { color: c.player, ptype: PieceType::King, location: kloc, has_moved: false }
            ||| check_with(b.grid, c.player, threats)
            ||| match b.piece_at(rloc) {
                None => true,
                Some(r) => {
                    ||| r != Piece {
                        color: c.player,
                        ptype: PieceType::Rook,
                        location: rloc,
                        has_moved: false,
                    }
                    ||| exists|k: int|
                        0 <= k < must_be_empty(c.side).len() && #[trigger] castle_square_blocked(
                            b,
                            c,
                            must_be_empty(c.side)[k],
                            threats,
                        )
                },
            }
        },
    }
}

/// A castle is illegal as far as the board's move information knows.
pub open spec fn castle_illegal(b: Board, c: Castle) -> bool {
    castle_illegal_with(b.pos(), c, threatened_by(b.move_info, opposite_of(c.player)))
}

/// A castle is illegal in a position, against the other side's potential moves there.
pub open spec fn castle_illegal_in(b: Position, c: Castle) -> bool {
    castle_illegal_with(b, c, targets(side_moves(b, opposite_of(c.player))))
}

impl Castle {
    /// Moves the king and the rook to their castled squares and updates the board's move
    /// information. The turn and the round stay as they are.
    pub fn perform_on(&mut self, game: &mut Board)
        requires
            old(game).wf(),
            old(game).piece_at(on_castle_row(*old(self), 4)) is Some,
            old(game).piece_at(on_castle_row(*old(self), rook_start(old(self).side))) is Some,
        ensures
            final(game).wf(),
            final(game).pos() == castle_performed(old(game).pos(), *old(self)),
            *final(self) == *old(self),
            final(game).move_info.describes(*final(game)),
    {
        let row = self.row();

        let king_pos = Coordinate::new(4, row);
        let king_target = Coordinate::new(self.side.king_end_col(), row);
        let rook_pos = Coordinate::new(self.side.rook_start_col(), row);
        let rook_target = Coordinate::new(self.side.rook_end_col(), row);

        game.move_from(&king_pos, &king_target);
        game.move_from(&rook_pos, &rook_target);
        game.update();
    }

    /// Moves the king and the rook back to their corners and updates the board's move
    /// information; both stay marked as having moved.
    pub fn undo_on(&self, game: &mut Board)
        requires
            old(game).wf(),
            old(game).piece_at(on_castle_row(*self, king_end(self.side))) is Some,
            old(game).piece_at(on_castle_row(*self, rook_end(self.side))) is Some,
        ensures
            final(game).wf(),
            final(game).pos() == castle_undone(old(game).pos(), *self),
            final(game).move_info.describes(*final(game)),
    {
        let row = self.row();

        //do the same thing as perform_on(), but reversed.
        let king_target = Coordinate::new(4, row);
        let king_pos = Coordinate::new(self.side.king_end_col(), row);
        let rook_pos = Coordinate::new(self.side.rook_end_col(), row);
        let rook_target = Coordinate::new(self.side.rook_start_col(), row);

        game.move_from(&king_pos, &king_target);
        game.move_from(&rook_pos, &rook_target);
        game.update();
    }

    /// Whether the castle is illegal on the board, going by its move information: see
    /// `castle_illegal`.
    pub fn is_illegal(&mut self, game: &mut Board) -> (r: bool)
        requires
            old(game).wf(),
        ensures
            r == castle_illegal(*old(game), *old(self)),
            *final(game) == *old(game),
            *final(self) == *old(self),
    {
        let row = self.row();

        //check whether the king is there and legal
        let king_loc = Coordinate::new(4, row);
        let expected_king = Piece {
            color: self.player,
            ptype: PieceType::King,
            location: king_loc,
            has_moved: false,
        };
        let king = match game.square(&king_loc).piece {
            Some(king) => king,
            None => return true,
        };
        if king != expected_king {
            return true;
        }
        if game.is_check(king.color) {
            return true;
        }

        //check for rook
        let rook_loc = Coordinate::new(self.side.rook_start_col(), row);
        let expected_rook = Piece {
            color: self.player,
            ptype: PieceType::Rook,
            location: rook_loc,
            has_moved: false,
        };
        let rook = match game.square(&rook_loc).piece {
            Some(rook) => rook,
            None => return true,
        };
        if rook != expected_rook {
            return true;
        }

        //check for empty and unattacked squares
        let cols = self.side.squares_that_must_be_empty();
        let mut i: usize = 0;
        while i < cols.len()
            invariant
                game.wf(),
                i <= cols@.len(),
                cols@ == must_be_empty(self.side),
                row == castle_row(*self),
                forall|j: int| 0 <= j < i ==> !#[trigger] castle_square_blocked(
                    game.pos(),
                    *self,
                    cols@[j],
                    threatened_by(game.move_info, opposite_of(self.player)),
                ),
            decreases cols@.len() - i,
        {
            let coord = Coordinate::new(cols[i], row);
            let opponent_threats = match self.player {
                Color::White => &game.move_info.black_threatened_squares,
                Color::Black => &game.move_info.white_threatened_squares,
            };
            if holds(opponent_threats, &coord) {
                assert(castle_square_blocked(
                    game.pos(),
                    *self,
                    cols@[i as int],
                    threatened_by(game.move_info, opposite_of(self.player)),
                ));
                return true;
            }
            if game.square(&coord).piece.is_some() {
                assert(castle_square_blocked(
                    game.pos(),
                    *self,
                    cols@[i as int],
                    threatened_by(game.move_info, opposite_of(self.player)),
                ));
                return true;
            }
            i += 1;
        }
        false
    }
}

/// What an action needs to be performed: a move from an occupied square on the board with
/// a round in range, or a castle whose king and rook are there.
pub open spec fn performable(b: Board, a: Action) -> bool {
    match a {
        Action::Move(m) => move_on_board(m) && b.piece_at(m.from) is Some && round_in_range(
            b.round,
        ),
        Action::Castle(c) => b.piece_at(on_castle_row(c, 4)) is Some && b.piece_at(
            on_castle_row(c, rook_start(c.side)),
        ) is Some,
    }
}

/// What an action needs to be undone.
pub open spec fn undoable(b: Board, a: Action) -> bool {
    match a {
        Action::Move(m) => move_on_board(m) && b.piece_at(m.to) is Some && round_in_range(b.round),
        Action::Castle(c) => b.piece_at(on_castle_row(c, king_end(c.side))) is Some && b.piece_at(
            on_castle_row(c, rook_end(c.side)),
        ) is Some,
    }
}

impl Action {
    /// Performs the move or the castle.
    pub fn perform_on(&mut self, game: &mut Board)
        requires
            old(game).wf(),
            performable(*old(game), *old(self)),
        ensures
            final(game).wf(),
            final(game).move_info.describes(*final(game)),
            match *old(self) {
                Action::Move(m) => {
                    &&& final(game).pos() == after_perform(old(game).pos(), m)
                    &&& *final(self) == Action::Move(recorded(old(game).pos(), m))
                },
                Action::Castle(c) => {
                    &&& final(game).pos() == castle_performed(old(game).pos(), c)
                    &&& *final(self) == *old(self)
                },
            },
    {
        match self {
            Action::Move(m) => m.perform_on(game),
            Action::Castle(c) => c.perform_on(game),
        }
    }

    /// Undoes the move or the castle.
    pub fn undo_on(&self, game: &mut Board)
        requires
            old(game).wf(),
            undoable(*old(game), *self),
        ensures
            final(game).wf(),
            final(game).move_info.describes(*final(game)),
            match *self {
                Action::Move(m) => final(game).pos() == after_undo(old(game).pos(), m),
                Action::Castle(c) => final(game).pos() == castle_undone(old(game).pos(), c),
            },
    {
        match self {
            Action::Move(m) => m.undo_on(game),
            Action::Castle(c) => c.undo_on(game),
        }
    }

    /// Whether the action is illegal: a move that leaves its player in check, or an illegal
    /// castle.
    pub fn is_illegal(&mut self, game: &mut Board) -> (r: bool)
        requires
            old(game).wf(),
            match *old(self) {
                Action::Move(m) => move_on_board(m) && m.en_passant != Some(m.to)
                    && round_in_range_for_trial(old(game).round),
                Action::Castle(_) => true,
            },
        ensures
            final(game).wf(),
            match *old(self) {
                Action::Move(m) => match old(game).piece_at(m.from) {
                    None => {
                        &&& r == false
                        &&& *final(game) == *old(game)
                        &&& *final(self) == *old(self)
                    },
                    Some(p) => {
                        let after = after_perform(old(game).pos(), m);
                        let m2 = recorded(old(game).pos(), m);
                        &&& r == check_in(after, p.color)
                        &&& *final(self) == Action::Move(m2)
                        &&& final(game).pos() == after_undo(after, m2)
                        &&& final(game).move_info.describes(*final(game))
                    },
                },
                Action::Castle(c) => {
                    &&& r == castle_illegal(*old(game), c)
                    &&& *final(game) == *old(game)
                    &&& *final(self) == *old(self)
                },
            },
    {
        match self {
            Action::Move(m) => m.is_illegal(game),
            Action::Castle(c) => c.is_illegal(game),
        }
    }
}


/// A move that an undo can take back exactly: a move without en passant between two
/// distinct squares, made by the player whose turn it is, whose `piece_first_move` tells
/// the truth, that moves a pawn without its en passant mark where it promotes or covers two
/// rows, and that either captures an unmoved enemy piece or goes to an empty square and has
/// recorded no capture.
pub open spec fn restorable(b: Position, m: Move) -> bool {
    &&& move_on_board(m)
    &&& m.from != m.to
    &&& m.en_passant is None
    &&& b.piece_at(m.from) matches Some(p) && {
        &&& b.turn == p.color
        &&& p.has_moved == !m.piece_first_move
        &&& m.promotion is Some ==> p.ptype == PieceType::Pawn(0)
        &&& (p.ptype is Pawn && two_rows(m)) ==> p.ptype == PieceType::Pawn(0)
        &&& match b.piece_at(m.to) {
            Some(q) => q.color != p.color && !q.has_moved,
            None => m.captured_type is None,
        }
    }
}

/// Undoing a move right after performing it gives back the same squares and the same turn;
/// the round ends one lower than it was.
pub proof fn lemma_undo_after_perform(b: Position, m: Move)
    requires
        grid_wf(b.grid),
        restorable(b, m),
        round_in_range(b.round),
    ensures
        after_undo(after_perform(b, m), recorded(b, m)).grid == b.grid,
        after_undo(after_perform(b, m), recorded(b, m)).turn == b.turn,
        after_undo(after_perform(b, m), recorded(b, m)).round == b.round - 1,
{
    let p = b.piece_at(m.from).unwrap();
    let a = after_perform(b, m);
    let m2 = recorded(b, m);
    let u = after_undo(a, m2);
    lemma_idx_injective(m.from, m.to);
    assert(square_ok(b.grid[idx(m.from)], m.from));
    assert(square_ok(b.grid[idx(m.to)], m.to));
    assert(u.grid =~= b.grid);
}

} // verus!
