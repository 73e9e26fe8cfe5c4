//! What a board keeps known of the moves on it, and check detection.
use vstd::prelude::*;
use crate::board::{
    Board, Position, Square, Color, Coordinate, Piece, PieceType, all_pieces, color_pieces, lemma_colored_on_board,
    on_board, opposite_of,
};
use crate::movement::{Action, estimate, target_of};
use crate::generation::spec_potential_moves;

verus! {

/// The potential moves of some pieces, one piece after the other.
pub open spec fn moves_of(b: Position, ps: Seq<Piece>) -> Seq<Action>
    decreases ps.len(),
{
    if ps.len() == 0 {
        Seq::empty()
    } else {
        moves_of(b, ps.drop_last()) + spec_potential_moves(ps.last(), b)
    }
}

/// Whether the crude move ordering puts an action first: a move whose estimate is at
/// least 1 and not 2.
pub open spec fn is_capture(a: Action) -> bool {
    !(estimate(a) < 1 || estimate(a) == 2)
}

/// The actions that the crude ordering puts first, then the others, each in their order.
pub open spec fn ordered(ms: Seq<Action>) -> Seq<Action> {
    ms.filter(|a: Action| is_capture(a)) + ms.filter(|a: Action| !is_capture(a))
}

/// The potential moves of all pieces of a color, captures first.
pub open spec fn side_moves(b: Position, color: Color) -> Seq<Action> {
    ordered(moves_of(b, color_pieces(b.grid, color)))
}

/// The target squares of some actions, in order (a castle has none).
pub open spec fn targets(ms: Seq<Action>) -> Seq<Coordinate>
    decreases ms.len(),
{
    if ms.len() == 0 {
        Seq::empty()
    } else {
        match target_of(ms.last()) {
            Some(c) => targets(ms.drop_last()).push(c),
            None => targets(ms.drop_last()),
        }
    }
}

/// Squares threatened by each side, and each side's potential moves, as last found.
#[derive(Debug, Clone)]
pub struct MoveInfo {
    pub white_threatened_squares: Vec<Coordinate>,
    pub black_threatened_squares: Vec<Coordinate>,
    pub white_potential_moves: Vec<Action>,
    pub black_potential_moves: Vec<Action>,
}

/// The squares a side threatens, as a board's move information has it.
pub open spec fn threatened_by(info: MoveInfo, color: Color) -> Seq<Coordinate> {
    match color {
        Color::White => info.white_threatened_squares@,
        Color::Black => info.black_threatened_squares@,
    }
}

/// The potential moves of a side, as a board's move information has them.
pub open spec fn known_moves(info: MoveInfo, color: Color) -> Seq<Action> {
    match color {
        Color::White => info.white_potential_moves@,
        Color::Black => info.black_potential_moves@,
    }
}

impl MoveInfo {
    /// Nothing is known.
    pub open spec fn empty(&self) -> bool {
        &&& self.white_threatened_squares@.len() == 0
        &&& self.black_threatened_squares@.len() == 0
        &&& self.white_potential_moves@.len() == 0
        &&& self.black_potential_moves@.len() == 0
    }

    /// The information holds the potential moves and threatened squares of both sides of a board.
    pub open spec fn describes(&self, b: Board) -> bool {
        &&& self.white_potential_moves@ == side_moves(b.pos(), Color::White)
        &&& self.black_potential_moves@ == side_moves(b.pos(), Color::Black)
        &&& self.white_threatened_squares@ == targets(side_moves(b.pos(), Color::White))
        &&& self.black_threatened_squares@ == targets(side_moves(b.pos(), Color::Black))
    }

    /// Empty lists.
    pub fn new() -> (m: Self)
        ensures
            m.empty(),
    {
        MoveInfo {
            white_threatened_squares: Vec::new(),
            black_threatened_squares: Vec::new(),
            white_potential_moves: Vec::new(),
            black_potential_moves: Vec::new(),
        }
    }

    /// The information generated from a board.
    pub fn from(game: &Board) -> (m: Self)
        requires
            game.wf(),
        ensures
            m.describes(*game),
    {
        let mut info = Self::new();
        info.update(game);
        info
    }

    /// Generates the moves of both sides of a board and keeps them and their targets.
    pub fn update(&mut self, game: &Board)
        requires
            game.wf(),
        ensures
            final(self).describes(*game),
    {
        self.white_potential_moves = game.white_potential_moves();
        self.black_potential_moves = game.black_potential_moves();
        self.white_threatened_squares = target_squares(&self.white_potential_moves);
        self.black_threatened_squares = target_squares(&self.black_potential_moves);
    }
}

/// The target squares of some actions, in order.
fn target_squares(moves: &Vec<Action>) -> (ts: Vec<Coordinate>)
    ensures
        ts@ == targets(moves@),
{
    let mut ts: Vec<Coordinate> = Vec::new();
    let mut i: usize = 0;
    while i < moves.len()
        invariant
            i <= moves@.len(),
            ts@ == targets(moves@.take(i as int)),
        decreases moves@.len() - i,
    {
        assert(moves@.take(i as int + 1).drop_last() == moves@.take(i as int));
        if let Some(coord) = moves[i].to_coordinate() {
            ts.push(coord);
        }
        i += 1;
    }
    assert(moves@.take(moves@.len() as int) == moves@);
    ts
}

/// Whether a vector holds a coordinate.
pub fn holds(v: &Vec<Coordinate>, c: &Coordinate) -> (b: bool)
    ensures
        b == v@.contains(*c),
{
    let mut i: usize = 0;
    while i < v.len()
        invariant
            i <= v@.len(),
            forall|j: int| 0 <= j < i ==> v@[j] != *c,
        decreases v@.len() - i,
    {
        if v[i] == *c {
            assert(v@[i as int] == *c);
            return true;
        }
        i += 1;
    }
    false
}

/// The kings of a player on a grid.
pub open spec fn kings_of(g: Seq<Square>, player: Color) -> Seq<Piece> {
    all_pieces(g).filter(|p: Piece| p.color == player && p.ptype == PieceType::King)
}

/// A player is in check against some threatened squares: they have exactly one king, and
/// the squares hold its location.
pub open spec fn check_with(g: Seq<Square>, player: Color, threats: Seq<Coordinate>) -> bool {
    let kings = kings_of(g, player);
    kings.len() == 1 && threats.contains(kings[0].location)
}

/// A player is in check as far as the board's move information knows: the other side's
/// known threatened squares hold the location of the player's one king.
pub open spec fn spec_is_check(b: Board, player: Color) -> bool {
    check_with(b.grid(), player, threatened_by(b.move_info, opposite_of(player)))
}

/// A player is in check in a position: they have exactly one king, and a potential move of
/// the other side goes to its square.
pub open spec fn check_in(b: Position, player: Color) -> bool {
    check_with(b.grid, player, targets(side_moves(b, opposite_of(player))))
}

impl Board {
    /// Whether the player's king stands on a square the other side threatens, as far as the
    /// board's move information knows. A player without exactly one king is not in check.
    pub fn is_check(&self, player: Color) -> (r: bool)
        requires
            self.wf(),
        ensures
            r == spec_is_check(*self, player),
    {
        let pieces = self.pieces();
        let ghost pred = |p: Piece| p.color == player && p.ptype == PieceType::King;
        let mut kings: Vec<Piece> = Vec::new();
        let mut i: usize = 0;
        while i < pieces.len()
            invariant
                i <= pieces@.len(),
                pred == (|p: Piece| p.color == player && p.ptype == PieceType::King),
                kings@ == pieces@.take(i as int).filter(pred),
            decreases pieces@.len() - i,
        {
            proof {
                assert(pieces@.take(i as int + 1) == pieces@.take(i as int).push(pieces@[i as int]));
                pieces@.take(i as int).lemma_filter_push(pieces@[i as int], pred);
            }
            let p = pieces[i];
            if p.color == player && p.ptype == PieceType::King {
                assert(pred(p));
                kings.push(p);
            } else {
                assert(!pred(p));
            }
            i += 1;
        }
        assert(pieces@.take(pieces@.len() as int) == pieces@);
        if kings.len() != 1 {
            false
        } else {
            //find if location is in player's threats
            match player {
                Color::White => holds(&self.move_info.black_threatened_squares, &kings[0].location),
                Color::Black => holds(&self.move_info.white_threatened_squares, &kings[0].location),
            }
        }
    }

    /// Whether the player is in check and has no potential moves left (the board's move
    /// information is meant to have been filtered for legality).
    pub fn is_checkmate(&self, player: Color) -> (r: bool)
        requires
            self.wf(),
        ensures
            r == (spec_is_check(*self, player) && known_moves(self.move_info, player).len() == 0),
    {
        if !self.is_check(player) {
            return false;
        }
        match player {
            Color::White => self.move_info.white_potential_moves.len() == 0,
            Color::Black => self.move_info.black_potential_moves.len() == 0,
        }
    }

    /// Replaces the move information with what is generated from the board now.
    pub fn update(&mut self)
        requires
            old(self).wf(),
        ensures
            final(self).wf(),
            final(self).grid() == old(self).grid(),
            final(self).turn == old(self).turn,
            final(self).round == old(self).round,
            final(self).move_info.describes(*old(self)),
    {
        self.move_info = MoveInfo::from(self);
    }

    /// White's potential moves, captures first.
    pub fn white_potential_moves(&self) -> (moves: Vec<Action>)
        requires
            self.wf(),
        ensures
            moves@ == side_moves(self.pos(), Color::White),
    {
        self.side_potential_moves(Color::White)
    }

    /// Black's potential moves, captures first.
    pub fn black_potential_moves(&self) -> (moves: Vec<Action>)
        requires
            self.wf(),
        ensures
            moves@ == side_moves(self.pos(), Color::Black),
    {
        self.side_potential_moves(Color::Black)
    }

    fn side_potential_moves(&self, color: Color) -> (moves: Vec<Action>)
        requires
            self.wf(),
        ensures
            moves@ == side_moves(self.pos(), color),
    {
        let pieces = match color {
            Color::White => self.white_pieces(),
            Color::Black => self.black_pieces(),
        };
        proof {
            lemma_colored_on_board(self.grid(), 64, color);
        }
        let mut moves: Vec<Action> = Vec::new();
        let mut i: usize = 0;
        while i < pieces.len()
            invariant
                self.wf(),
                i <= pieces@.len(),
                pieces@ == color_pieces(self.grid(), color),
                forall|k: int| 0 <= k < pieces@.len() ==> on_board(#[trigger] pieces@[k].location),
                moves@ == moves_of(self.pos(), pieces@.take(i as int)),
            decreases pieces@.len() - i,
        {
            assert(pieces@.take(i as int + 1).drop_last() == pieces@.take(i as int));
            let mut more = pieces[i].potential_moves(self);
            moves.append(&mut more);
            i += 1;
        }
        assert(pieces@.take(pieces@.len() as int) == pieces@);

        //crude move ordering
        let ghost all = moves@;
        let ghost cap = |a: Action| is_capture(a);
        let ghost non = |a: Action| !is_capture(a);
        let mut captures: Vec<Action> = Vec::new();
        let mut normal: Vec<Action> = Vec::new();
        let mut j: usize = 0;
        while j < moves.len()
            invariant
                j <= moves@.len(),
                moves@ == all,
                cap == (|a: Action| is_capture(a)),
                non == (|a: Action| !is_capture(a)),
                captures@ == all.take(j as int).filter(cap),
                normal@ == all.take(j as int).filter(non),
            decreases moves@.len() - j,
        {
            proof {
                assert(all.take(j as int + 1) == all.take(j as int).push(all[j as int]));
                all.take(j as int).lemma_filter_push(all[j as int], cap);
                all.take(j as int).lemma_filter_push(all[j as int], non);
            }
            let action = moves[j];
            let value = action.evaluate();
            if value < 1 || value == 2 {
                assert(!cap(action) && non(action));
                normal.push(action);
            } else {
                assert(cap(action) && !non(action));
                captures.push(action);
            }
            j += 1;
        }
        assert(all.take(all.len() as int) == all);
        captures.append(&mut normal);
        captures
    }
}

} // verus!
