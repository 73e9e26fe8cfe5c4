//! Laws stating what the rules mean in chess terms: where a knight jumps, what a promotion
//! puts on its square, which squares a castle needs empty, which pieces a FEN castling
//! right unmarks, and how center pawns score.
use vstd::prelude::*;
use crate::board::{
    Color, Coordinate, Piece, PieceType, Position, Square, grid_wf, idx, lemma_idx_injective,
    offset, on_board, put,
};
use crate::fen::{at, fen_placement, fen_result, make_legal, place_pieces, read_castling, fen_castle, fen_piece, fen_placed, unmoved_at};
use crate::generation::{spec_potential_moves, spec_try_square};
use crate::heuristic::center_score;
use crate::movement::{Action, Castle, CastleSide, Move, two_rows};
use crate::perform::{after_perform, castle_illegal_with, move_on_board};

verus! {

/// The distance between two numbers.
pub open spec fn dist(a: int, b: int) -> int {
    if a >= b {
        a - b
    } else {
        b - a
    }
}

/// A knight's jump: one coordinate changes by 1 and the other by 2.
pub open spec fn knight_jump(a: Coordinate, c: Coordinate) -> bool {
    let dr = dist(a.row as int, c.row as int);
    let dc = dist(a.col as int, c.col as int);
    (dr == 1 && dc == 2) || (dr == 2 && dc == 1)
}

/// A square holds a piece of a piece's own color.
pub open spec fn holds_own(b: Position, p: Piece, t: Coordinate) -> bool {
    b.piece_at(t) matches Some(q) && q.color == p.color
}

/// An action is a knight's jump of a piece to an on-board square not held by its own color.
pub open spec fn knight_step(b: Position, p: Piece, a: Action) -> bool {
    a matches Action::Move(m) && {
        &&& m.from == p.location
        &&& on_board(m.to)
        &&& knight_jump(p.location, m.to)
        &&& !holds_own(b, p, m.to)
    }
}

/// An action is a move to a square.
pub open spec fn goes_to(a: Action, t: Coordinate) -> bool {
    a matches Action::Move(m) && m.to == t
}

/// Some action of a sequence is a move to a square.
pub open spec fn reaches(s: Seq<Action>, t: Coordinate) -> bool {
    exists|i: int| 0 <= i < s.len() && #[trigger] goes_to(s[i], t)
}

proof fn lemma_reaches_add(s1: Seq<Action>, s2: Seq<Action>, t: Coordinate)
    ensures
        (reaches(s1, t) || reaches(s2, t)) ==> reaches(s1 + s2, t),
{
    if reaches(s1, t) {
        let i = choose|i: int| 0 <= i < s1.len() && #[trigger] goes_to(s1[i], t);
        assert((s1 + s2)[i] == s1[i]);
        assert(goes_to((s1 + s2)[i], t));
    } else if reaches(s2, t) {
        let i = choose|i: int| 0 <= i < s2.len() && #[trigger] goes_to(s2[i], t);
        assert((s1 + s2)[s1.len() + i] == s2[i]);
        assert(goes_to((s1 + s2)[s1.len() + i], t));
    }
}

proof fn lemma_steps_add(b: Position, p: Piece, s1: Seq<Action>, s2: Seq<Action>)
    requires
        forall|i: int| 0 <= i < s1.len() ==> knight_step(b, p, #[trigger] s1[i]),
        forall|i: int| 0 <= i < s2.len() ==> knight_step(b, p, #[trigger] s2[i]),
    ensures
        forall|i: int| 0 <= i < (s1 + s2).len() ==> knight_step(b, p, #[trigger] (s1 + s2)[i]),
{
    assert forall|i: int| 0 <= i < (s1 + s2).len() implies knight_step(b, p, #[trigger] (s1 + s2)[i]) by {
        if i < s1.len() {
            assert((s1 + s2)[i] == s1[i]);
        } else {
            assert((s1 + s2)[i] == s2[i - s1.len()]);
        }
    }
}

/// One of the eight jumps: its moves are knight steps, and it reaches its square where
/// that square is on the board and not held by the knight's own color.
proof fn lemma_jump(p: Piece, b: Position, rise: int, run: int)
    requires
        on_board(p.location),
        (dist(rise, 0) == 1 && dist(run, 0) == 2) || (dist(rise, 0) == 2 && dist(run, 0) == 1),
    ensures
        forall|i: int| 0 <= i < spec_try_square(p, b, rise, run).len() ==> knight_step(
            b,
            p,
            #[trigger] spec_try_square(p, b, rise, run)[i],
        ),
        forall|t: Coordinate|
            on_board(t) && t.row == p.location.row + rise && t.col == p.location.col + run
                && !holds_own(b, p, t) ==> #[trigger] reaches(spec_try_square(p, b, rise, run), t),
{
    assert forall|t: Coordinate|
        on_board(t) && t.row == p.location.row + rise && t.col == p.location.col + run
            && !holds_own(b, p, t) implies #[trigger] reaches(spec_try_square(p, b, rise, run), t) by {
        assert(offset(p.location, rise, run) == Some(t));
        assert(goes_to(spec_try_square(p, b, rise, run)[0], t));
    }
}

/// Every move a knight generates jumps to a square whose row and column differ from the
/// knight's by 1 and 2 (in some order), on the board and not held by its own color; and
/// every such square is the target of one of its moves.
pub proof fn law_knight_moves(p: Piece, b: Position)
    requires
        on_board(p.location),
        p.ptype == PieceType::Knight,
    ensures
        forall|i: int| 0 <= i < spec_potential_moves(p, b).len() ==> knight_step(
            b,
            p,
            #[trigger] spec_potential_moves(p, b)[i],
        ),
        forall|t: Coordinate|
            on_board(t) && knight_jump(p.location, t) && !holds_own(b, p, t) ==> #[trigger] reaches(
                spec_potential_moves(p, b),
                t,
            ),
{
    let t1 = spec_try_square(p, b, 2, 1);
    let t2 = spec_try_square(p, b, 1, 2);
    let t3 = spec_try_square(p, b, -1, 2);
    let t4 = spec_try_square(p, b, -2, 1);
    let t5 = spec_try_square(p, b, -2, -1);
    let t6 = spec_try_square(p, b, -1, -2);
    let t7 = spec_try_square(p, b, 1, -2);
    let t8 = spec_try_square(p, b, 2, -1);
    let ms = spec_potential_moves(p, b);
    assert(ms == t1 + t2 + t3 + t4 + t5 + t6 + t7 + t8);
    lemma_jump(p, b, 2, 1);
    lemma_jump(p, b, 1, 2);
    lemma_jump(p, b, -1, 2);
    lemma_jump(p, b, -2, 1);
    lemma_jump(p, b, -2, -1);
    lemma_jump(p, b, -1, -2);
    lemma_jump(p, b, 1, -2);
    lemma_jump(p, b, 2, -1);
    lemma_steps_add(b, p, t1, t2);
    lemma_steps_add(b, p, t1 + t2, t3);
    lemma_steps_add(b, p, t1 + t2 + t3, t4);
    lemma_steps_add(b, p, t1 + t2 + t3 + t4, t5);
    lemma_steps_add(b, p, t1 + t2 + t3 + t4 + t5, t6);
    lemma_steps_add(b, p, t1 + t2 + t3 + t4 + t5 + t6, t7);
    lemma_steps_add(b, p, t1 + t2 + t3 + t4 + t5 + t6 + t7, t8);
    assert forall|t: Coordinate|
        on_board(t) && knight_jump(p.location, t) && !holds_own(b, p, t) implies #[trigger] reaches(
            ms,
            t,
        ) by {
        let rise = t.row - p.location.row;
        let run = t.col - p.location.col;
        assert(reaches(spec_try_square(p, b, rise, run), t));
        lemma_reaches_add(t1, t2, t);
        lemma_reaches_add(t1 + t2, t3, t);
        lemma_reaches_add(t1 + t2 + t3, t4, t);
        lemma_reaches_add(t1 + t2 + t3 + t4, t5, t);
        lemma_reaches_add(t1 + t2 + t3 + t4 + t5, t6, t);
        lemma_reaches_add(t1 + t2 + t3 + t4 + t5 + t6, t7, t);
        lemma_reaches_add(t1 + t2 + t3 + t4 + t5 + t6 + t7, t8, t);
    }
}

/// After a move, the target square holds the moving piece, of its color and marked as
/// moved: with the promotion's type where the move promotes, else with its own type. (A
/// pawn that covers two rows takes an en passant mark instead, and a move that takes en
/// passant on its own target square empties it: both are left out.)
pub proof fn law_perform_target(b: Position, m: Move)
    requires
        grid_wf(b.grid),
        move_on_board(m),
        b.piece_at(m.from) is Some,
        m.en_passant != Some(m.to),
    ensures
        ({
            let p = b.piece_at(m.from).unwrap();
            let t = match m.promotion {
                Some(t) => t,
                None => p.ptype,
            };
            !(t is Pawn && two_rows(m)) ==> after_perform(b, m).piece_at(m.to) == Some(
                Piece { color: p.color, ptype: t, location: m.to, has_moved: true },
            )
        }),
{
    lemma_idx_injective(m.from, m.to);
    if let Some(e) = m.en_passant {
        lemma_idx_injective(e, m.to);
    }
}

/// A castle is illegal whenever a square strictly between the king's column (4) and the
/// rook's corner on the castling row holds a piece, whatever squares are threatened.
pub proof fn law_castle_path_blocked(b: Position, c: Castle, threats: Seq<Coordinate>, col: usize)
    requires
        (c.side == CastleSide::QueenSide && 0 < col < 4) || (c.side == CastleSide::KingSide && 4
            < col < 7),
        b.piece_at(Coordinate { col, row: if c.player == Color::White { 0 } else { 7 } }) is Some,
    ensures
        castle_illegal_with(b, c, threats),
{
    let k: int = if c.side == CastleSide::KingSide {
        6 - col
    } else {
        col - 1
    };
    assert(crate::perform::castle_square_blocked(b, c, crate::movement::must_be_empty(c.side)[k], threats));
}

/// The square whose rook a FEN castling letter frees, as (column, row): 'K' h1, 'Q' a1,
/// 'k' h8, 'q' a8.
pub open spec fn castling_rook(ch: char) -> Option<(int, int)> {
    if ch == 'K' {
        Some((7, 0))
    } else if ch == 'Q' {
        Some((0, 0))
    } else if ch == 'k' {
        Some((7, 7))
    } else if ch == 'q' {
        Some((0, 7))
    } else {
        None
    }
}

/// The piece at a coordinate of a grid, if any, has not moved.
pub open spec fn unmoved(g: Seq<Square>, loc: Coordinate) -> bool {
    g[idx(loc)].piece matches Some(p) ==> !p.has_moved
}

proof fn lemma_unmoved_at_keeps(g: Seq<Square>, a: Coordinate, loc: Coordinate)
    requires
        g.len() == 64,
        on_board(a),
        on_board(loc),
        unmoved(g, loc),
    ensures
        unmoved(unmoved_at(g, a), loc),
        unmoved(unmoved_at(g, a), a),
        unmoved_at(g, a).len() == 64,
{
    lemma_idx_injective(a, loc);
}

proof fn lemma_unmoved_at_len(g: Seq<Square>, a: Coordinate)
    requires
        g.len() == 64,
        on_board(a),
    ensures
        unmoved(unmoved_at(g, a), a),
        unmoved_at(g, a).len() == 64,
        forall|loc: Coordinate| on_board(loc) && unmoved(g, loc) ==> #[trigger] unmoved(unmoved_at(g, a), loc),
{
    assert forall|loc: Coordinate| on_board(loc) && unmoved(g, loc) implies #[trigger] unmoved(unmoved_at(g, a), loc) by {
        lemma_idx_injective(a, loc);
    }
    lemma_idx_injective(a, a);
}

proof fn lemma_make_legal(g: Seq<Square>, c: Castle)
    requires
        g.len() == 64,
    ensures
        make_legal(g, c).len() == 64,
        forall|loc: Coordinate| on_board(loc) && unmoved(g, loc) ==> #[trigger] unmoved(make_legal(g, c), loc),
{
    let row: int = if c.player == Color::White { 0 } else { 7 };
    let rc: int = if c.side == CastleSide::KingSide { 7 } else { 0 };
    lemma_unmoved_at_len(g, at(4, row));
    lemma_unmoved_at_len(unmoved_at(g, at(4, row)), at(rc, row));
}

/// Reading castling letters keeps every unmoved piece unmoved.
proof fn lemma_read_castling_keeps(s: Seq<char>, k: int, remaining: nat, g: Seq<Square>, loc: Coordinate)
    requires
        g.len() == 64,
        on_board(loc),
        unmoved(g, loc),
        read_castling(s, k, remaining, g) is Some,
    ensures
        read_castling(s, k, remaining, g) matches Some((g2, _)) && unmoved(g2, loc) && g2.len() == 64,
    decreases remaining,
{
    if remaining > 0 {
        let k1 = k + 1;
        if 0 <= k1 < s.len() && s[k1] != ' ' && s[k1] != '-' {
            let g1 = match fen_castle(s[k1]) {
                Some(c) => make_legal(g, c),
                None => g,
            };
            if let Some(c) = fen_castle(s[k1]) {
                lemma_make_legal(g, c);
            }
            lemma_read_castling_keeps(s, k1, (remaining - 1) as nat, g1, loc);
        }
    }
}

/// A castling letter read before the field ends unmarks its king's square and its rook's
/// square, and nothing read later marks them again.
proof fn lemma_read_castling_letter(s: Seq<char>, k: int, remaining: nat, g: Seq<Square>, j: int)
    requires
        g.len() == 64,
        k < j <= k + remaining,
        j < s.len(),
        forall|i: int| k < i < j ==> s[i] != ' ' && s[i] != '-',
        castling_rook(s[j]) is Some,
        read_castling(s, k, remaining, g) is Some,
    ensures
        read_castling(s, k, remaining, g) matches Some((g2, _)) && {
            let (col, row) = castling_rook(s[j]).unwrap();
            &&& unmoved(g2, at(col, row))
            &&& unmoved(g2, at(4, row))
        },
    decreases remaining,
{
    let k1 = k + 1;
    let (col, row) = castling_rook(s[j]).unwrap();
    if k1 < j {
        assert(s[k1] != ' ' && s[k1] != '-');
        let g1 = match fen_castle(s[k1]) {
            Some(c) => make_legal(g, c),
            None => g,
        };
        if let Some(c) = fen_castle(s[k1]) {
            lemma_make_legal(g, c);
        }
        lemma_read_castling_letter(s, k1, (remaining - 1) as nat, g1, j);
    } else {
        let c = fen_castle(s[j]).unwrap();
        let g0 = unmoved_at(g, at(4, row));
        lemma_unmoved_at_len(g, at(4, row));
        lemma_unmoved_at_len(g0, at(col, row));
        assert(make_legal(g, c) == unmoved_at(g0, at(col, row)));
        let g1 = make_legal(g, c);
        lemma_read_castling_keeps(s, k1, (remaining - 1) as nat, g1, at(col, row));
        lemma_read_castling_keeps(s, k1, (remaining - 1) as nat, g1, at(4, row));
    }
}

proof fn lemma_place_len(s: Seq<char>, i: int, col: int, row: int, g: Seq<Square>)
    requires
        g.len() == 64,
    ensures
        place_pieces(s, i, col, row, g) matches Some((g2, _)) ==> g2.len() == 64,
    decreases s.len() - i,
{
    if !(i < 0 || i >= s.len() || s[i] == ' ') {
        match fen_piece(s[i]) {
            Some((color, t)) => if 0 <= col < 8 && 0 <= row < 8 {
                lemma_place_len(
                    s,
                    i + 1,
                    col + 1,
                    row,
                    put(g, at(col, row), fen_placed(color, t, at(col, row))),
                );
            },
            None => if s[i] == '/' {
                if row != 0 {
                    lemma_place_len(s, i + 1, 0, row - 1, g);
                }
            } else if '0' <= s[i] <= '9' {
                lemma_place_len(s, i + 1, col + (s[i] as int - '0' as int), row, g);
            } else {
                lemma_place_len(s, i + 1, col, row, g);
            },
        }
    }
}

/// A FEN text read to a board: where its castling field (the characters after the turn
/// letter and its space) holds 'K', 'Q', 'k' or 'q' before any space or '-', the piece on
/// that letter's rook corner (h1, a1, h8, a8) and the piece on its king's square (e1 or
/// e8), if any, have not moved.
pub proof fn law_fen_castling_rights(s: Seq<char>, g0: Seq<Square>, end: int, j: int)
    requires
        fen_placement(s) == Some((g0, end)),
        end + 3 <= j <= end + 6,
        j < s.len(),
        forall|i: int| end + 3 <= i < j ==> s[i] != ' ' && s[i] != '-',
        castling_rook(s[j]) is Some,
    ensures
        fen_result(s) matches Some((g, _)) ==> {
            let (col, row) = castling_rook(s[j]).unwrap();
            &&& unmoved(g, at(col, row))
            &&& unmoved(g, at(4, row))
        },
{
    if fen_result(s) is Some {
        crate::board::lemma_coord_at(0);
        assert(crate::board::empty_grid().len() == 64);
        lemma_place_len(s, 0, 0, 7, crate::board::empty_grid());
        let t = end + 1;
        lemma_read_castling_letter(s, t + 1, 4, g0, j);
    }
}

/// A pawn of a color on a square.
pub open spec fn pawn_on(s: Square, color: Color) -> bool {
    s.piece matches Some(p) && p.ptype is Pawn && p.color == color
}

/// 1 where a square holds a pawn of a color, else 0.
pub open spec fn pawn_count(s: Square, color: Color) -> int {
    if pawn_on(s, color) {
        1
    } else {
        0
    }
}

/// The center score of a grid is the number of white pawns on d4, d5, e4 and e5 minus the
/// number of black pawns there.
pub proof fn law_center_pawns(g: Seq<Square>)
    requires
        g.len() == 64,
    ensures
        ({
            let d4 = g[idx(Coordinate { col: 3, row: 3 })];
            let d5 = g[idx(Coordinate { col: 3, row: 4 })];
            let e4 = g[idx(Coordinate { col: 4, row: 3 })];
            let e5 = g[idx(Coordinate { col: 4, row: 4 })];
            center_score(g[27int]) + center_score(g[28int]) + center_score(g[35int]) + center_score(
                g[36int],
            ) == (pawn_count(d4, Color::White) + pawn_count(d5, Color::White) + pawn_count(
                e4,
                Color::White,
            ) + pawn_count(e5, Color::White)) - (pawn_count(d4, Color::Black) + pawn_count(
                d5,
                Color::Black,
            ) + pawn_count(e4, Color::Black) + pawn_count(e5, Color::Black))
        }),
{
}

} // verus!
