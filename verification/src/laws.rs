//! Properties of the library that relate several of its functions.
use vstd::prelude::*;
use crate::board::{
    Color, Coordinate, Piece, PieceType, Position, Square, color_pieces, color_value, colored_upto,
    coord_at, grid_wf, idx, lemma_coord_at, lemma_idx_injective, offset, on_board, opposite_of,
    put, square_ok, type_from_letter, type_letter,
};
use crate::check::{is_capture, moves_of, side_moves};
use crate::generation::{
    ray, room, spec_bishop_moves, spec_en_passant, spec_one_square, spec_pawn_capture,
    spec_only_captures, spec_try_square, spec_two_square, spec_king_moves, spec_knight_moves, spec_pawn_moves,
    spec_potential_moves, spec_project, spec_rook_moves, spec_square_value, step_to, unit_direction,
};
use crate::movement::{Action, Castle, CastleSide, Move, en_passant_square, king_end, rook_end, rook_start};
use crate::perform::{castle_performed, castle_undone, move_on_board, on_castle_row};
use crate::text::{decimal, digit_char};
use crate::uci::{
    castle_parse_target, castle_text, column_char, coordinate_text, move_parse_target, move_text,
    same_color_capture, uci_square,
};
use crate::text::byte_len;

verus! {

/// The opposite of the opposite of a color is that color, and opposite colors have
/// opposite values.
pub proof fn law_opposite(c: Color)
    ensures
        opposite_of(opposite_of(c)) == c,
        opposite_of(c) != c,
        color_value(opposite_of(c)) == -color_value(c),
{
}

/// The letter of a piece type names that type again (a pawn comes back with en passant
/// round 0), and the upper-case letter names the same type as the lower-case one.
pub proof fn law_type_letter(t: PieceType)
    ensures
        type_from_letter(type_letter(t)) == Some(
            match t {
                PieceType::Pawn(_) => PieceType::Pawn(0),
                _ => t,
            },
        ),
        type_from_letter(((type_letter(t) as int) - 32) as char) == type_from_letter(type_letter(t)),
{
}

/// Going back by the same offset returns to where one started.
pub proof fn law_offset_back(c: Coordinate, rise: int, run: int)
    requires
        on_board(c),
        offset(c, rise, run) is Some,
    ensures
        offset(offset(c, rise, run).unwrap(), -rise, -run) == Some(c),
{
}

/// The text of an on-board coordinate reads back as that coordinate.
pub proof fn law_coordinate_text(c: Coordinate)
    requires
        on_board(c),
    ensures
        coordinate_text(c).len() == 2,
        uci_square(coordinate_text(c), 0) == Some(c),
{
    assert(decimal((c.row + 1) as nat) == seq![digit_char((c.row + 1) as nat)]);
}

/// The UCI text of a castle names that castle.
pub proof fn law_castle_text(c: Castle)
    ensures
        castle_parse_target(castle_text(c)) == Some(c),
{
    let s = castle_text(c);
    assert(s.len() == 4);
    assert(byte_len(s) == 4) by {
        reveal_with_fuel(vstd::utf8::encode_utf8, 5);
        assert(s.drop_first().drop_first().drop_first().drop_first() =~= Seq::<char>::empty());
    }
    assert(!s.contains(' '));
}


/// The UCI text of a move between two squares of the board reads back as a move between
/// them, with the promotion its letter names, where the move does not capture a piece of
/// the mover's own color.
pub proof fn law_move_text(m: Move, b: Position)
    requires
        on_board(m.from),
        on_board(m.to),
        !same_color_capture(b, m.from, m.to),
    ensures
        move_parse_target(move_text(m), b) == Some(
            (
                m.from,
                m.to,
                match m.promotion {
                    Some(t) => type_from_letter(type_letter(t)),
                    None => None,
                },
            ),
        ),
{
    law_coordinate_text(m.from);
    law_coordinate_text(m.to);
    let s = move_text(m);
    assert(s.subrange(0, 2) =~= coordinate_text(m.from));
    assert(uci_square(s, 2) == Some(m.to)) by {
        assert(s[2] == coordinate_text(m.to)[0]);
        assert(s[3] == coordinate_text(m.to)[1]);
    }
    assert(uci_square(s, 0) == Some(m.from)) by {
        assert(s[0] == coordinate_text(m.from)[0]);
        assert(s[1] == coordinate_text(m.from)[1]);
    }
    assert(!s.contains(' '));
    assert(byte_len(s) == s.len()) by {
        reveal_with_fuel(vstd::utf8::encode_utf8, 6);
        assert(s.drop_first().drop_first().drop_first().drop_first().len() <= 1);
        if s.len() == 5 {
            assert(s.drop_first().drop_first().drop_first().drop_first().drop_first()
                =~= Seq::<char>::empty());
        } else {
            assert(s.drop_first().drop_first().drop_first().drop_first() =~= Seq::<char>::empty());
        }
    }
}

/// Undoing a castle right after performing it, where the king's and the rook's castled
/// squares were empty, puts the king and the rook back on their squares, but both stay
/// marked as having moved; nothing else changes.
pub proof fn law_castle_undo(b: Position, c: Castle)
    requires
        grid_wf(b.grid),
        b.piece_at(on_castle_row(c, 4)) is Some,
        b.piece_at(on_castle_row(c, rook_start(c.side))) is Some,
        b.piece_at(on_castle_row(c, king_end(c.side))) is None,
        b.piece_at(on_castle_row(c, rook_end(c.side))) is None,
    ensures
        ({
            let k = b.piece_at(on_castle_row(c, 4)).unwrap();
            let r = b.piece_at(on_castle_row(c, rook_start(c.side))).unwrap();
            let g1 = put(b.grid, on_castle_row(c, 4), Piece { has_moved: true, ..k });
            let g2 = put(g1, on_castle_row(c, rook_start(c.side)), Piece { has_moved: true, ..r });
            castle_undone(castle_performed(b, c), c) == Position { grid: g2, ..b }
        }),
{
    let kloc = on_castle_row(c, 4);
    let kend = on_castle_row(c, king_end(c.side));
    let rloc = on_castle_row(c, rook_start(c.side));
    let rend = on_castle_row(c, rook_end(c.side));
    lemma_idx_injective(kloc, kend);
    lemma_idx_injective(kloc, rloc);
    lemma_idx_injective(kloc, rend);
    lemma_idx_injective(kend, rloc);
    lemma_idx_injective(kend, rend);
    lemma_idx_injective(rloc, rend);
    assert(square_ok(b.grid[idx(kloc)], kloc));
    assert(square_ok(b.grid[idx(rloc)], rloc));
    let k = b.piece_at(kloc).unwrap();
    let r = b.piece_at(rloc).unwrap();
    let g1 = put(b.grid, kloc, Piece { has_moved: true, ..k });
    let g2 = put(g1, rloc, Piece { has_moved: true, ..r });
    assert(castle_undone(castle_performed(b, c), c).grid =~= g2);
}

/// What a potential move of a piece is sure of: it starts where the piece stands and its
/// squares lie on the board, and unless the piece is a pawn it does not go to a square
/// holding a piece of its own color; a castle is the piece's player's.
pub open spec fn stays_clear(p: Piece, b: Position, a: Action) -> bool {
    match a {
        Action::Move(m) => {
            &&& m.from == p.location
            &&& move_on_board(m)
            &&& m.en_passant != Some(m.to)
            &&& !(p.ptype is Pawn) ==> !(b.piece_at(m.to) matches Some(q) && q.color == p.color)
        },
        Action::Castle(c) => c.player == p.color,
    }
}

/// Every action of a sequence stays clear.
pub open spec fn all_clear(p: Piece, b: Position, s: Seq<Action>) -> bool {
    forall|i: int| 0 <= i < s.len() ==> stays_clear(p, b, #[trigger] s[i])
}

proof fn lemma_clear_add(p: Piece, b: Position, s1: Seq<Action>, s2: Seq<Action>)
    requires
        all_clear(p, b, s1),
        all_clear(p, b, s2),
    ensures
        all_clear(p, b, s1 + s2),
{
    assert forall|i: int| 0 <= i < (s1 + s2).len() implies stays_clear(p, b, #[trigger] (s1 + s2)[i]) by {
        if i < s1.len() {
            assert((s1 + s2)[i] == s1[i]);
        } else {
            assert((s1 + s2)[i] == s2[i - s1.len()]);
        }
    }
}

proof fn lemma_ray_clear(p: Piece, b: Position, c: Coordinate, rise: int, run: int)
    requires
        on_board(p.location),
    ensures
        all_clear(p, b, ray(p, b, c, rise, run)),
    decreases room(c, rise, run),
{
    if unit_direction(rise, run) && room(c, rise, run) > 0 {
        if let Some(n) = offset(c, rise, run) {
            if let Some(v) = spec_square_value(p, b, n) {
                if v == 0 {
                    lemma_ray_clear(p, b, n, rise, run);
                    lemma_clear_add(p, b, seq![step_to(p, b, n, None, false)], ray(p, b, n, rise, run));
                }
            }
        }
    }
}

proof fn lemma_rook_clear(p: Piece, b: Position)
    requires
        on_board(p.location),
    ensures
        all_clear(p, b, spec_rook_moves(p, b)),
{
    lemma_ray_clear(p, b, p.location, 1, 0);
    lemma_ray_clear(p, b, p.location, -1, 0);
    lemma_ray_clear(p, b, p.location, 0, 1);
    lemma_ray_clear(p, b, p.location, 0, -1);
    let a = spec_project(p, b, 1, 0);
    let a2 = spec_project(p, b, -1, 0);
    let a3 = spec_project(p, b, 0, 1);
    let a4 = spec_project(p, b, 0, -1);
    lemma_clear_add(p, b, a, a2);
    lemma_clear_add(p, b, a + a2, a3);
    lemma_clear_add(p, b, a + a2 + a3, a4);
}

proof fn lemma_bishop_clear(p: Piece, b: Position)
    requires
        on_board(p.location),
    ensures
        all_clear(p, b, spec_bishop_moves(p, b)),
{
    lemma_ray_clear(p, b, p.location, 1, 1);
    lemma_ray_clear(p, b, p.location, -1, 1);
    lemma_ray_clear(p, b, p.location, -1, -1);
    lemma_ray_clear(p, b, p.location, 1, -1);
    let a = spec_project(p, b, 1, 1);
    let a2 = spec_project(p, b, -1, 1);
    let a3 = spec_project(p, b, -1, -1);
    let a4 = spec_project(p, b, 1, -1);
    lemma_clear_add(p, b, a, a2);
    lemma_clear_add(p, b, a + a2, a3);
    lemma_clear_add(p, b, a + a2 + a3, a4);
}

proof fn lemma_try_square_clear(p: Piece, b: Position, rise: int, run: int)
    requires
        on_board(p.location),
    ensures
        all_clear(p, b, spec_try_square(p, b, rise, run)),
{
}

proof fn lemma_knight_clear(p: Piece, b: Position)
    requires
        on_board(p.location),
    ensures
        all_clear(p, b, spec_knight_moves(p, b)),
{
    let t1 = spec_try_square(p, b, 2, 1);
    let t2 = spec_try_square(p, b, 1, 2);
    let t3 = spec_try_square(p, b, -1, 2);
    let t4 = spec_try_square(p, b, -2, 1);
    let t5 = spec_try_square(p, b, -2, -1);
    let t6 = spec_try_square(p, b, -1, -2);
    let t7 = spec_try_square(p, b, 1, -2);
    let t8 = spec_try_square(p, b, 2, -1);
    lemma_try_square_clear(p, b, 2, 1);
    lemma_try_square_clear(p, b, 1, 2);
    lemma_try_square_clear(p, b, -1, 2);
    lemma_try_square_clear(p, b, -2, 1);
    lemma_try_square_clear(p, b, -2, -1);
    lemma_try_square_clear(p, b, -1, -2);
    lemma_try_square_clear(p, b, 1, -2);
    lemma_try_square_clear(p, b, 2, -1);
    lemma_clear_add(p, b, t1, t2);
    lemma_clear_add(p, b, t1 + t2, t3);
    lemma_clear_add(p, b, t1 + t2 + t3, t4);
    lemma_clear_add(p, b, t1 + t2 + t3 + t4, t5);
    lemma_clear_add(p, b, t1 + t2 + t3 + t4 + t5, t6);
    lemma_clear_add(p, b, t1 + t2 + t3 + t4 + t5 + t6, t7);
    lemma_clear_add(p, b, t1 + t2 + t3 + t4 + t5 + t6 + t7, t8);
}

proof fn lemma_king_clear(p: Piece, b: Position)
    requires
        on_board(p.location),
    ensures
        all_clear(p, b, spec_king_moves(p, b)),
{
    let c = seq![
        Action::Castle(Castle { side: CastleSide::KingSide, player: p.color }),
        Action::Castle(Castle { side: CastleSide::QueenSide, player: p.color }),
    ];
    let t1 = spec_try_square(p, b, 1, 1);
    let t2 = spec_try_square(p, b, 0, 1);
    let t3 = spec_try_square(p, b, -1, 1);
    let t4 = spec_try_square(p, b, -1, 0);
    let t5 = spec_try_square(p, b, -1, -1);
    let t6 = spec_try_square(p, b, 0, -1);
    let t7 = spec_try_square(p, b, 1, -1);
    let t8 = spec_try_square(p, b, 1, 0);
    lemma_try_square_clear(p, b, 1, 1);
    lemma_try_square_clear(p, b, 0, 1);
    lemma_try_square_clear(p, b, -1, 1);
    lemma_try_square_clear(p, b, -1, 0);
    lemma_try_square_clear(p, b, -1, -1);
    lemma_try_square_clear(p, b, 0, -1);
    lemma_try_square_clear(p, b, 1, -1);
    lemma_try_square_clear(p, b, 1, 0);
    assert(all_clear(p, b, c));
    lemma_clear_add(p, b, c, t1);
    lemma_clear_add(p, b, c + t1, t2);
    lemma_clear_add(p, b, c + t1 + t2, t3);
    lemma_clear_add(p, b, c + t1 + t2 + t3, t4);
    lemma_clear_add(p, b, c + t1 + t2 + t3 + t4, t5);
    lemma_clear_add(p, b, c + t1 + t2 + t3 + t4 + t5, t6);
    lemma_clear_add(p, b, c + t1 + t2 + t3 + t4 + t5 + t6, t7);
    lemma_clear_add(p, b, c + t1 + t2 + t3 + t4 + t5 + t6 + t7, t8);
}

/// A pawn's pushes, as `spec_pawn_moves` takes them.
pub open spec fn pawn_pushes(p: Piece, b: Position) -> Seq<Action> {
    let d = color_value(p.color);
    match spec_one_square(p, b, d) {
        Some(one) => match spec_two_square(p, b, d) {
            Some(m) => if !p.has_moved {
                one.push(Action::Move(m))
            } else {
                one
            },
            None => one,
        },
        None => Seq::empty(),
    }
}

proof fn lemma_pushes_clear(p: Piece, b: Position)
    requires
        on_board(p.location),
    ensures
        all_clear(p, b, pawn_pushes(p, b)),
{
    let d = color_value(p.color);
    if let Some(one) = spec_one_square(p, b, d) {
        assert(all_clear(p, b, one));
        if let Some(m) = spec_two_square(p, b, d) {
            lemma_clear_add(p, b, one, seq![Action::Move(m)]);
            assert(one.push(Action::Move(m)) == one + seq![Action::Move(m)]);
        }
    }
}

proof fn lemma_capture_clear(p: Piece, b: Position, rise: int, run: int)
    requires
        on_board(p.location),
    ensures
        all_clear(p, b, spec_pawn_capture(p, b, rise, run)),
{
    if let Some(loc) = offset(p.location, rise, run) {
        let q = spec_only_captures(p, b, loc, Some(PieceType::Queen));
        let r = spec_only_captures(p, b, loc, Some(PieceType::Rook));
        let bi = spec_only_captures(p, b, loc, Some(PieceType::Bishop));
        let n = spec_only_captures(p, b, loc, Some(PieceType::Knight));
        assert(all_clear(p, b, spec_only_captures(p, b, loc, None)));
        assert(all_clear(p, b, q));
        assert(all_clear(p, b, r));
        assert(all_clear(p, b, bi));
        assert(all_clear(p, b, n));
        lemma_clear_add(p, b, q, r);
        lemma_clear_add(p, b, q + r, bi);
        lemma_clear_add(p, b, q + r + bi, n);
    }
}

proof fn lemma_en_passant_clear(p: Piece, b: Position, rise: int, run: int)
    requires
        on_board(p.location),
        p.ptype is Pawn,
        rise == 1 || rise == -1,
    ensures
        all_clear(p, b, spec_en_passant(p, b, rise, run)),
{
    if let Some(e) = offset(p.location, rise, run) {
        assert(en_passant_square(p.location, e) == Some(
            Coordinate { col: e.col, row: p.location.row },
        ));
    }
}

proof fn lemma_pawn_clear(p: Piece, b: Position)
    requires
        on_board(p.location),
        p.ptype is Pawn,
    ensures
        all_clear(p, b, spec_pawn_moves(p, b)),
{
    let d = color_value(p.color);
    let pushes = pawn_pushes(p, b);
    lemma_pushes_clear(p, b);
    let c1 = spec_pawn_capture(p, b, d, 1);
    let c2 = spec_pawn_capture(p, b, d, -1);
    let e1 = spec_en_passant(p, b, d, 1);
    let e2 = spec_en_passant(p, b, d, -1);
    lemma_capture_clear(p, b, d, 1);
    lemma_capture_clear(p, b, d, -1);
    lemma_en_passant_clear(p, b, d, 1);
    lemma_en_passant_clear(p, b, d, -1);
    lemma_clear_add(p, b, pushes, c1);
    lemma_clear_add(p, b, pushes + c1, c2);
    lemma_clear_add(p, b, pushes + c1 + c2, e1);
    lemma_clear_add(p, b, pushes + c1 + c2 + e1, e2);
}

/// Every potential move of a piece starts where the piece stands, has its squares on the
/// board, and takes en passant (if at all) beside its target; unless the piece is a pawn,
/// it does not go to a square of its own color.
pub proof fn law_potential_moves_clear(p: Piece, b: Position)
    requires
        on_board(p.location),
    ensures
        all_clear(p, b, spec_potential_moves(p, b)),
{
    match p.ptype {
        PieceType::Rook => lemma_rook_clear(p, b),
        PieceType::Bishop => lemma_bishop_clear(p, b),
        PieceType::Queen => {
            lemma_rook_clear(p, b);
            lemma_bishop_clear(p, b);
            lemma_clear_add(p, b, spec_rook_moves(p, b), spec_bishop_moves(p, b));
        },
        PieceType::Knight => lemma_knight_clear(p, b),
        PieceType::King => lemma_king_clear(p, b),
        PieceType::Pawn(_) => lemma_pawn_clear(p, b),
    }
}


/// What every potential action of a side is sure of: a move starts at a piece of that
/// side, its squares lie on the board, and it takes en passant (if at all) beside its
/// target; a castle is that side's.
pub open spec fn side_action_ok(b: Position, color: Color, a: Action) -> bool {
    match a {
        Action::Move(m) => {
            &&& move_on_board(m)
            &&& m.en_passant != Some(m.to)
            &&& b.piece_at(m.from) matches Some(p) && p.color == color
        },
        Action::Castle(c) => c.player == color,
    }
}

proof fn lemma_all_add<A>(s1: Seq<A>, s2: Seq<A>, pred: spec_fn(A) -> bool)
    requires
        forall|i: int| 0 <= i < s1.len() ==> pred(#[trigger] s1[i]),
        forall|i: int| 0 <= i < s2.len() ==> pred(#[trigger] s2[i]),
    ensures
        forall|i: int| 0 <= i < (s1 + s2).len() ==> pred(#[trigger] (s1 + s2)[i]),
{
    assert forall|i: int| 0 <= i < (s1 + s2).len() implies pred(#[trigger] (s1 + s2)[i]) by {
        if i < s1.len() {
            assert((s1 + s2)[i] == s1[i]);
        } else {
            assert((s1 + s2)[i] == s2[i - s1.len()]);
        }
    }
}

proof fn lemma_all_filter<A>(s: Seq<A>, pred: spec_fn(A) -> bool, keep: spec_fn(A) -> bool)
    requires
        forall|i: int| 0 <= i < s.len() ==> pred(#[trigger] s[i]),
    ensures
        forall|i: int| 0 <= i < s.filter(keep).len() ==> pred(#[trigger] s.filter(keep)[i]),
    decreases s.len(),
{
    reveal(Seq::filter);
    if s.len() > 0 {
        let rest = s.drop_last();
        assert forall|i: int| 0 <= i < rest.len() implies pred(#[trigger] rest[i]) by {
            assert(rest[i] == s[i]);
        }
        lemma_all_filter(rest, pred, keep);
        assert(pred(s[s.len() - 1]));
        let f = rest.filter(keep);
        assert(s.filter(keep) == if keep(s.last()) {
            f.push(s.last())
        } else {
            f
        });
        assert forall|i: int| 0 <= i < s.filter(keep).len() implies pred(#[trigger] s.filter(keep)[i]) by {
            if i < f.len() {
                assert(s.filter(keep)[i] == f[i]);
            } else {
                assert(s.filter(keep)[i] == s.last());
            }
        }
    }
}

proof fn lemma_moves_of_ok(b: Position, color: Color, ps: Seq<Piece>)
    requires
        forall|k: int| 0 <= k < ps.len() ==> {
            &&& on_board(#[trigger] ps[k].location)
            &&& b.piece_at(ps[k].location) == Some(ps[k])
            &&& ps[k].color == color
        },
    ensures
        forall|i: int| 0 <= i < moves_of(b, ps).len() ==> side_action_ok(b, color, #[trigger] moves_of(b, ps)[i]),
    decreases ps.len(),
{
    if ps.len() > 0 {
        let p = ps.last();
        assert(p == ps[ps.len() - 1]);
        let rest = ps.drop_last();
        assert forall|k: int| 0 <= k < rest.len() implies {
            &&& on_board(#[trigger] rest[k].location)
            &&& b.piece_at(rest[k].location) == Some(rest[k])
            &&& rest[k].color == color
        } by {
            assert(rest[k] == ps[k]);
        }
        lemma_moves_of_ok(b, color, rest);
        law_potential_moves_clear(p, b);
        let pm = spec_potential_moves(p, b);
        assert forall|i: int| 0 <= i < pm.len() implies side_action_ok(b, color, #[trigger] pm[i]) by {
            assert(stays_clear(p, b, pm[i]));
        }
        lemma_all_add(moves_of(b, rest), pm, |a: Action| side_action_ok(b, color, a));
    }
}

/// The pieces of a color on a well-formed grid stand where the grid holds them.
proof fn lemma_colored_placed(g: Seq<Square>, n: int, color: Color)
    requires
        grid_wf(g),
        0 <= n <= 64,
    ensures
        forall|k: int| 0 <= k < colored_upto(g, n, color).len() ==> {
            &&& on_board(#[trigger] colored_upto(g, n, color)[k].location)
            &&& g[idx(colored_upto(g, n, color)[k].location)].piece == Some(colored_upto(g, n, color)[k])
            &&& colored_upto(g, n, color)[k].color == color
        },
    decreases n,
{
    if n > 0 {
        lemma_colored_placed(g, n - 1, color);
        lemma_coord_at(n - 1);
        assert(square_ok(g[idx(coord_at(n - 1))], coord_at(n - 1)));
    }
}

/// Every potential action of a side on a well-formed board is that side's: a move from a
/// piece of that side, with its squares on the board and any pawn it takes en passant
/// beside its target, or that side's castle. Such a move can be performed, undone and
/// checked for legality (where the round is in range).
pub proof fn law_side_moves_ok(b: Position, color: Color)
    requires
        grid_wf(b.grid),
    ensures
        forall|i: int|
            0 <= i < side_moves(b, color).len() ==> side_action_ok(b, color, #[trigger] side_moves(b, color)[i]),
{
    let ps = color_pieces(b.grid, color);
    lemma_colored_placed(b.grid, 64, color);
    assert forall|k: int| 0 <= k < ps.len() implies {
        &&& on_board(#[trigger] ps[k].location)
        &&& b.piece_at(ps[k].location) == Some(ps[k])
        &&& ps[k].color == color
    } by {}
    lemma_moves_of_ok(b, color, ps);
    let ms = moves_of(b, ps);
    let pred = |a: Action| side_action_ok(b, color, a);
    lemma_all_filter(ms, pred, |a: Action| is_capture(a));
    lemma_all_filter(ms, pred, |a: Action| !is_capture(a));
    lemma_all_add(ms.filter(|a: Action| is_capture(a)), ms.filter(|a: Action| !is_capture(a)), pred);
}

} // verus!
