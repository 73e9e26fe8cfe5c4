//! Reading a board from Forsyth-Edwards Notation.
use vstd::prelude::*;
use crate::board::{
    Board, Color, Coordinate, Piece, PieceType, Square, empty_grid, home_rank_of, idx,
    on_board, pawn_home_rank_of, put, start_piece,
};
use crate::movement::{Castle, CastleSide, rook_start};
use crate::text::{char_vec, has_char, string_push};
use crate::text::{byte_len, lemma_byte_len_bounds, lemma_byte_len_push, width_of};

verus! {

/// The color and type a FEN piece letter names: upper case for White, lower case for Black.
pub open spec fn fen_piece(ch: char) -> Option<(Color, PieceType)> {
    if ch == 'p' {
        Some((Color::Black, PieceType::Pawn(0)))
    } else if ch == 'r' {
        Some((Color::Black, PieceType::Rook))
    } else if ch == 'n' {
        Some((Color::Black, PieceType::Knight))
    } else if ch == 'b' {
        Some((Color::Black, PieceType::Bishop))
    } else if ch == 'q' {
        Some((Color::Black, PieceType::Queen))
    } else if ch == 'k' {
        Some((Color::Black, PieceType::King))
    } else if ch == 'P' {
        Some((Color::White, PieceType::Pawn(0)))
    } else if ch == 'R' {
        Some((Color::White, PieceType::Rook))
    } else if ch == 'N' {
        Some((Color::White, PieceType::Knight))
    } else if ch == 'B' {
        Some((Color::White, PieceType::Bishop))
    } else if ch == 'Q' {
        Some((Color::White, PieceType::Queen))
    } else if ch == 'K' {
        Some((Color::White, PieceType::King))
    } else {
        None
    }
}

/// Whether a piece placed from FEN counts as having moved: a pawn off its starting row, and
/// every rook and king (castling rights unmark them afterwards).
pub open spec fn fen_has_moved(color: Color, t: PieceType, loc: Coordinate) -> bool {
    match t {
        PieceType::Pawn(_) => loc.row != pawn_home_rank_of(color),
        PieceType::Rook | PieceType::King => true,
        _ => false,
    }
}

/// The piece a FEN letter places at a coordinate.
pub open spec fn fen_placed(color: Color, t: PieceType, loc: Coordinate) -> Piece {
    Piece { color, ptype: t, location: loc, has_moved: fen_has_moved(color, t, loc) }
}

/// The coordinate of a column and a row.
pub open spec fn at(col: int, row: int) -> Coordinate {
    Coordinate { col: col as usize, row: row as usize }
}

/// Places the pieces of the piece-placement field from character `i` on, with the next
/// piece going to (`col`, `row`): piece letters place a piece and step right, '/' goes
/// to the start of the row below, a digit skips that many columns, anything else is
/// ignored. The field ends at the first space or at the end of the text. The result is
/// the grid and where the field ended, or `None` where a piece falls off the board or
/// '/' goes below the first row (which panics).
pub open spec fn place_pieces(s: Seq<char>, i: int, col: int, row: int, g: Seq<Square>) -> Option<
    (Seq<Square>, int),
>
    decreases s.len() - i,
{
    if i < 0 || i >= s.len() || s[i] == ' ' {
        Some((g, i))
    } else {
        match fen_piece(s[i]) {
            Some((color, t)) => if 0 <= col < 8 && 0 <= row < 8 {
                place_pieces(s, i + 1, col + 1, row, put(g, at(col, row), fen_placed(color, t, at(col, row))))
            } else {
                None
            },
            None => if s[i] == '/' {
                if row == 0 {
                    None
                } else {
                    place_pieces(s, i + 1, 0, row - 1, g)
                }
            } else if '0' <= s[i] <= '9' {
                place_pieces(s, i + 1, col + (s[i] as int - '0' as int), row, g)
            } else {
                place_pieces(s, i + 1, col, row, g)
            },
        }
    }
}

/// The grid of the piece-placement field and where the field ended.
pub open spec fn fen_placement(s: Seq<char>) -> Option<(Seq<Square>, int)> {
    place_pieces(s, 0, 0, 7, empty_grid())
}

/// A grid in which the piece at a coordinate, if any, counts as not having moved.
pub open spec fn unmoved_at(g: Seq<Square>, loc: Coordinate) -> Seq<Square> {
    match g[idx(loc)].piece {
        Some(p) => put(g, loc, Piece { has_moved: false, ..p }),
        None => g,
    }
}

/// A grid in which a castle's king square and rook square hold pieces that have not moved.
pub open spec fn make_legal(g: Seq<Square>, c: Castle) -> Seq<Square> {
    let row = home_rank_of(c.player);
    unmoved_at(unmoved_at(g, at(4, row)), at(rook_start(c.side) as int, row))
}

/// The castle a FEN castling letter grants.
pub open spec fn fen_castle(ch: char) -> Option<Castle> {
    if ch == 'K' {
        Some(Castle { side: CastleSide::KingSide, player: Color::White })
    } else if ch == 'Q' {
        Some(Castle { side: CastleSide::QueenSide, player: Color::White })
    } else if ch == 'k' {
        Some(Castle { side: CastleSide::KingSide, player: Color::Black })
    } else if ch == 'q' {
        Some(Castle { side: CastleSide::QueenSide, player: Color::Black })
    } else {
        None
    }
}

/// Reads up to `remaining` characters of the castling field after position `k`: a
/// castling letter grants its castle, a space ends the field, '-' ends it and skips one
/// character, anything else is ignored. The result is the grid and the position where
/// reading stopped, or `None` where the text ends first.
pub open spec fn read_castling(s: Seq<char>, k: int, remaining: nat, g: Seq<Square>) -> Option<
    (Seq<Square>, int),
>
    decreases remaining,
{
    if remaining == 0 {
        Some((g, k))
    } else {
        let k1 = k + 1;
        if k1 < 0 || k1 >= s.len() {
            None
        } else if s[k1] == ' ' {
            Some((g, k1))
        } else if s[k1] == '-' {
            Some((g, k1 + 1))
        } else {
            read_castling(
                s,
                k1,
                (remaining - 1) as nat,
                match fen_castle(s[k1]) {
                    Some(c) => make_legal(g, c),
                    None => g,
                },
            )
        }
    }
}

/// The color a FEN turn letter names.
pub open spec fn fen_turn(ch: char) -> Option<Color> {
    if ch == 'w' {
        Some(Color::White)
    } else if ch == 'b' {
        Some(Color::Black)
    } else {
        None
    }
}

/// The text starts with "startpos".
pub open spec fn starts_startpos(s: Seq<char>) -> bool {
    &&& s.len() >= 8
    &&& s[0] == 's' && s[1] == 't' && s[2] == 'a' && s[3] == 'r'
    &&& s[4] == 't' && s[5] == 'p' && s[6] == 'o' && s[7] == 's'
}

/// Where the en passant field is read: the position after the castling field, as reading
/// it leaves it.
pub open spec fn fen_fields(s: Seq<char>) -> Option<(Seq<Square>, Color, int)> {
    match fen_placement(s) {
        None => None,
        Some((g, end)) => {
            let t = end + 1;
            if t >= s.len() {
                None
            } else {
                match fen_turn(s[t]) {
                    None => None,
                    Some(turn) => match read_castling(s, t + 1, 4, g) {
                        None => None,
                        Some((g2, k)) => Some((g2, turn, k + 1)),
                    },
                }
            }
        },
    }
}

/// The en passant field is read as its first character written twice; unless that is a
/// space or '-', or takes more than one byte, the two characters are read as a square,
/// which panics.
pub open spec fn en_passant_panics(ch: char) -> bool {
    ch != ' ' && ch != '-' && byte_len(seq![ch, ch]) == 2
}

/// Reading the text panics: a piece falls off the board, '/' goes below the first row, or
/// the en passant field is read as a square.
pub open spec fn fen_panics(s: Seq<char>) -> bool {
    !starts_startpos(s) && (fen_placement(s) is None || (fen_fields(s) matches Some((g, t, e))
        && e < s.len() && en_passant_panics(s[e])))
}

/// The squares and the turn that a FEN text reads as, where it reads: the pieces, the
/// turn, the castling rights, and an en passant field that is left as it is.
pub open spec fn fen_result(s: Seq<char>) -> Option<(Seq<Square>, Color)> {
    match fen_fields(s) {
        Some((g, turn, e)) => if e < s.len() {
            Some((g, turn))
        } else {
            None
        },
        None => None,
    }
}

/// The color and type a FEN piece letter names.
fn fen_piece_of(ch: char) -> (r: Option<(Color, PieceType)>)
    ensures
        r == fen_piece(ch),
{
    match ch {
        //black pieces
        'p' => Some((Color::Black, PieceType::Pawn(0))),
        'r' => Some((Color::Black, PieceType::Rook)),
        'n' => Some((Color::Black, PieceType::Knight)),
        'b' => Some((Color::Black, PieceType::Bishop)),
        'q' => Some((Color::Black, PieceType::Queen)),
        'k' => Some((Color::Black, PieceType::King)),
        //white pieces
        'P' => Some((Color::White, PieceType::Pawn(0))),
        'R' => Some((Color::White, PieceType::Rook)),
        'N' => Some((Color::White, PieceType::Knight)),
        'B' => Some((Color::White, PieceType::Bishop)),
        'Q' => Some((Color::White, PieceType::Queen)),
        'K' => Some((Color::White, PieceType::King)),
        _ => None,
    }
}

/// Places a piece read from FEN. Kings and rooks count as having moved until the castling
/// field says otherwise; pawns count as having moved off their starting row.
fn put_piece_on_board(new: &mut Board, color: Color, ptype: PieceType, location: Coordinate)
    requires
        old(new).wf(),
        on_board(location),
    ensures
        final(new).wf(),
        final(new).grid() == put(old(new).grid(), location, fen_placed(color, ptype, location)),
        final(new).turn == old(new).turn,
        final(new).round == old(new).round,
        final(new).move_info == old(new).move_info,
{
    let has_moved = match ptype {
        PieceType::Pawn(_) => location.row != color.pawn_home_rank(),
        PieceType::Rook | PieceType::King => true,
        _ => false,
    };
    new.put_piece_on(&location, Piece { color, ptype, location, has_moved });
}

/// Marks the piece at a coordinate, if any, as not having moved.
fn unmove(new: &mut Board, location: Coordinate)
    requires
        old(new).wf(),
        on_board(location),
    ensures
        final(new).wf(),
        final(new).grid() == unmoved_at(old(new).grid(), location),
        final(new).turn == old(new).turn,
        final(new).round == old(new).round,
        final(new).move_info == old(new).move_info,
{
    if let Some(piece) = new.square(&location).piece {
        let mut p = piece;
        p.has_moved = false;
        new.put_piece_on(&location, p);
    }
}

/// Makes a castle legal: its king and its rook count as not having moved.
fn make_castle_legal(castle: Castle, new: &mut Board)
    requires
        old(new).wf(),
    ensures
        final(new).wf(),
        final(new).grid() == make_legal(old(new).grid(), castle),
        final(new).turn == old(new).turn,
        final(new).round == old(new).round,
        final(new).move_info == old(new).move_info,
{
    //make the castler's king count as not having moved
    let king_location = Coordinate::new(4, castle.player.home_rank());
    unmove(new, king_location);

    //and the rook
    let rook_location = Coordinate::new(castle.side.rook_start_col(), castle.player.home_rank());
    unmove(new, rook_location);
}

/// The castle a FEN castling letter grants.
fn fen_castle_of(ch: char) -> (r: Option<Castle>)
    ensures
        r == fen_castle(ch),
{
    match ch {
        'K' => Some(Castle::new(CastleSide::KingSide, Color::White)),
        'Q' => Some(Castle::new(CastleSide::QueenSide, Color::White)),
        'k' => Some(Castle::new(CastleSide::KingSide, Color::Black)),
        'q' => Some(Castle::new(CastleSide::QueenSide, Color::Black)),
        _ => None,
    }
}

impl Board {
    /// Reads a board from FEN: text starting with "startpos" gives the starting position;
    /// otherwise the piece placement, the turn and the castling rights are read (see
    /// `fen_result`). The board's round is 1 and nothing is known of its moves.
    pub fn parse(representation: String) -> (r: Result<Board, ()>)
        requires
            !fen_panics(representation@),
            representation@.len() <= usize::MAX / 16,
        ensures
            r matches Ok(b) ==> b.wf(),
            starts_startpos(representation@) ==> (r matches Ok(b) && {
                &&& forall|c: Coordinate| on_board(c) ==> #[trigger] b.piece_at(c) == start_piece(c)
                &&& b.turn == Color::White
                &&& b.round == 1
                &&& b.move_info.empty()
            }),
            !starts_startpos(representation@) ==> match r {
                Ok(b) => {
                    &&& fen_result(representation@) == Some((b.grid(), b.turn))
                    &&& b.round == 1
                    &&& b.move_info.empty()
                },
                Err(_) => fen_result(representation@) is None,
            },
    {
        let ghost s = representation@;
        let chars = char_vec(&representation);
        let n = chars.len();
        if n >= 8 && chars[0] == 's' && chars[1] == 't' && chars[2] == 'a' && chars[3] == 'r'
            && chars[4] == 't' && chars[5] == 'p' && chars[6] == 'o' && chars[7] == 's' {
            return Ok(Board::default());
        }
        let mut new = Board::new();

        //the next piece goes to column `col` of row `row`
        let mut col: usize = 0;
        let mut row: usize = 7;
        let mut repr_index: usize = 0;

        //build board and place pieces
        while repr_index < n
            invariant_except_break
                place_pieces(s, repr_index as int, col as int, row as int, new.grid())
                    == fen_placement(s),
            invariant
                chars@ == s,
                n == s.len(),
                n <= usize::MAX / 16,
                new.wf(),
                new.round == 1,
                new.turn == Color::White,
                new.move_info.empty(),
                repr_index <= n,
                row < 8,
                col <= 9 * repr_index,
                fen_placement(s) is Some,
            ensures
                place_pieces(s, repr_index as int, col as int, row as int, new.grid())
                    == fen_placement(s),
                repr_index >= n || s[repr_index as int] == ' ',
            decreases n - repr_index,
        {
            let character = chars[repr_index];
            if character == ' ' {
                break ;
            }
            match fen_piece_of(character) {
                Some((color, ptype)) => {
                    let location = Coordinate::new(col, row);
                    put_piece_on_board(&mut new, color, ptype, location);
                    col += 1;
                    repr_index += 1;
                },
                None => {
                    if character == '/' {
                        row -= 1;
                        col = 0;
                        repr_index += 1;
                    } else if '0' <= character && character <= '9' {
                        //skip empty squares
                        col += (character as u32 - '0' as u32) as usize;
                        repr_index += 1;
                    } else {
                        repr_index += 1;
                    }
                },
            }
        }
        let ghost placed_grid = new.grid();
        assert(fen_placement(s) == Some((placed_grid, repr_index as int)));

        //get whose turn it is
        repr_index += 1;
        if repr_index >= n {
            return Err(());
        }
        let turn = match Color::from(chars[repr_index]) {
            Ok(color) => color,
            Err(_) => return Err(()),
        };
        let ghost t = repr_index as int;
        repr_index += 1;

        //determine castling ability and set if kings and rooks have moved
        let mut count: usize = 0;
        while count < 4
            invariant_except_break
                read_castling(s, repr_index as int, (4 - count) as nat, new.grid())
                    == read_castling(s, t + 1, 4, placed_grid),
            invariant
                chars@ == s,
                n == s.len(),
                n <= usize::MAX / 16,
                new.wf(),
                new.round == 1,
                new.turn == Color::White,
                new.move_info.empty(),
                count <= 4,
                repr_index <= n + 1,
                s == representation@,
                !starts_startpos(s),
                0 <= t < n,
                fen_placement(s) == Some((placed_grid, t - 1)),
                fen_turn(s[t]) == Some(turn),
            ensures
                read_castling(s, t + 1, 4, placed_grid) == Some((new.grid(), repr_index as int)),
                repr_index <= n + 1,
            decreases 4 - count,
        {
            repr_index += 1;
            //the text ends before the castling field does
            if repr_index >= n {
                return Err(());
            }
            let castle_char = chars[repr_index];
            if castle_char == ' ' {
                break ;
            } else if castle_char == '-' {
                //the field ends on a space
                repr_index += 1;
                break ;
            }
            match fen_castle_of(castle_char) {
                Some(castle) => make_castle_legal(castle, &mut new),
                None => {},
            }
            count += 1;
        }

        repr_index += 1;
        assert(fen_fields(s) == Some((new.grid(), turn, repr_index as int)));

        //the en passant field
        if repr_index >= n {
            return Err(());
        }
        let character = chars[repr_index];
        if character != ' ' {
            //the same character is read twice
            let mut en_passant_string = String::new();
            string_push(&mut en_passant_string, character);
            string_push(&mut en_passant_string, character);
            proof {
                lemma_byte_len_bounds(en_passant_string@);
                assert(en_passant_string@ =~= seq![character, character]);
            }
            if !has_char(&en_passant_string, '-') && en_passant_string.as_str().len() == 2 {
                //reading these two characters as a square panics
                assert(en_passant_panics(character));
                assert(!starts_startpos(s));
                assert(fen_panics(s));
                return Err(());
            }
        }
        new.turn = turn;
        Ok(new)
    }
}

} // verus!

verus! {

/// Where the piece-placement field ends, or `None` where placing it panics; the grid plays
/// no part in this.
pub open spec fn place_end(s: Seq<char>, i: int, col: int, row: int) -> Option<int>
    decreases s.len() - i,
{
    if i < 0 || i >= s.len() || s[i] == ' ' {
        Some(i)
    } else {
        match fen_piece(s[i]) {
            Some(_) => if 0 <= col < 8 && 0 <= row < 8 {
                place_end(s, i + 1, col + 1, row)
            } else {
                None
            },
            None => if s[i] == '/' {
                if row == 0 {
                    None
                } else {
                    place_end(s, i + 1, 0, row - 1)
                }
            } else if '0' <= s[i] <= '9' {
                place_end(s, i + 1, col + (s[i] as int - '0' as int), row)
            } else {
                place_end(s, i + 1, col, row)
            },
        }
    }
}

proof fn lemma_place_end(s: Seq<char>, i: int, col: int, row: int, g: Seq<Square>)
    ensures
        match place_pieces(s, i, col, row, g) {
            Some((_, e)) => place_end(s, i, col, row) == Some(e),
            None => place_end(s, i, col, row) is None,
        },
    decreases s.len() - i,
{
    if !(i < 0 || i >= s.len() || s[i] == ' ') {
        match fen_piece(s[i]) {
            Some((color, t)) => if 0 <= col < 8 && 0 <= row < 8 {
                lemma_place_end(
                    s,
                    i + 1,
                    col + 1,
                    row,
                    put(g, at(col, row), fen_placed(color, t, at(col, row))),
                );
            },
            None => if s[i] == '/' {
                if row != 0 {
                    lemma_place_end(s, i + 1, 0, row - 1, g);
                }
            } else if '0' <= s[i] <= '9' {
                lemma_place_end(s, i + 1, col + (s[i] as int - '0' as int), row, g);
            } else {
                lemma_place_end(s, i + 1, col, row, g);
            },
        }
    }
}

/// Where reading the castling field stops, or `None` where the text ends first; the grid
/// plays no part in this.
pub open spec fn castling_end(s: Seq<char>, k: int, remaining: nat) -> Option<int>
    decreases remaining,
{
    if remaining == 0 {
        Some(k)
    } else {
        let k1 = k + 1;
        if k1 < 0 || k1 >= s.len() {
            None
        } else if s[k1] == ' ' {
            Some(k1)
        } else if s[k1] == '-' {
            Some(k1 + 1)
        } else {
            castling_end(s, k1, (remaining - 1) as nat)
        }
    }
}

proof fn lemma_castling_end(s: Seq<char>, k: int, remaining: nat, g: Seq<Square>)
    ensures
        match read_castling(s, k, remaining, g) {
            Some((_, e)) => castling_end(s, k, remaining) == Some(e),
            None => castling_end(s, k, remaining) is None,
        },
    decreases remaining,
{
    if remaining > 0 {
        let k1 = k + 1;
        if 0 <= k1 < s.len() && s[k1] != ' ' && s[k1] != '-' {
            lemma_castling_end(
                s,
                k1,
                (remaining - 1) as nat,
                match fen_castle(s[k1]) {
                    Some(c) => make_legal(g, c),
                    None => g,
                },
            );
        }
    }
}

/// Whether `Board::parse` would panic on a text: see `fen_panics`.
pub fn fen_would_panic(representation: &String) -> (b: bool)
    requires
        representation@.len() <= usize::MAX / 16,
    ensures
        b == fen_panics(representation@),
{
    let ghost s = representation@;
    let chars = char_vec(representation);
    let n = chars.len();
    if n >= 8 && chars[0] == 's' && chars[1] == 't' && chars[2] == 'a' && chars[3] == 'r'
        && chars[4] == 't' && chars[5] == 'p' && chars[6] == 'o' && chars[7] == 's' {
        return false;
    }
    proof {
        lemma_place_end(s, 0, 0, 7, empty_grid());
    }
    let mut col: usize = 0;
    let mut row: usize = 7;
    let mut i: usize = 0;
    while i < n
        invariant_except_break
            place_end(s, i as int, col as int, row as int) == place_end(s, 0, 0, 7),
        invariant
            chars@ == s,
            s == representation@,
            !starts_startpos(s),
            match fen_placement(s) {
                Some((_, e)) => place_end(s, 0, 0, 7) == Some(e),
                None => place_end(s, 0, 0, 7) is None,
            },
            n == s.len(),
            n <= usize::MAX / 16,
            i <= n,
            row < 8,
            col <= 9 * i,
        ensures
            place_end(s, 0, 0, 7) == Some(i as int),
        decreases n - i,
    {
        let character = chars[i];
        if character == ' ' {
            break ;
        }
        match fen_piece_of(character) {
            Some(_) => {
                if col >= 8 {
                    return true;
                }
                col += 1;
            },
            None => {
                if character == '/' {
                    if row == 0 {
                        return true;
                    }
                    row -= 1;
                    col = 0;
                } else if '0' <= character && character <= '9' {
                    col += (character as u32 - '0' as u32) as usize;
                }
            },
        }
        i += 1;
    }
    let t = i + 1;
    if t >= n {
        return false;
    }
    if chars[t] != 'w' && chars[t] != 'b' {
        return false;
    }
    proof {
        let (g, _) = fen_placement(s).unwrap();
        lemma_castling_end(s, t + 1, 4, g);
    }
    let mut k = t + 1;
    let mut count: usize = 0;
    while count < 4
        invariant_except_break
            castling_end(s, k as int, (4 - count) as nat) == castling_end(s, t + 1, 4),
        invariant
            chars@ == s,
            s == representation@,
            !starts_startpos(s),
            fen_placement(s) matches Some((g, e)) && e == i && match read_castling(s, t + 1, 4, g) {
                Some((_, e2)) => castling_end(s, t + 1, 4) == Some(e2),
                None => castling_end(s, t + 1, 4) is None,
            },
            t == i + 1,
            t < n,
            fen_turn(s[t as int]) is Some,
            n == s.len(),
            n <= usize::MAX / 16,
            count <= 4,
            k <= n + 1,
        ensures
            castling_end(s, t + 1, 4) == Some(k as int),
            k <= n + 1,
        decreases 4 - count,
    {
        k += 1;
        if k >= n {
            return false;
        }
        if chars[k] == ' ' {
            break ;
        } else if chars[k] == '-' {
            k += 1;
            break ;
        }
        count += 1;
    }
    let e = k + 1;
    if e >= n {
        return false;
    }
    let c = chars[e];
    proof {
        lemma_byte_len_push(Seq::<char>::empty(), c);
        lemma_byte_len_push(seq![c], c);
        assert(Seq::<char>::empty().push(c) == seq![c]);
        assert(seq![c].push(c) == seq![c, c]);
        assert(vstd::utf8::encode_utf8(Seq::<char>::empty()).len() == 0);
    }
    c != ' ' && c != '-' && width_of(c) == 1
}

} // verus!
