//! The UCI notation of moves: writing it, and reading it back against a board.
use vstd::prelude::*;
use crate::board::{
    Board, Color, Coordinate, PieceType, Position, col_of_letter, home_rank_of, on_board, opposite_of,
    row_of_digit, type_from_letter, type_letter,
};
use crate::movement::{Action, Castle, CastleSide, Move, en_passant_square, king_end, spec_new_move};
use crate::perform::castle_illegal_in;
use crate::check::{side_moves, targets, threatened_by};
use crate::text::{byte_len, lemma_byte_len_bounds, decimal, digit, digit_char, push_decimal, string_push, string_remove_first};

verus! {

/// The letter of a column: 'a' to 'h', and 'a' for a column off the board.
pub open spec fn column_char(col: usize) -> char {
    if col == 0 {
        'a'
    } else if col == 1 {
        'b'
    } else if col == 2 {
        'c'
    } else if col == 3 {
        'd'
    } else if col == 4 {
        'e'
    } else if col == 5 {
        'f'
    } else if col == 6 {
        'g'
    } else if col == 7 {
        'h'
    } else {
        'a'
    }
}

/// How a coordinate is written: its column letter, then its row counted from 1.
pub open spec fn coordinate_text(c: Coordinate) -> Seq<char> {
    seq![column_char(c.col)] + decimal((c.row + 1) as nat)
}

/// The letter of a column.
fn column_letter(col: usize) -> (c: char)
    ensures
        c == column_char(col),
{
    match col {
        0 => 'a',
        1 => 'b',
        2 => 'c',
        3 => 'd',
        4 => 'e',
        5 => 'f',
        6 => 'g',
        7 => 'h',
        _ => 'a',
    }
}

/// Appends how a coordinate is written.
fn push_coordinate(s: &mut String, c: &Coordinate)
    requires
        c.row < usize::MAX,
    ensures
        final(s)@ == old(s)@ + coordinate_text(*c),
{
    string_push(s, column_letter(c.col));
    push_decimal(s, c.row + 1);
    assert(final(s)@ =~= old(s)@ + coordinate_text(*c));
}

/// Generating the UCI notation of an action.
pub trait ToUCI {
    /// The notation.
    spec fn uci_text(&self) -> Seq<char>;

    /// The notation can be written.
    spec fn writable(&self) -> bool;

    /// Writes the notation.
    fn generate(&self) -> (s: String)
        requires
            self.writable(),
        ensures
            s@ == self.uci_text(),
    ;
}

/// The UCI notation of a move: where it is from, where it goes, and the letter of its
/// promotion.
pub open spec fn move_text(m: Move) -> Seq<char> {
    coordinate_text(m.from) + coordinate_text(m.to) + match m.promotion {
        Some(t) => seq![type_letter(t)],
        None => Seq::empty(),
    }
}

/// The UCI notation of a castle: the king's move from column e to its castled square.
pub open spec fn castle_text(c: Castle) -> Seq<char> {
    let row = digit_char((home_rank_of(c.player) + 1) as nat);
    seq!['e', row, column_char(king_end(c.side)), row]
}

impl ToUCI for Move {
    open spec fn uci_text(&self) -> Seq<char> {
        move_text(*self)
    }

    open spec fn writable(&self) -> bool {
        self.from.row < usize::MAX && self.to.row < usize::MAX
    }

    fn generate(&self) -> (s: String) {
        let mut repr = String::new();
        push_coordinate(&mut repr, &self.from);
        push_coordinate(&mut repr, &self.to);

        if let Some(promotion) = self.promotion {
            string_push(&mut repr, promotion.letter());
        }
        assert(repr@ =~= move_text(*self));
        repr
    }
}

impl ToUCI for Castle {
    open spec fn uci_text(&self) -> Seq<char> {
        castle_text(*self)
    }

    open spec fn writable(&self) -> bool {
        true
    }

    fn generate(&self) -> (s: String) {
        let row = digit(self.player.home_rank() + 1);
        //get the target column's letter
        let target = column_letter(self.side.king_end_col());
        let mut repr = String::new();
        string_push(&mut repr, 'e');
        string_push(&mut repr, row);
        string_push(&mut repr, target);
        string_push(&mut repr, row);
        assert(repr@ =~= castle_text(*self));
        repr
    }
}

impl ToUCI for Action {
    open spec fn uci_text(&self) -> Seq<char> {
        match *self {
            Action::Move(m) => move_text(m),
            Action::Castle(c) => castle_text(c),
        }
    }

    open spec fn writable(&self) -> bool {
        match *self {
            Action::Move(m) => m.writable(),
            Action::Castle(_) => true,
        }
    }

    fn generate(&self) -> (s: String) {
        match self {
            Action::Move(m) => m.generate(),
            Action::Castle(c) => c.generate(),
        }
    }
}

/// The on-board coordinate written by the two characters of `s` from position `i`.
pub open spec fn uci_square(s: Seq<char>, i: int) -> Option<Coordinate> {
    if 0 <= i && i + 2 <= s.len() && 'a' <= s[i] <= 'h' && '1' <= s[i + 1] <= '8' {
        Some(
            Coordinate {
                col: col_of_letter(s[i]) as usize,
                row: row_of_digit(s[i + 1]) as usize,
            },
        )
    } else {
        None
    }
}

/// A move would capture a piece of the moving piece's own color.
pub open spec fn same_color_capture(b: Position, from: Coordinate, to: Coordinate) -> bool {
    b.piece_at(to) matches Some(q) && b.piece_at(from) matches Some(p) && q.color == p.color
}

/// Where a UCI move text gets to building a move: its squares and its promotion, where it is
/// 4 or 5 bytes long without a space, writes two squares on the board, and does not capture
/// a piece of the mover's own color. The promotion is the piece type that a fifth character
/// names, if any.
pub open spec fn move_parse_target(s: Seq<char>, b: Position) -> Option<
    (Coordinate, Coordinate, Option<PieceType>),
> {
    let n = byte_len(s);
    if n > 5 || n < 4 || s.contains(' ') {
        None
    } else {
        match (uci_square(s, 0), uci_square(s, 2)) {
            (Some(f), Some(t)) => if same_color_capture(b, f, t) {
                None
            } else {
                Some((f, t, if s.len() > 4 { type_from_letter(s[4]) } else { None }))
            },
            _ => None,
        }
    }
}

/// The move a UCI move text reads as: built as a move that may take en passant.
pub open spec fn move_parse_result(s: Seq<char>, b: Position) -> Result<Action, ()> {
    match move_parse_target(s, b) {
        Some((f, t, p)) => Ok(Action::Move(spec_new_move(f, t, b, p, true))),
        None => Err(()),
    }
}

/// Reading a move text panics where it gets to building a move but no row lies beside the
/// target square on the side it came from (a move along the last row).
pub open spec fn move_parse_panics(s: Seq<char>, b: Position) -> bool {
    move_parse_target(s, b) matches Some((f, t, p)) && en_passant_square(f, t) is None
}

/// The castle a UCI text names: "e1c1", "e1g1", "e8c8" or "e8g8", 4 bytes long without a space.
pub open spec fn castle_parse_target(s: Seq<char>) -> Option<Castle> {
    if s[0] != 'e' || byte_len(s) != 4 || s.contains(' ') {
        None
    } else {
        match (uci_square(s, 0), uci_square(s, 2)) {
            (Some(k), Some(t)) => {
                let player = if k.row == 0 {
                    Some(Color::White)
                } else if k.row == 7 {
                    Some(Color::Black)
                } else {
                    None
                };
                let side = if t.col == 2 {
                    Some(CastleSide::QueenSide)
                } else if t.col == 6 {
                    Some(CastleSide::KingSide)
                } else {
                    None
                };
                match (player, side) {
                    (Some(player), Some(side)) => Some(Castle { side, player }),
                    _ => None,
                }
            },
            _ => None,
        }
    }
}

/// The castle a UCI text reads as, where that castle is legal in the position.
pub open spec fn castle_parse_result(s: Seq<char>, b: Position) -> Result<Action, ()> {
    match castle_parse_target(s) {
        Some(c) => if castle_illegal_in(b, c) {
            Err(())
        } else {
            Ok(Action::Castle(c))
        },
        None => Err(()),
    }
}

/// Reading an action from UCI notation against a board.
pub trait FromUCI {
    /// What the text reads as.
    spec fn parse_result(s: Seq<char>, b: Position) -> Result<Action, ()>;

    /// Reading the text would panic.
    spec fn parse_panics(s: Seq<char>, b: Position) -> bool;

    /// Reads the text.
    fn parse(representation: String, current_board: &Board) -> (r: Result<Action, ()>)
        requires
            current_board.wf(),
            !Self::parse_panics(representation@, current_board.pos()),
        ensures
            r == Self::parse_result(representation@, current_board.pos()),
    ;
}

/// Whether a string holds a space.
fn has_space(s: &String) -> (b: bool)
    ensures
        b == s@.contains(' '),
{
    let text = s.as_str();
    let n = text.unicode_len();
    let mut i: usize = 0;
    while i < n
        invariant
            text@ == s@,
            n == s@.len(),
            i <= n,
            forall|j: int| 0 <= j < i ==> s@[j] != ' ',
        decreases n - i,
    {
        if text.get_char(i) == ' ' {
            assert(s@[i as int] == ' ');
            return true;
        }
        i += 1;
    }
    false
}

/// Takes the two characters that write an on-board coordinate off the front of a string.
fn take_coordinate(repr: &mut String) -> (r: Result<Coordinate, ()>)
    ensures
        r is Ok <==> uci_square(old(repr)@, 0) is Some,
        r matches Ok(c) ==> {
            &&& uci_square(old(repr)@, 0) == Some(c)
            &&& final(repr)@ == old(repr)@.skip(2)
        },
{
    let n = repr.as_str().unicode_len();
    if n < 2 {
        return Err(());
    }
    let ghost s = repr@;
    let col = string_remove_first(repr);
    let row = string_remove_first(repr);
    assert(repr@ =~= s.skip(2));
    if col < 'a' || col > 'h' || row < '1' || row > '8' {
        return Err(());
    }
    Ok(Coordinate { col: (col as u32 - 'a' as u32) as usize, row: (row as u32 - '1' as u32) as usize })
}

impl FromUCI for Move {
    open spec fn parse_result(s: Seq<char>, b: Position) -> Result<Action, ()> {
        move_parse_result(s, b)
    }

    open spec fn parse_panics(s: Seq<char>, b: Position) -> bool {
        move_parse_panics(s, b)
    }

    /// A move from a text of two squares and an optional promotion letter. The move may
    /// take en passant; it is refused where it captures a piece of its own color.
    fn parse(representation: String, current_board: &Board) -> (r: Result<Action, ()>) {
        let current_board = current_board.duplicate();
        match read_move_target(representation, &current_board) {
            //assume en passant; the constructor keeps it only where it is possible
            Some((from, to, promotion)) => Ok(
                Action::Move(Move::new(from, to, &current_board, promotion, true)),
            ),
            None => Err(()),
        }
    }
}

/// Reads the squares and the promotion of a UCI move text: see `move_parse_target`.
fn read_move_target(representation: String, current_board: &Board) -> (r: Option<
    (Coordinate, Coordinate, Option<PieceType>),
>)
    requires
        current_board.wf(),
    ensures
        r == move_parse_target(representation@, current_board.pos()),
{
    let ghost s = representation@;
    let mut representation = representation;
    proof {
        lemma_byte_len_bounds(s);
    }
    //more than 5 characters take more than 5 bytes
    if representation.as_str().unicode_len() > 5 {
        return None;
    }
    let bytes = representation.as_str().len();
    if bytes > 5 || bytes < 4 || has_space(&representation) {
        return None;
    }
    let from = match take_coordinate(&mut representation) {
        Ok(c) => c,
        Err(_) => return None,
    };
    if !from.is_valid() {
        return None;
    }
    let to = match take_coordinate(&mut representation) {
        Ok(c) => c,
        Err(_) => {
            assert(uci_square(s, 2) is None) by {
                if uci_square(s, 2) is Some {
                    assert(s.skip(2)[0] == s[2]);
                    assert(s.skip(2)[1] == s[3]);
                }
            }
            return None;
        },
    };
    assert(uci_square(s, 2) == Some(to)) by {
        assert(s.skip(2)[0] == s[2]);
        assert(s.skip(2)[1] == s[3]);
    }
    if !to.is_valid() {
        return None;
    }
    //a move can't capture a piece of its own color

    if let Some(captured_piece) = current_board.square(&to).piece {
        if let Some(moving_piece) = current_board.square(&from).piece {
            if captured_piece.color == moving_piece.color {
                return None;
            }
        }
    }
    assert(representation@ =~= s.skip(4));
    let promotion = if !representation.as_str().is_empty() {
        assert(representation@[0] == s[4]);
        match PieceType::from(string_remove_first(&mut representation)) {
            Ok(t) => Some(t),
            Err(_) => None,
        }
    } else {
        None
    };
    Some((from, to, promotion))
}

impl FromUCI for Castle {
    open spec fn parse_result(s: Seq<char>, b: Position) -> Result<Action, ()> {
        castle_parse_result(s, b)
    }

    open spec fn parse_panics(s: Seq<char>, b: Position) -> bool {
        s.len() == 0
    }

    /// A castle from the king's move in UCI notation, where it is legal on the board.
    fn parse(representation: String, current_board: &Board) -> (r: Result<Action, ()>) {
        let ghost old_pos = current_board.pos();
        let mut current_board = current_board.duplicate();
        let mut castle = match read_castle_target(representation) {
            Some(c) => c,
            None => return Err(()),
        };
        assert(current_board.pos() == old_pos);
        assert(threatened_by(current_board.move_info, opposite_of(castle.player)) == targets(
            side_moves(old_pos, opposite_of(castle.player)),
        ));
        if castle.is_illegal(&mut current_board) {
            return Err(());
        }
        Ok(Action::Castle(castle))
    }
}

/// Reads the castle that a UCI text names: see `castle_parse_target`.
fn read_castle_target(representation: String) -> (r: Option<Castle>)
    requires
        representation@.len() > 0,
    ensures
        r == castle_parse_target(representation@),
{
    let ghost s = representation@;
    let mut representation = representation;
    proof {
        lemma_byte_len_bounds(s);
    }
    if representation.as_str().get_char(0) != 'e' {
        return None;
    }
    //more than 4 characters take more than 4 bytes
    if representation.as_str().unicode_len() > 4 || representation.as_str().len() != 4
        || has_space(&representation) {
        return None;
    }
    let king_loc = match take_coordinate(&mut representation) {
        Ok(c) => c,
        Err(_) => return None,
    };
    if !king_loc.is_valid() {
        return None;
    }
    let king_target = match take_coordinate(&mut representation) {
        Ok(c) => c,
        Err(_) => {
            assert(uci_square(s, 2) is None) by {
                if uci_square(s, 2) is Some {
                    assert(s.skip(2)[0] == s[2]);
                    assert(s.skip(2)[1] == s[3]);
                }
            }
            return None;
        },
    };
    assert(uci_square(s, 2) == Some(king_target)) by {
        assert(s.skip(2)[0] == s[2]);
        assert(s.skip(2)[1] == s[3]);
    }
    if !king_target.is_valid() {
        return None;
    }
    let player = match king_loc.row {
        0 => Color::White,
        7 => Color::Black,
        _ => {
            return None;
        },
    };

    let side = match king_target.col {
        2 => CastleSide::QueenSide,
        6 => CastleSide::KingSide,
        _ => return None,
    };
    Some(Castle::new(side, player))
}

/// Reading a text first as a castle, then as a move, panics where it is not a castle and
/// reading it as a move fails or panics.
pub open spec fn parse_action_panics(s: Seq<char>, b: Position) -> bool {
    s.len() == 0 || (castle_parse_result(s, b) is Err && (move_parse_panics(s, b)
        || move_parse_result(s, b) is Err))
}

/// What a text reads as: a legal castle, or else a move.
pub open spec fn action_parse_result(s: Seq<char>, b: Position) -> Result<Action, ()> {
    match castle_parse_result(s, b) {
        Ok(a) => Ok(a),
        Err(_) => move_parse_result(s, b),
    }
}

/// Reads a text as a castle where it names a legal one, and otherwise as a move; the text
/// must read as one of them.
pub fn parse_action(representation: String, current_board: &mut Board) -> (a: Action)
    requires
        old(current_board).wf(),
        !parse_action_panics(representation@, old(current_board).pos()),
    ensures
        action_parse_result(representation@, old(current_board).pos()) == Ok::<Action, ()>(a),
        *final(current_board) == *old(current_board),
{
    //try generating a castle. If that doesn't work, make a Move
    let castle = Castle::parse(representation.clone(), current_board);
    if let Ok(c) = castle {
        return c;
    }
    //otherwise, create a move

    match Move::parse(representation, current_board) {
        Ok(m) => m,
        Err(_) => {
            assert(false);
            Action::Move(Move::new(Coordinate::new(0, 0), Coordinate::new(0, 0), current_board, None, false))
        },
    }
}

/// Like `parse_action`, but returns an error where the text reads as neither a legal castle
/// nor a move.
pub fn safe_parse_action(representation: String, current_board: &mut Board) -> (r: Result<
    Action,
    (),
>)
    requires
        old(current_board).wf(),
        representation@.len() > 0,
        castle_parse_result(representation@, old(current_board).pos()) is Err ==> !move_parse_panics(
            representation@,
            old(current_board).pos(),
        ),
    ensures
        r == action_parse_result(representation@, old(current_board).pos()),
        *final(current_board) == *old(current_board),
{
    if let Ok(c) = Castle::parse(representation.clone(), current_board) {
        return Ok(c);
    }
    if let Ok(m) = Move::parse(representation, current_board) {
        return Ok(m);
    }
    Err(())
}

} // verus!

verus! {

/// Whether reading a text as a move against a board would panic: see `move_parse_panics`.
pub fn move_parse_would_panic(representation: &String, current_board: &Board) -> (b: bool)
    requires
        current_board.wf(),
    ensures
        b == move_parse_panics(representation@, current_board.pos()),
{
    match read_move_target(representation.clone(), current_board) {
        Some((from, to, _)) => from.row >= to.row && to.row == 7,
        None => false,
    }
}

/// Whether `parse_action` would panic on a text: see `parse_action_panics`.
pub fn parse_action_would_panic(representation: &String, current_board: &Board) -> (b: bool)
    requires
        current_board.wf(),
    ensures
        b == parse_action_panics(representation@, current_board.pos()),
{
    if representation.as_str().unicode_len() == 0 {
        return true;
    }
    if Castle::parse(representation.clone(), current_board).is_ok() {
        return false;
    }
    if move_parse_would_panic(representation, current_board) {
        return true;
    }
    Move::parse(representation.clone(), current_board).is_err()
}

/// Whether `safe_parse_action` would panic on a text: it is empty, or it is not a legal
/// castle and reading it as a move panics.
pub fn safe_parse_would_panic(representation: &String, current_board: &Board) -> (b: bool)
    requires
        current_board.wf(),
    ensures
        b == (representation@.len() == 0 || (castle_parse_result(
            representation@,
            current_board.pos(),
        ) is Err && move_parse_panics(representation@, current_board.pos()))),
{
    if representation.as_str().unicode_len() == 0 {
        return true;
    }
    if Castle::parse(representation.clone(), current_board).is_ok() {
        return false;
    }
    move_parse_would_panic(representation, current_board)
}

} // verus!
