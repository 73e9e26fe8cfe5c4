//! Pieces, colors, coordinates, squares and the board.
//!
//! All row numbers are 0-indexed: the square called a8 in chess notation is
//! column 0, row 7 here, and a1 is column 0, row 0.
use vstd::prelude::*;
use crate::check::MoveInfo;
use crate::text::{decimal, push_decimal, string_remove_first};

verus! {

/// The column letters, in order.
pub const LETTERS: &'static str = "abcdefgh";

/// The kind of a piece. A pawn stores the round on which it may be taken en passant
/// (0 when it never may).
#[derive(Debug, Clone, Copy, PartialEq, Eq, Structural)]
pub enum PieceType {
    Pawn(i32),
    Knight,
    Bishop,
    Rook,
    Queen,
    King,
}

/// Material value of a piece type: 1, 3, 3, 5, 9, 50.
pub open spec fn type_value(t: PieceType) -> int {
    match t {
        PieceType::Pawn(_) => 1,
        PieceType::Knight => 3,
        PieceType::Bishop => 3,
        PieceType::Rook => 5,
        PieceType::Queen => 9,
        PieceType::King => 50,
    }
}

/// The piece type named by a letter of either case (a pawn gets en passant round 0).
pub open spec fn type_from_letter(letter: char) -> Option<PieceType> {
    if letter == 'p' || letter == 'P' {
        Some(PieceType::Pawn(0))
    } else if letter == 'n' || letter == 'N' {
        Some(PieceType::Knight)
    } else if letter == 'b' || letter == 'B' {
        Some(PieceType::Bishop)
    } else if letter == 'r' || letter == 'R' {
        Some(PieceType::Rook)
    } else if letter == 'q' || letter == 'Q' {
        Some(PieceType::Queen)
    } else if letter == 'k' || letter == 'K' {
        Some(PieceType::King)
    } else {
        None
    }
}

/// The lower-case letter of a piece type.
pub open spec fn type_letter(t: PieceType) -> char {
    match t {
        PieceType::Pawn(_) => 'p',
        PieceType::Knight => 'n',
        PieceType::Bishop => 'b',
        PieceType::Rook => 'r',
        PieceType::Queen => 'q',
        PieceType::King => 'k',
    }
}

impl PieceType {
    /// The material value of the piece (1, 3, 3, 5, 9, 50).
    pub fn value(&self) -> (v: i32)
        ensures
            v == type_value(*self),
    {
        match self {
            PieceType::Pawn(_) => 1,
            PieceType::Knight => 3,
            PieceType::Bishop => 3,
            PieceType::Rook => 5,
            PieceType::Queen => 9,
            PieceType::King => 50,
        }
    }

    /// The piece type named by a letter, upper or lower case; any other letter is an error.
    pub fn from(letter: char) -> (r: Result<Self, ()>)
        ensures
            r is Ok <==> type_from_letter(letter) is Some,
            r matches Ok(t) ==> type_from_letter(letter) == Some(t),
    {
        match letter {
            'p' | 'P' => Ok(Self::Pawn(0)),
            'n' | 'N' => Ok(Self::Knight),
            'b' | 'B' => Ok(Self::Bishop),
            'r' | 'R' => Ok(Self::Rook),
            'q' | 'Q' => Ok(Self::Queen),
            'k' | 'K' => Ok(Self::King),
            _ => Err(()),
        }
    }

    /// The lower-case letter of the piece type.
    pub fn letter(&self) -> (c: char)
        ensures
            c == type_letter(*self),
    {
        match self {
            PieceType::Pawn(_) => 'p',
            PieceType::Knight => 'n',
            PieceType::Bishop => 'b',
            PieceType::Rook => 'r',
            PieceType::Queen => 'q',
            PieceType::King => 'k',
        }
    }
}

/// A color, of a square or of a piece.
#[derive(Debug, Clone, Copy, PartialEq, Eq, Structural)]
pub enum Color {
    White,
    Black,
}

/// 1 for White, -1 for Black.
pub open spec fn color_value(c: Color) -> int {
    match c {
        Color::White => 1,
        Color::Black => -1,
    }
}

/// The row on which a color's pieces start: 0 for White, 7 for Black.
pub open spec fn home_rank_of(c: Color) -> int {
    match c {
        Color::White => 0,
        Color::Black => 7,
    }
}

/// The row on which a color's pawns start: 1 for White, 6 for Black.
pub open spec fn pawn_home_rank_of(c: Color) -> int {
    match c {
        Color::White => 1,
        Color::Black => 6,
    }
}

/// The other color.
pub open spec fn opposite_of(c: Color) -> Color {
    match c {
        Color::White => Color::Black,
        Color::Black => Color::White,
    }
}

/// The letter of a color: 'w' or 'b'.
pub open spec fn color_letter(c: Color) -> char {
    match c {
        Color::White => 'w',
        Color::Black => 'b',
    }
}

impl Color {
    /// 1 for White and -1 for Black.
    pub fn value(&self) -> (v: i32)
        ensures
            v == color_value(*self),
    {
        match self {
            Color::White => 1,
            Color::Black => -1,
        }
    }

    /// 0 for White and 7 for Black.
    pub fn home_rank(&self) -> (r: usize)
        ensures
            r == home_rank_of(*self),
    {
        match self {
            Color::White => 0,
            Color::Black => 7,
        }
    }

    /// Black for White, White for Black.
    pub fn opposite(&self) -> (c: Self)
        ensures
            c == opposite_of(*self),
    {
        match self {
            Color::White => Color::Black,
            Color::Black => Color::White,
        }
    }

    /// The row on which a color's pawns start: 1 for White, 6 for Black.
    pub fn pawn_home_rank(&self) -> (r: usize)
        ensures
            r == pawn_home_rank_of(*self),
    {
        match self {
            Color::White => 1,
            Color::Black => 6,
        }
    }

    /// The color a letter names: 'w' for White, 'b' for Black; any other letter is an error.
    pub fn from(letter: char) -> (r: Result<Self, ()>)
        ensures
            r == (if letter == 'w' {
                Ok(Color::White)
            } else if letter == 'b' {
                Ok(Color::Black)
            } else {
                Err::<Color, ()>(())
            }),
    {
        match letter {
            'w' => Ok(Color::White),
            'b' => Ok(Color::Black),
            _ => Err(()),
        }
    }

    /// 'w' for White and 'b' for Black.
    pub fn letter(&self) -> (c: char)
        ensures
            c == color_letter(*self),
    {
        match self {
            Color::White => 'w',
            Color::Black => 'b',
        }
    }
}

/// The location of a square or a piece.
#[derive(Debug, Clone, Copy, PartialEq, Eq, Structural, Hash)]
pub struct Coordinate {
    pub row: usize,
    pub col: usize,
}

/// Whether a coordinate lies on the 8 by 8 board.
pub open spec fn on_board(c: Coordinate) -> bool {
    c.row < 8 && c.col < 8
}

/// Where a square of the board is stored: columns one after the other.
pub open spec fn idx(c: Coordinate) -> int {
    c.col * 8 + c.row
}

/// The coordinate `rise` rows and `run` columns away from `c`, where that is on the board.
pub open spec fn offset(c: Coordinate, rise: int, run: int) -> Option<Coordinate> {
    let row = c.row + rise;
    let col = c.col + run;
    if 0 <= row < 8 && 0 <= col < 8 {
        Some(Coordinate { row: row as usize, col: col as usize })
    } else {
        None
    }
}

/// The color of the square at a coordinate: Black where column plus row is even.
pub open spec fn square_color(c: Coordinate) -> Color {
    if (c.col + c.row) % 2 == 0 {
        Color::Black
    } else {
        Color::White
    }
}

/// The column numbered by a letter 'a' to 'h'.
pub open spec fn col_of_letter(name: char) -> int {
    name as int - 'a' as int
}

/// The letter of a column 0 to 7.
pub open spec fn letter_of_col(col: int) -> char {
    ('a' as int + col) as char
}

/// The row numbered by a digit '1' to '9' (rows are written from 1).
pub open spec fn row_of_digit(d: char) -> int {
    d as int - '1' as int
}

/// The digit that writes a row 0 to 8.
pub open spec fn digit_of_row(row: int) -> char {
    ('1' as int + row) as char
}

/// Whether two characters write a coordinate: a column letter and a non-zero digit.
pub open spec fn writes_coordinate(col: char, row: char) -> bool {
    'a' <= col <= 'h' && '1' <= row <= '9'
}

impl Coordinate {
    /// Whether the coordinate fits into the 8 by 8 board.
    pub fn is_valid(&self) -> (b: bool)
        ensures
            b == on_board(*self),
    {
        self.row < 8 && self.col < 8
    }

    /// The coordinate `rise` rows and `run` columns away, or an error where that leaves the board.
    pub fn with_offset(&self, rise: i32, run: i32) -> (r: Result<Coordinate, ()>)
        requires
            rise > i32::MIN,
            run > i32::MIN,
            self.row + rise <= usize::MAX,
            self.col + run <= usize::MAX,
        ensures
            r is Ok <==> offset(*self, rise as int, run as int) is Some,
            r matches Ok(c) ==> offset(*self, rise as int, run as int) == Some(c),
    {
        let mut new = *self;

        if rise < 0 {
            let off = (-rise) as usize;
            //can't leave the board
            if off > new.row {
                return Err(());
            }
            new.row = new.row - off;
        } else {
            new.row = new.row + rise as usize;
        }
        if run < 0 {
            let off = (-run) as usize;
            //can't leave the board
            if off > new.col {
                return Err(());
            }
            new.col = new.col - off;
        } else {
            new.col = new.col + run as usize;
        }

        if new.is_valid() {
            Ok(new)
        } else {
            Err(())
        }
    }

    /// The color of the square at this coordinate.
    pub fn color(&self) -> (c: Option<Color>)
        requires
            self.col + self.row <= usize::MAX,
        ensures
            c == Some(square_color(*self)),
    {
        //if the row num plus the col num is even, return black. Else, white.
        if (self.col + self.row) % 2 == 0 {
            Some(Color::Black)
        } else {
            Some(Color::White)
        }
    }

    /// The coordinate of a column and a row.
    pub fn new(col: usize, row: usize) -> (c: Self)
        ensures
            c.col == col,
            c.row == row,
    {
        Coordinate { row, col }
    }

    /// Takes a column letter and a row digit (written from 1) off the front of `repr`.
    pub fn from(repr: &mut String) -> (c: Self)
        requires
            old(repr)@.len() >= 2,
            writes_coordinate(old(repr)@[0], old(repr)@[1]),
        ensures
            c.col == col_of_letter(old(repr)@[0]),
            c.row == row_of_digit(old(repr)@[1]),
            final(repr)@ == old(repr)@.skip(2),
    {
        let ghost s = repr@;
        let col = col_num(string_remove_first(repr));
        let digit = string_remove_first(repr);
        assert(repr@ =~= s.skip(2));
        let row = (digit as u32 - '1' as u32) as usize;
        Self { col, row }
    }
}

/// The column numbered by a letter 'a' to 'h'.
pub fn col_num(name: char) -> (n: usize)
    requires
        'a' <= name <= 'h',
    ensures
        n == col_of_letter(name),
        n < 8,
{
    (name as u32 - 'a' as u32) as usize
}

/// A piece on a square.
#[derive(Debug, Clone, Copy, PartialEq, Eq, Structural)]
pub struct Piece {
    pub color: Color,
    pub ptype: PieceType,
    pub location: Coordinate,
    pub has_moved: bool,
}

/// One square of the board.
#[derive(Debug, Clone, Copy, PartialEq, Eq, Structural)]
pub struct Square {
    pub location: Coordinate,
    pub color: Color,
    pub piece: Option<Piece>,
}

/// The value of what stands on a square: the piece's value, or 0 when it is empty.
pub open spec fn square_value_of(s: Square) -> int {
    match s.piece {
        Some(p) => type_value(p.ptype),
        None => 0,
    }
}

impl Square {
    /// The value of the piece on the square; 0 when there is no piece.
    pub fn value(&self) -> (v: i32)
        ensures
            v == square_value_of(*self),
    {
        if let Some(piece) = self.piece {
            piece.ptype.value()
        } else {
            0
        }
    }
}


/// How a piece is drawn: its color's letter and its type's letter.
pub open spec fn piece_text(p: Piece) -> Seq<char> {
    seq![color_letter(p.color), type_letter(p.ptype)]
}

/// How a square is drawn: the terminal colors of the square, the piece or two spaces, and
/// a reset of the colors.
pub open spec fn square_text(s: Square) -> Seq<char> {
    let bg = if s.color == Color::Black { "\x1b[40m"@ } else { "\x1b[47m"@ };
    let fg = if s.color == Color::Black { "\x1b[0;37m"@ } else { "\x1b[30m"@ };
    let piece = match s.piece {
        Some(p) => piece_text(p),
        None => "  "@,
    };
    bg + fg + piece + "\x1b[0m"@
}

/// The squares of a row from column `c` on, each after a separator.
pub open spec fn cols_text(g: Seq<Square>, row: int, c: int) -> Seq<char>
    decreases 8 - c,
{
    if c >= 8 {
        Seq::empty()
    } else {
        " | "@ + square_text(g[c * 8 + row]) + cols_text(g, row, c + 1)
    }
}

/// The rows from `row` down to the first, each on a new line after a blank one and its
/// number.
pub open spec fn rows_text(g: Seq<Square>, row: int) -> Seq<char>
    decreases row + 1,
{
    if row < 0 {
        Seq::empty()
    } else {
        "\n\n"@ + decimal((row + 1) as nat) + cols_text(g, row, 0) + rows_text(g, row - 1)
    }
}

/// How a board is drawn: the column letters, then the rows from the last to the first.
pub open spec fn board_text(g: Seq<Square>) -> Seq<char> {
    "     a    b    c    d    e    f    g    h"@ + rows_text(g, 7)
}

impl Piece {
    /// The piece's color letter and type letter.
    pub fn draw(&self) -> (s: String)
        ensures
            s@ == piece_text(*self),
    {
        let mut s = String::new();
        crate::text::string_push(&mut s, self.color.letter());
        crate::text::string_push(&mut s, self.ptype.letter());
        assert(s@ =~= piece_text(*self));
        s
    }
}

impl Square {
    /// The square drawn with terminal colors.
    pub fn draw(&self) -> (s: String)
        ensures
            s@ == square_text(*self),
    {
        //find ansi codes
        let bg = if self.color == Color::Black {
            "\x1b[40m"
        } else {
            "\x1b[47m"
        };
        let fg = if self.color == Color::Black {
            "\x1b[0;37m"
        } else {
            "\x1b[30m"
        };
        let piece = if let Some(p) = self.piece {
            p.draw()
        } else {
            String::from_str("  ")
        };
        let mut out = String::new();
        out.append(bg);
        out.append(fg);
        out.append(piece.as_str());
        out.append("\x1b[0m");
        out
    }
}

/// A piece moved to a coordinate.
pub open spec fn placed(p: Piece, c: Coordinate) -> Piece {
    Piece { color: p.color, ptype: p.ptype, location: c, has_moved: p.has_moved }
}

/// A square holding other contents.
pub open spec fn with_piece(s: Square, p: Option<Piece>) -> Square {
    Square { location: s.location, color: s.color, piece: p }
}

/// A grid with the piece at a coordinate taken away.
pub open spec fn cleared(g: Seq<Square>, c: Coordinate) -> Seq<Square> {
    g.update(idx(c), with_piece(g[idx(c)], None))
}

/// A grid with a piece put on a coordinate (the piece takes that location).
pub open spec fn put(g: Seq<Square>, c: Coordinate, p: Piece) -> Seq<Square> {
    g.update(idx(c), with_piece(g[idx(c)], Some(placed(p, c))))
}

/// A grid with the piece on `from` moved to `to`, marked as having moved.
pub open spec fn moved(g: Seq<Square>, from: Coordinate, to: Coordinate) -> Seq<Square> {
    let p = g[idx(from)].piece.unwrap();
    put(cleared(g, from), to, Piece { has_moved: true, ..p })
}

/// The empty square at a coordinate.
pub open spec fn empty_square(c: Coordinate) -> Square {
    Square { location: c, color: square_color(c), piece: None }
}

/// The grid of an empty board.
pub open spec fn empty_grid() -> Seq<Square> {
    Seq::new(64, |i: int| empty_square(coord_at(i)))
}

/// The coordinate stored at a position of the grid.
pub open spec fn coord_at(i: int) -> Coordinate {
    Coordinate { col: (i / 8) as usize, row: (i % 8) as usize }
}

/// A square that knows where it is and what color it has, holding a piece that knows
/// where it stands.
pub open spec fn square_ok(s: Square, c: Coordinate) -> bool {
    &&& s.location == c
    &&& s.color == square_color(c)
    &&& s.piece matches Some(p) ==> p.location == c
}

/// A grid of 64 squares, each in its place.
pub open spec fn grid_wf(g: Seq<Square>) -> bool {
    &&& g.len() == 64
    &&& forall|c: Coordinate| #![trigger g[idx(c)]] on_board(c) ==> square_ok(g[idx(c)], c)
}

/// The pieces of the first `n` squares of a grid, in grid order.
pub open spec fn pieces_upto(g: Seq<Square>, n: int) -> Seq<Piece>
    decreases n,
{
    if n <= 0 {
        Seq::empty()
    } else {
        let rest = pieces_upto(g, n - 1);
        match g[n - 1].piece {
            Some(p) => rest.push(p),
            None => rest,
        }
    }
}

/// All pieces of a grid, in grid order.
pub open spec fn all_pieces(g: Seq<Square>) -> Seq<Piece> {
    pieces_upto(g, 64)
}

/// The pieces of a color on the first `n` squares of a grid, in grid order.
pub open spec fn colored_upto(g: Seq<Square>, n: int, color: Color) -> Seq<Piece>
    decreases n,
{
    if n <= 0 {
        Seq::empty()
    } else {
        let rest = colored_upto(g, n - 1, color);
        match g[n - 1].piece {
            Some(p) => if p.color == color {
                rest.push(p)
            } else {
                rest
            },
            None => rest,
        }
    }
}

/// The pieces of a grid that have a color, in grid order.
pub open spec fn color_pieces(g: Seq<Square>, color: Color) -> Seq<Piece> {
    colored_upto(g, 64, color)
}

/// The pieces of a color on a well-formed grid stand on the board.
pub proof fn lemma_colored_on_board(g: Seq<Square>, n: int, color: Color)
    requires
        grid_wf(g),
        0 <= n <= 64,
    ensures
        forall|k: int|
            0 <= k < colored_upto(g, n, color).len() ==> on_board(
                #[trigger] colored_upto(g, n, color)[k].location,
            ),
    decreases n,
{
    if n > 0 {
        lemma_colored_on_board(g, n - 1, color);
        lemma_coord_at(n - 1);
        assert(square_ok(g[idx(coord_at(n - 1))], coord_at(n - 1)));
    }
}

/// The locations of the first `n` squares of a grid that hold a piece.
pub open spec fn locations_upto(g: Seq<Square>, n: int) -> Seq<Coordinate>
    decreases n,
{
    if n <= 0 {
        Seq::empty()
    } else {
        let rest = locations_upto(g, n - 1);
        match g[n - 1].piece {
            Some(p) => rest.push(g[n - 1].location),
            None => rest,
        }
    }
}

/// Every position of the grid is the place of one coordinate on the board.
pub proof fn lemma_coord_at(i: int)
    requires
        0 <= i < 64,
    ensures
        on_board(coord_at(i)),
        idx(coord_at(i)) == i,
{
}

/// Distinct coordinates on the board have distinct places in the grid.
pub proof fn lemma_idx_injective(a: Coordinate, b: Coordinate)
    requires
        on_board(a),
        on_board(b),
    ensures
        (idx(a) == idx(b)) == (a == b),
        0 <= idx(a) < 64,
{
}

/// The piece type that starts on a column of the back rank.
pub open spec fn back_rank_type(col: int) -> PieceType {
    if col == 0 || col == 7 {
        PieceType::Rook
    } else if col == 1 || col == 6 {
        PieceType::Knight
    } else if col == 2 || col == 5 {
        PieceType::Bishop
    } else if col == 3 {
        PieceType::Queen
    } else {
        PieceType::King
    }
}

/// Whether a row is one that pieces start on.
pub open spec fn starting_row(row: int) -> bool {
    row == 0 || row == 1 || row == 6 || row == 7
}

/// The piece that a column's starting row holds when its back-rank piece has a type.
pub open spec fn column_piece(c: Coordinate, ptype: PieceType) -> Piece {
    let color = if c.row <= 1 { Color::White } else { Color::Black };
    let t = if c.row == 1 || c.row == 6 { PieceType::Pawn(0) } else { ptype };
    Piece { color, ptype: t, location: c, has_moved: false }
}

/// The piece on a square in the starting position.
pub open spec fn start_piece(c: Coordinate) -> Option<Piece> {
    if starting_row(c.row as int) {
        Some(column_piece(c, back_rank_type(c.col as int)))
    } else {
        None
    }
}

/// Two well-formed grids with the same pieces everywhere are the same grid.
pub proof fn lemma_grid_ext(g1: Seq<Square>, g2: Seq<Square>)
    requires
        grid_wf(g1),
        grid_wf(g2),
        forall|c: Coordinate| on_board(c) ==> #[trigger] g1[idx(c)].piece == g2[idx(c)].piece,
    ensures
        g1 == g2,
{
    assert forall|i: int| 0 <= i < 64 implies g1[i] == g2[i] by {
        lemma_coord_at(i);
        let c = coord_at(i);
        assert(g1[idx(c)].piece == g2[idx(c)].piece);
    }
    assert(g1 =~= g2);
}

/// A board apart from what it knows of the moves: its squares, whose turn it is, and
/// the round.
pub ghost struct Position {
    pub grid: Seq<Square>,
    pub turn: Color,
    pub round: i32,
}

impl Position {
    /// The piece at a coordinate.
    pub open spec fn piece_at(&self, c: Coordinate) -> Option<Piece> {
        self.grid[idx(c)].piece
    }
}

/// The board the game is played on: 64 squares, whose turn it is, the round (the
/// number of the set of 2 moves, counted from 1), and what was last found of the moves.
#[derive(Debug, Clone)]
pub struct Board {
    pub squares: Vec<Square>,
    pub turn: Color,
    pub round: i32,
    pub move_info: MoveInfo,
}

impl Board {
    /// The squares of the board, column after column.
    pub open spec fn grid(&self) -> Seq<Square> {
        self.squares@
    }

    /// Every square knows its place and color, and every piece its square.
    pub open spec fn wf(&self) -> bool {
        grid_wf(self.grid())
    }

    /// The piece at a coordinate.
    pub open spec fn piece_at(&self, c: Coordinate) -> Option<Piece> {
        self.grid()[idx(c)].piece
    }

    /// The squares, the turn and the round of the board.
    pub open spec fn pos(&self) -> Position {
        Position { grid: self.grid(), turn: self.turn, round: self.round }
    }

    /// An empty board: White to play in round 1, no piece, nothing known of the moves.
    pub fn new() -> (b: Self)
        ensures
            b.wf(),
            b.grid() == empty_grid(),
            forall|c: Coordinate| on_board(c) ==> #[trigger] b.piece_at(c) is None,
            b.turn == Color::White,
            b.round == 1,
            b.move_info.empty(),
    {
        let mut squares: Vec<Square> = Vec::new();
        let mut col: usize = 0;
        while col < 8
            invariant
                col <= 8,
                squares@.len() == col * 8,
                forall|c: Coordinate| #![trigger squares@[idx(c)]]
                    on_board(c) && c.col < col ==> squares@[idx(c)] == empty_square(c),
            decreases 8 - col,
        {
            let mut row: usize = 0;
            while row < 8
                invariant
                    col < 8,
                    row <= 8,
                    squares@.len() == col * 8 + row,
                    forall|c: Coordinate| #![trigger squares@[idx(c)]]
                        on_board(c) && (c.col < col || (c.col == col && c.row < row))
                            ==> squares@[idx(c)] == empty_square(c),
                decreases 8 - row,
            {
                let coord = Coordinate::new(col, row);
                //get square color
                let color = match coord.color() {
                    Some(c) => c,
                    None => Color::White,
                };
                squares.push(Square { location: coord, color, piece: None });
                row += 1;
            }
            col += 1;
        }
        let b = Board {
            squares,
            turn: Color::White,
            round: 1,  //not 0-indexed; 0 signals "never" or an impossible turn
            move_info: MoveInfo::new(),
        };
        assert forall|c: Coordinate| on_board(c) implies #[trigger] b.piece_at(c) is None by {
            assert(b.grid()[idx(c)] == empty_square(c));
        }
        assert forall|i: int| 0 <= i < 64 implies b.grid()[i] == empty_grid()[i] by {
            lemma_coord_at(i);
            assert(b.grid()[idx(coord_at(i))] == empty_square(coord_at(i)));
        }
        assert(b.grid() =~= empty_grid());
        b
    }

    /// The square at a coordinate.
    pub fn square(&self, coord: &Coordinate) -> (s: &Square)
        requires
            self.wf(),
            on_board(*coord),
        ensures
            *s == self.grid()[idx(*coord)],
    {
        &self.squares[coord.col * 8 + coord.row]
    }

    /// Puts a piece on a coordinate (the piece takes that location), replacing what was there.
    pub fn put_piece_on(&mut self, coord: &Coordinate, piece: Piece)
        requires
            old(self).wf(),
            on_board(*coord),
        ensures
            final(self).wf(),
            final(self).grid() == put(old(self).grid(), *coord, piece),
            final(self).turn == old(self).turn,
            final(self).round == old(self).round,
            final(self).move_info == old(self).move_info,
    {
        let i = coord.col * 8 + coord.row;
        let mut piece = piece;
        piece.location = *coord;
        let mut s = self.squares[i];
        s.piece = Some(piece);
        self.squares.set(i, s);
        proof {
            assert forall|c: Coordinate| #![trigger self.grid()[idx(c)]] on_board(c) implies
                square_ok(self.grid()[idx(c)], c) by {
                lemma_idx_injective(c, *coord);
            }
        }
    }

    /// Deletes the piece at a coordinate.
    pub fn remove_on(&mut self, coord: &Coordinate)
        requires
            old(self).wf(),
            on_board(*coord),
        ensures
            final(self).wf(),
            final(self).grid() == cleared(old(self).grid(), *coord),
            final(self).turn == old(self).turn,
            final(self).round == old(self).round,
            final(self).move_info == old(self).move_info,
    {
        let i = coord.col * 8 + coord.row;
        let mut s = self.squares[i];
        s.piece = None;
        self.squares.set(i, s);
        proof {
            assert forall|c: Coordinate| #![trigger self.grid()[idx(c)]] on_board(c) implies
                square_ok(self.grid()[idx(c)], c) by {
                lemma_idx_injective(c, *coord);
            }
        }
    }

    /// Moves the piece on `from` to `to`, marking it as having moved.
    pub fn move_from(&mut self, from: &Coordinate, to: &Coordinate)
        requires
            old(self).wf(),
            on_board(*from),
            on_board(*to),
            old(self).piece_at(*from) is Some,
        ensures
            final(self).wf(),
            final(self).grid() == moved(old(self).grid(), *from, *to),
            final(self).turn == old(self).turn,
            final(self).round == old(self).round,
            final(self).move_info == old(self).move_info,
    {
        let from_square = self.square(from);
        let mut moving_piece = match from_square.piece {
            Some(p) => p,
            None => {
                assert(false);
                return;
            }
        };
        moving_piece.has_moved = true;

        self.remove_on(from);
        self.put_piece_on(to, moving_piece);
    }

    /// Copies of the pieces on the board, in grid order.
    pub fn pieces(&self) -> (ps: Vec<Piece>)
        requires
            self.wf(),
        ensures
            ps@ == all_pieces(self.grid()),
    {
        let mut ps: Vec<Piece> = Vec::new();
        let mut i: usize = 0;
        while i < 64
            invariant
                self.wf(),
                i <= 64,
                ps@ == pieces_upto(self.grid(), i as int),
            decreases 64 - i,
        {
            if let Some(piece) = self.squares[i].piece {
                ps.push(piece);
            }
            i += 1;
        }
        ps
    }

    /// The white pieces, in grid order.
    pub fn white_pieces(&self) -> (ps: Vec<Piece>)
        requires
            self.wf(),
        ensures
            ps@ == color_pieces(self.grid(), Color::White),
    {
        self.pieces_of(Color::White)
    }

    /// The black pieces, in grid order.
    pub fn black_pieces(&self) -> (ps: Vec<Piece>)
        requires
            self.wf(),
        ensures
            ps@ == color_pieces(self.grid(), Color::Black),
    {
        self.pieces_of(Color::Black)
    }

    fn pieces_of(&self, color: Color) -> (ps: Vec<Piece>)
        requires
            self.wf(),
        ensures
            ps@ == color_pieces(self.grid(), color),
    {
        let mut ps: Vec<Piece> = Vec::new();
        let mut i: usize = 0;
        while i < 64
            invariant
                self.wf(),
                i <= 64,
                ps@ == colored_upto(self.grid(), i as int, color),
            decreases 64 - i,
        {
            if let Some(piece) = self.squares[i].piece {
                if piece.color == color {
                    ps.push(piece);
                }
            }
            i += 1;
        }
        ps
    }

    /// The locations of the pieces on the board, in grid order.
    pub fn locations(&self) -> (ls: Vec<Coordinate>)
        requires
            self.wf(),
        ensures
            ls@ == locations_upto(self.grid(), 64),
    {
        let mut ls: Vec<Coordinate> = Vec::new();
        let mut i: usize = 0;
        while i < 64
            invariant
                self.wf(),
                i <= 64,
                ls@ == locations_upto(self.grid(), i as int),
            decreases 64 - i,
        {
            if self.squares[i].piece.is_some() {
                ls.push(self.squares[i].location);
            }
            i += 1;
        }
        ls
    }

    /// Places the starting pieces of every column: back-rank pieces on rows 0 and 7, pawns
    /// on rows 1 and 6.
    pub fn populate_starting_pos(&mut self)
        requires
            old(self).wf(),
        ensures
            final(self).wf(),
            forall|c: Coordinate| on_board(c) ==> #[trigger] final(self).piece_at(c) == (
                if starting_row(c.row as int) {
                    start_piece(c)
                } else {
                    old(self).piece_at(c)
                }),
            final(self).turn == old(self).turn,
            final(self).round == old(self).round,
            final(self).move_info == old(self).move_info,
    {
        //go through each column and put corresponding piece
        self.populate_column(0, PieceType::Rook);
        self.populate_column(7, PieceType::Rook);
        self.populate_column(1, PieceType::Knight);
        self.populate_column(6, PieceType::Knight);
        self.populate_column(2, PieceType::Bishop);
        self.populate_column(5, PieceType::Bishop);
        self.populate_column(3, PieceType::Queen);
        self.populate_column(4, PieceType::King);
    }

    /// Places a column's starting pieces: `ptype` on rows 0 (white) and 7 (black), pawns on
    /// rows 1 (white) and 6 (black).
    fn populate_column(&mut self, col: usize, ptype: PieceType)
        requires
            old(self).wf(),
            col < 8,
        ensures
            final(self).wf(),
            forall|c: Coordinate| on_board(c) ==> #[trigger] final(self).piece_at(c) == (
                if c.col == col && starting_row(c.row as int) {
                    Some(column_piece(c, ptype))
                } else {
                    old(self).piece_at(c)
                }),
            final(self).turn == old(self).turn,
            final(self).round == old(self).round,
            final(self).move_info == old(self).move_info,
    {
        //place non-pawns
        let c0 = Coordinate::new(col, 0);
        self.put_piece_on(&c0, Piece { color: Color::White, ptype, location: c0, has_moved: false });
        let c7 = Coordinate::new(col, 7);
        self.put_piece_on(&c7, Piece { color: Color::Black, ptype, location: c7, has_moved: false });

        //pawns
        let c1 = Coordinate::new(col, 1);
        self.put_piece_on(
            &c1,
            Piece { color: Color::White, ptype: PieceType::Pawn(0), location: c1, has_moved: false },
        );
        let c6 = Coordinate::new(col, 6);
        self.put_piece_on(
            &c6,
            Piece { color: Color::Black, ptype: PieceType::Pawn(0), location: c6, has_moved: false },
        );
        proof {
            assert forall|c: Coordinate| on_board(c) implies #[trigger] self.piece_at(c) == (
                if c.col == col && starting_row(c.row as int) {
                    Some(column_piece(c, ptype))
                } else {
                    old(self).piece_at(c)
                }) by {
                lemma_idx_injective(c, c0);
                lemma_idx_injective(c, c1);
                lemma_idx_injective(c, c6);
                lemma_idx_injective(c, c7);
            }
        }
    }

    /// The square at a coordinate, to change in place.
    pub fn mut_square(&mut self, coord: &Coordinate) -> (s: &mut Square)
        requires
            on_board(*coord),
            old(self).grid().len() == 64,
        ensures
            *s == old(self).grid()[idx(*coord)],
            final(self).grid() == old(self).grid().update(idx(*coord), *final(s)),
            final(self).turn == old(self).turn,
            final(self).round == old(self).round,
            final(self).move_info == old(self).move_info,
    {
        &mut self.squares[coord.col * 8 + coord.row]
    }

    /// A new board with the same pieces, turn and round, whose move information is
    /// generated afresh.
    #[verifier::rlimit(30)]
    pub fn duplicate(&self) -> (b: Self)
        requires
            self.wf(),
        ensures
            b.wf(),
            b.grid() == self.grid(),
            b.turn == self.turn,
            b.round == self.round,
            b.move_info.describes(b),
    {
        let mut new = Self::new();

        //go over the pieces and place them on the new board
        let mut i: usize = 0;
        while i < 64
            invariant
                self.wf(),
                new.wf(),
                i <= 64,
                forall|c: Coordinate| on_board(c) ==> #[trigger] new.piece_at(c) == (
                    if idx(c) < i { self.piece_at(c) } else { None }),
            decreases 64 - i,
        {
            proof {
                lemma_coord_at(i as int);
            }
            let ghost ci = coord_at(i as int);
            assert(square_ok(self.grid()[idx(ci)], ci));
            let ghost before = new;
            if let Some(piece) = self.squares[i].piece {
                let loc = piece.location;
                new.put_piece_on(&loc, piece);
                proof {
                    assert(loc == ci);
                    assert(placed(piece, loc) == piece);
                    assert forall|c: Coordinate| on_board(c) implies #[trigger] new.piece_at(c) == (
                        if idx(c) < i + 1 { self.piece_at(c) } else { None }) by {
                        lemma_idx_injective(c, ci);
                        if c != ci {
                            assert(new.piece_at(c) == before.piece_at(c));
                        }
                    }
                }
            } else {
                assert forall|c: Coordinate| on_board(c) implies #[trigger] new.piece_at(c) == (
                    if idx(c) < i + 1 { self.piece_at(c) } else { None }) by {
                    lemma_idx_injective(c, ci);
                }
            }
            i += 1;
        }
        proof {
            assert forall|c: Coordinate| on_board(c) implies #[trigger] new.grid()[idx(c)].piece
                == self.grid()[idx(c)].piece by {
                lemma_idx_injective(c, c);
                assert(new.piece_at(c) == self.piece_at(c));
            }
            lemma_grid_ext(new.grid(), self.grid());
        }

        //set other fields
        new.turn = self.turn;
        new.round = self.round;
        new.update();
        new
    }

    /// A crude drawing of the position: the column letters, then each row from the last to
    /// the first with its number and its squares.
    pub fn draw(&self) -> (s: String)
        requires
            self.wf(),
        ensures
            s@ == board_text(self.grid()),
    {
        let mut output = String::from_str("     a    b    c    d    e    f    g    h");

        //count rows down from the last
        let mut row: i32 = 7;
        while row >= 0
            invariant
                self.wf(),
                -1 <= row <= 7,
                output@ + rows_text(self.grid(), row as int) == board_text(self.grid()),
            decreases row + 1,
        {
            let ghost before = output@;
            //row number
            output.append("\n\n");
            push_decimal(&mut output, (row + 1) as usize);
            let mut col: usize = 0;
            while col < 8
                invariant
                    self.wf(),
                    0 <= row <= 7,
                    col <= 8,
                    output@ + cols_text(self.grid(), row as int, col as int) == before + "\n\n"@
                        + decimal((row + 1) as nat) + cols_text(self.grid(), row as int, 0),
                decreases 8 - col,
            {
                let ghost mid = output@;
                output.append(" | ");
                //get square, draw, convert to str
                let square = self.square(&Coordinate::new(col, row as usize)).draw();
                output.append(square.as_str());
                assert(output@ + cols_text(self.grid(), row as int, col as int + 1) =~= mid
                    + cols_text(self.grid(), row as int, col as int));
                col += 1;
            }
            assert(output@ =~= before + "\n\n"@ + decimal((row + 1) as nat) + cols_text(
                self.grid(),
                row as int,
                0,
            ));
            row -= 1;
        }
        output
    }

    /// The round it will be on the next turn.
    pub fn round_next_turn(&self) -> (r: i32)
        requires
            self.turn == Color::Black ==> self.round < i32::MAX,
        ensures
            r == (if self.turn == Color::White { self.round as int } else { self.round + 1 }),
    {
        match self.turn {
            Color::White => self.round,
            Color::Black => self.round + 1,
        }
    }
}


impl Default for Board {
    /// The starting position: White to play in round 1, nothing known of the moves.
    fn default() -> (b: Self)
        ensures
            b.wf(),
            forall|c: Coordinate| on_board(c) ==> #[trigger] b.piece_at(c) == start_piece(c),
            b.turn == Color::White,
            b.round == 1,
            b.move_info.empty(),
    {
        let mut new = Self::new();
        new.populate_starting_pos();
        new
    }
}

impl PartialEq for Board {
    /// Two boards are equal where it is the same player's turn and every square is the same.
    fn eq(&self, other: &Self) -> (r: bool) {
        if self.turn != other.turn || self.squares.len() != other.squares.len() {
            return false;
        }
        let mut i: usize = 0;
        while i < self.squares.len()
            invariant
                i <= self.squares@.len(),
                self.squares@.len() == other.squares@.len(),
                forall|j: int| 0 <= j < i ==> self.squares@[j] == other.squares@[j],
            decreases self.squares@.len() - i,
        {
            if self.squares[i] != other.squares[i] {
                return false;
            }
            i += 1;
        }
        assert(self.squares@ =~= other.squares@);
        true
    }
}

impl vstd::std_specs::cmp::PartialEqSpecImpl for Board {
    open spec fn obeys_eq_spec() -> bool {
        true
    }

    open spec fn eq_spec(&self, other: &Board) -> bool {
        self.turn == other.turn && self.grid() == other.grid()
    }
}

} // verus!
