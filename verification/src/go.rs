//! Reading the UCI `go` command.
use vstd::prelude::*;
use crate::board::{Board, Position};
use crate::movement::Action;
use crate::text::{char_vec, chars_equal, parse_i32, parse_i32_chars, split_words, string_push, views, words};
use crate::uci::{action_parse_result, castle_parse_result, move_parse_panics, safe_parse_action};

verus! {

/// What ends a search.
#[derive(Debug, Clone, Copy, PartialEq, Eq, Structural)]
pub enum SearchCutoff {
    /// Only the time limit applies.
    Infinite,
    Mate(i32),
    Nodes(i32),
    Depth(i32),
}

/// A `go` command: what ends the search, and the moves the search is restricted to.
pub struct Go {
    pub cutoff: SearchCutoff,
    pub searchmoves: Vec<Action>,
    pub movestogo: Option<i32>,
}

/// Reads the cutoff from word `i` on, with the last unit word seen: "infinite" sets an
/// infinite cutoff; "depth", "nodes" and "mate" set the unit; a number after a unit sets
/// that cutoff and ends reading; anything else is skipped. The result is the cutoff and the
/// index of the first word not read.
pub open spec fn read_cutoff(ws: Seq<Seq<char>>, i: int, cutoff: SearchCutoff, unit: Seq<char>) -> (
    SearchCutoff,
    int,
)
    decreases ws.len() - i,
{
    if i < 0 || i >= ws.len() {
        (cutoff, i)
    } else {
        let w = ws[i];
        if w == "infinite"@ {
            read_cutoff(ws, i + 1, SearchCutoff::Infinite, unit)
        } else if w == "depth"@ || w == "nodes"@ || w == "mate"@ {
            read_cutoff(ws, i + 1, cutoff, w)
        } else {
            match parse_i32(w) {
                Some(num) => if unit == "depth"@ {
                    (SearchCutoff::Depth(num), i + 1)
                } else if unit == "nodes"@ {
                    (SearchCutoff::Nodes(num), i + 1)
                } else if unit == "mate"@ {
                    (SearchCutoff::Mate(num), i + 1)
                } else {
                    read_cutoff(ws, i + 1, cutoff, unit)
                },
                None => read_cutoff(ws, i + 1, cutoff, unit),
            }
        }
    }
}

/// The cutoff of a `go` command's arguments, and the index of the first word after it.
pub open spec fn go_cutoff(s: Seq<char>) -> (SearchCutoff, int) {
    read_cutoff(words(s), 0, SearchCutoff::Infinite, Seq::empty())
}

/// Reading a `go` command panics where "searchmoves" follows the cutoff and one of the
/// words after it is not a legal castle and panics when read as a move.
pub open spec fn go_panics(s: Seq<char>, b: crate::board::Position) -> bool {
    let ws = words(s);
    let next = go_cutoff(s).1;
    &&& 0 <= next < ws.len()
    &&& ws[next] == "searchmoves"@
    &&& exists|j: int|
        next < j < ws.len() && castle_parse_result(#[trigger] ws[j], b) is Err && move_parse_panics(
            ws[j],
            b,
        )
}

/// Whether a word is one of the three unit words.
fn is_unit(w: &Vec<char>) -> (b: bool)
    ensures
        b == (w@ == "depth"@ || w@ == "nodes"@ || w@ == "mate"@),
{
    chars_equal(w, "depth") || chars_equal(w, "nodes") || chars_equal(w, "mate")
}

/// A string holding some characters.
fn string_of(w: &Vec<char>) -> (s: String)
    ensures
        s@ == w@,
{
    let mut s = String::new();
    let mut i: usize = 0;
    while i < w.len()
        invariant
            i <= w@.len(),
            s@ == w@.take(i as int),
        decreases w@.len() - i,
    {
        string_push(&mut s, w[i]);
        i += 1;
        assert(s@ =~= w@.take(i as int));
    }
    assert(w@.take(w@.len() as int) =~= w@);
    s
}

/// Reads the cutoff from the words: see `read_cutoff`.
fn cutoff_of(words_vec: &Vec<Vec<char>>) -> (r: (SearchCutoff, usize))
    ensures
        read_cutoff(views(words_vec@), 0, SearchCutoff::Infinite, Seq::empty()) == (
            r.0,
            r.1 as int,
        ),
        r.1 <= words_vec@.len(),
{
    let ghost ws = views(words_vec@);
    let n = words_vec.len();
    let mut cutoff = SearchCutoff::Infinite;
    let mut unit: Vec<char> = Vec::new();
    let mut i: usize = 0;
    assert(unit@ =~= Seq::<char>::empty());
    while i < n
        invariant_except_break
            read_cutoff(ws, i as int, cutoff, unit@) == read_cutoff(
                ws,
                0,
                SearchCutoff::Infinite,
                Seq::empty(),
            ),
        invariant
            n == ws.len(),
            ws == views(words_vec@),
            i <= n,
        ensures
            read_cutoff(ws, 0, SearchCutoff::Infinite, Seq::empty()) == (cutoff, i as int),
            i <= n,
        decreases n - i,
    {
        let word = &words_vec[i];
        assert(word@ == ws[i as int]);
        if chars_equal(word, "infinite") {
            cutoff = SearchCutoff::Infinite;
        } else if is_unit(word) {
            unit = word.clone();
            assert(unit@ == word@);
        } else if let Some(num) = parse_i32_chars(word) {
            if chars_equal(&unit, "depth") {
                cutoff = SearchCutoff::Depth(num);
                i += 1;
                break ;
            } else if chars_equal(&unit, "nodes") {
                cutoff = SearchCutoff::Nodes(num);
                i += 1;
                break ;
            } else if chars_equal(&unit, "mate") {
                cutoff = SearchCutoff::Mate(num);
                i += 1;
                break ;
            }
        }
        i += 1;
    }
    (cutoff, i)
}

/// The actions that some words read as on a board, in order; a word that reads as
/// nothing is skipped.
pub open spec fn parsed_actions(ws: Seq<Seq<char>>, b: Position) -> Seq<Action>
    decreases ws.len(),
{
    if ws.len() == 0 {
        Seq::empty()
    } else {
        let rest = parsed_actions(ws.drop_last(), b);
        match action_parse_result(ws.last(), b) {
            Ok(a) => rest.push(a),
            Err(_) => rest,
        }
    }
}

/// Reads the words after "searchmoves" against the board, keeping those that read as a
/// legal castle or a move.
fn read_searchmoves(words_vec: &Vec<Vec<char>>, i: usize, board: &mut Board) -> (moves: Vec<Action>)
    requires
        old(board).wf(),
        i < words_vec@.len(),
        forall|k: int| 0 <= k < words_vec@.len() ==> words_vec@[k]@.len() > 0,
        !(exists|j: int|
            i < j < words_vec@.len() && castle_parse_result(
                #[trigger] views(words_vec@)[j],
                old(board).pos(),
            ) is Err && move_parse_panics(views(words_vec@)[j], old(board).pos())),
    ensures
        *final(board) == *old(board),
        moves@ == parsed_actions(
            views(words_vec@).subrange(i + 1, words_vec@.len() as int),
            old(board).pos(),
        ),
{
    let ghost ws = views(words_vec@);
    let ghost b0 = *board;
    let mut searchmoves: Vec<Action> = Vec::new();
    let n = words_vec.len();
    let mut j = i + 1;
    while j < n
        invariant
            n == words_vec@.len(),
            ws == views(words_vec@),
            i < j <= n,
            forall|k: int| 0 <= k < words_vec@.len() ==> words_vec@[k]@.len() > 0,
            !(exists|j: int|
                i < j < words_vec@.len() && castle_parse_result(#[trigger] ws[j], b0.pos()) is Err
                    && move_parse_panics(ws[j], b0.pos())),
            *board == b0,
            board.wf(),
            searchmoves@ == parsed_actions(ws.subrange(i + 1, j as int), b0.pos()),
        decreases n - j,
    {
        let word = string_of(&words_vec[j]);
        assert(word@ == ws[j as int]);
        assert(ws.subrange(i + 1, j + 1).drop_last() == ws.subrange(i + 1, j as int));
        assert(ws.subrange(i + 1, j + 1).last() == ws[j as int]);
        if let Ok(action) = safe_parse_action(word, board) {
            searchmoves.push(action);
        }
        j += 1;
    }
    searchmoves
}

impl Go {
    /// Reads a `go` command's arguments: the cutoff, then nothing more. A "searchmoves"
    /// list after the cutoff is read against the board, but the command is then refused,
    /// as it is where any other word follows the cutoff.
    pub fn parse(command: String, board: &mut Board) -> (r: Result<Self, ()>)
        requires
            old(board).wf(),
            !go_panics(command@, old(board).pos()),
        ensures
            *final(board) == *old(board),
            (r is Ok) == (go_cutoff(command@).1 >= words(command@).len()),
            r matches Ok(g) ==> {
                &&& g.cutoff == go_cutoff(command@).0
                &&& g.searchmoves@.len() == 0
                &&& g.movestogo is None
            },
    {
        let chars = char_vec(&command);
        let words_vec = split_words(&chars);
        let ghost ws = words(command@);
        assert(views(words_vec@) == ws);

        //find cutoff
        let (cutoff, i) = cutoff_of(&words_vec);

        //find searchmoves
        if i < words_vec.len() {
            if chars_equal(&words_vec[i], "searchmoves") {
                assert forall|k: int| 0 <= k < words_vec@.len() implies words_vec@[k]@.len() > 0 by {
                    assert(words_vec@[k]@ == ws[k]);
                    crate::text::lemma_words_nonempty_words(command@, k);
                }
                let _searchmoves = read_searchmoves(&words_vec, i, board);
            }
            return Err(());
        }
        Ok(Self { cutoff, searchmoves: Vec::new(), movestogo: None })
    }
}

} // verus!

verus! {

/// Whether `Go::parse` would panic on a command: see `go_panics`.
pub fn go_would_panic(command: &String, board: &Board) -> (b: bool)
    requires
        board.wf(),
    ensures
        b == go_panics(command@, board.pos()),
{
    let chars = char_vec(command);
    let words_vec = split_words(&chars);
    let ghost ws = words(command@);
    assert(views(words_vec@) == ws);
    let (_cutoff, i) = cutoff_of(&words_vec);
    if i >= words_vec.len() || !chars_equal(&words_vec[i], "searchmoves") {
        return false;
    }
    let n = words_vec.len();
    let mut j = i + 1;
    while j < n
        invariant
            n == ws.len(),
            ws == views(words_vec@),
            ws == words(command@),
            i < j <= n,
            go_cutoff(command@).1 == i as int,
            ws[i as int] == "searchmoves"@,
            board.wf(),
            forall|k: int|
                i < k < j ==> !(castle_parse_result(#[trigger] ws[k], board.pos()) is Err
                    && move_parse_panics(ws[k], board.pos())),
        decreases n - j,
    {
        let word = string_of(&words_vec[j]);
        assert(word@ == ws[j as int]);
        proof {
            crate::text::lemma_words_nonempty_words(command@, j as int);
        }
        if crate::uci::safe_parse_would_panic(&word, board) {
            assert(castle_parse_result(ws[j as int], board.pos()) is Err);
            return true;
        }
        j += 1;
    }
    false
}

} // verus!
