//! The engine's UCI conversation: which command a line of input gives.
use vstd::prelude::*;
use crate::text::{
    byte_len, char_vec, char_width, chars_equal, lemma_byte_len_bounds, lemma_byte_len_push,
    lemma_byte_len_take, split_words, string_push, views, width_of, words,
};

verus! {

/// Options of the engine (there are none yet).
pub struct EngineOptions {}

impl EngineOptions {
    pub fn new() -> (o: Self) {
        Self {}
    }
}

/// A command of the UCI conversation, with what the engine needs of its arguments.
#[derive(Debug)]
pub enum UciCommand {
    /// The line holds no word.
    Empty,
    Quit,
    Uci,
    UciNewGame,
    IsReady,
    SetOption,
    /// Set up a position; the text after the command word.
    Position(String),
    /// Search and play; the text after the command word.
    Go(String),
    PonderHit,
    Stop,
    /// Draw the board.
    Display,
    /// A command that is not implemented: the command word.
    Unknown(String),
}

/// Where the text after the command word starts: the character position whose bytes
/// before it number one more than the command word's.
pub open spec fn tail_start(s: Seq<char>, cmd: Seq<char>) -> Option<int> {
    if exists|m: int| 0 <= m <= s.len() && byte_len(#[trigger] s.take(m)) == byte_len(cmd) + 1 {
        Some(choose|m: int| 0 <= m <= s.len() && byte_len(#[trigger] s.take(m)) == byte_len(cmd) + 1)
    } else {
        None
    }
}

/// Reading a line panics where it has a word but no character position lies one byte past
/// the length of the first word (the line is that short, or a character spans the spot).
pub open spec fn uci_line_panics(s: Seq<char>) -> bool {
    words(s).len() > 0 && tail_start(s, words(s)[0]) is None
}

/// What the command that a line gives is: its first word names it, and the text after it
/// is where the command's bytes end plus one.
pub open spec fn command_matches(c: UciCommand, s: Seq<char>) -> bool {
    if words(s).len() == 0 {
        c is Empty
    } else {
        let cmd = words(s)[0];
        let tail = s.skip(tail_start(s, cmd).unwrap());
        if cmd == "quit"@ {
            c is Quit
        } else if cmd == "uci"@ {
            c is Uci
        } else if cmd == "ucinewgame"@ {
            c is UciNewGame
        } else if cmd == "isready"@ {
            c is IsReady
        } else if cmd == "setoption"@ {
            c is SetOption
        } else if cmd == "position"@ {
            c matches UciCommand::Position(t) && t@ == tail
        } else if cmd == "go"@ {
            c matches UciCommand::Go(t) && t@ == tail
        } else if cmd == "ponderhit"@ {
            c is PonderHit
        } else if cmd == "stop"@ {
            c is Stop
        } else if cmd == "d"@ {
            c is Display
        } else {
            c matches UciCommand::Unknown(w) && w@ == cmd
        }
    }
}

/// A string holding the characters of a vector from position `from` on.
fn string_from(v: &Vec<char>, from: usize) -> (s: String)
    requires
        from <= v@.len(),
    ensures
        s@ == v@.skip(from as int),
{
    let mut s = String::new();
    let mut i: usize = from;
    while i < v.len()
        invariant
            from <= i <= v@.len(),
            s@ == v@.subrange(from as int, i as int),
        decreases v@.len() - i,
    {
        string_push(&mut s, v[i]);
        i += 1;
        assert(s@ =~= v@.subrange(from as int, i as int));
    }
    assert(v@.subrange(from as int, v@.len() as int) =~= v@.skip(from as int));
    s
}

/// The number of bytes that encode some characters.
fn bytes_of(v: &Vec<char>) -> (n: usize)
    requires
        v@.len() <= usize::MAX / 8,
    ensures
        n == byte_len(v@),
{
    let mut n: usize = 0;
    let mut i: usize = 0;
    while i < v.len()
        invariant
            i <= v@.len(),
            v@.len() <= usize::MAX / 8,
            n == byte_len(v@.take(i as int)),
        decreases v@.len() - i,
    {
        proof {
            lemma_byte_len_bounds(v@.take(i as int));
            assert(v@.take(i as int + 1) =~= v@.take(i as int).push(v@[i as int]));
            lemma_byte_len_push(v@.take(i as int), v@[i as int]);
        }
        n = n + width_of(v[i]);
        i += 1;
    }
    assert(v@.take(v@.len() as int) =~= v@);
    n
}

/// Which command a line of input gives: its first word names it; the position and go
/// commands carry the text after the command word (which starts one byte after the
/// command word's length, counted from the start of the line).
pub fn interpret_uci(input: &String) -> (c: UciCommand)
    requires
        !uci_line_panics(input@),
        input@.len() <= usize::MAX / 8,
    ensures
        command_matches(c, input@),
{
    let ghost s = input@;
    let chars = char_vec(input);
    let words_vec = split_words(&chars);
    assert(views(words_vec@) == words(s));

    //get command
    if words_vec.len() == 0 {
        return UciCommand::Empty;
    }
    let command = &words_vec[0];
    assert(command@ == words(s)[0]);
    proof {
        crate::text::lemma_words_len(s, 0);
        lemma_byte_len_bounds(command@);
    }
    let wanted = bytes_of(command) + 1;

    //find where the text after the command starts
    let mut acc: usize = 0;
    let mut m: usize = 0;
    while m < chars.len() && acc < wanted
        invariant
            chars@ == s,
            s.len() <= usize::MAX / 8,
            m <= s.len(),
            acc == byte_len(s.take(m as int)),
            wanted == byte_len(command@) + 1,
            forall|j: int| 0 <= j < m ==> byte_len(#[trigger] s.take(j)) < wanted,
        decreases s.len() - m,
    {
        proof {
            lemma_byte_len_bounds(s.take(m as int));
            assert(s.take(m as int + 1) =~= s.take(m as int).push(s[m as int]));
            lemma_byte_len_push(s.take(m as int), s[m as int]);
        }
        acc = acc + width_of(chars[m]);
        m += 1;
    }
    proof {
        if acc != wanted {
            //no position splits the line there
            assert forall|j: int| 0 <= j <= s.len() implies byte_len(#[trigger] s.take(j))
                != wanted by {
                if j > m {
                    lemma_byte_len_take(s, m as int, j);
                } else if j == m {
                    if m == s.len() {
                        assert(s.take(m as int) =~= s);
                    }
                }
            }
            assert(false);
        }
        assert(byte_len(s.take(m as int)) == wanted);
        assert forall|j: int| 0 <= j <= s.len() && byte_len(#[trigger] s.take(j)) == wanted
            implies j == m by {
            if j > m {
                lemma_byte_len_take(s, m as int, j);
            } else if j < m {
                lemma_byte_len_take(s, j, m as int);
            }
        }
        assert(0 <= m <= s.len() && byte_len(s.take(m as int)) == byte_len(command@) + 1);
        assert(tail_start(s, command@) == Some(m as int));
    }
    let tail = string_from(&chars, m);

    //main decision tree
    if chars_equal(command, "quit") {
        UciCommand::Quit
    } else if chars_equal(command, "uci") {
        UciCommand::Uci
    } else if chars_equal(command, "ucinewgame") {
        UciCommand::UciNewGame
    } else if chars_equal(command, "isready") {
        UciCommand::IsReady
    } else if chars_equal(command, "setoption") {
        UciCommand::SetOption
    } else if chars_equal(command, "position") {
        UciCommand::Position(tail)
    } else if chars_equal(command, "go") {
        UciCommand::Go(tail)
    } else if chars_equal(command, "ponderhit") {
        UciCommand::PonderHit
    } else if chars_equal(command, "stop") {
        UciCommand::Stop
    } else if chars_equal(command, "d") {
        UciCommand::Display
    } else {
        let w = string_from(command, 0);
        assert(w@ =~= command@);
        UciCommand::Unknown(w)
    }
}

} // verus!

verus! {

/// Whether `interpret_uci` would panic on a line: see `uci_line_panics`.
pub fn uci_line_would_panic(input: &String) -> (b: bool)
    requires
        input@.len() <= usize::MAX / 8,
    ensures
        b == uci_line_panics(input@),
{
    let ghost s = input@;
    let chars = char_vec(input);
    let words_vec = split_words(&chars);
    assert(views(words_vec@) == words(s));
    if words_vec.len() == 0 {
        return false;
    }
    let command = &words_vec[0];
    assert(command@ == words(s)[0]);
    proof {
        crate::text::lemma_words_len(s, 0);
        lemma_byte_len_bounds(command@);
    }
    let wanted = bytes_of(command) + 1;
    let mut acc: usize = 0;
    let mut m: usize = 0;
    while m < chars.len() && acc < wanted
        invariant
            chars@ == s,
            s.len() <= usize::MAX / 8,
            m <= s.len(),
            acc == byte_len(s.take(m as int)),
            wanted == byte_len(command@) + 1,
            forall|j: int| 0 <= j < m ==> byte_len(#[trigger] s.take(j)) < wanted,
        decreases s.len() - m,
    {
        proof {
            lemma_byte_len_bounds(s.take(m as int));
            assert(s.take(m as int + 1) =~= s.take(m as int).push(s[m as int]));
            lemma_byte_len_push(s.take(m as int), s[m as int]);
        }
        acc = acc + width_of(chars[m]);
        m += 1;
    }
    if acc != wanted {
        assert forall|j: int| 0 <= j <= s.len() implies byte_len(#[trigger] s.take(j)) != wanted by {
            if j > m {
                lemma_byte_len_take(s, m as int, j);
            } else if j == m {
                if m == s.len() {
                    assert(s.take(m as int) =~= s);
                }
            }
        }
        true
    } else {
        assert(0 <= m <= s.len() && byte_len(s.take(m as int)) == byte_len(command@) + 1);
        false
    }
}

} // verus!
