//! Saved games: the record of a game, and the name of the file that
//! holds it.

use crate::board::Board;
use crate::fen::fen_text;
use crate::text::push_text;
use crate::utils::Move;
use vstd::prelude::*;

verus! {

/// The end of the name of a file that holds a saved game.
pub const SAVE_SUFFIX: &'static str = ".json";

/// A saved game.
pub struct SavedGame {
    /// Name of the player who saved it.
    pub username: String,
    /// The position.
    pub fen: String,
    /// The moves played, as text.
    pub moves: Vec<String>,
    /// When it was saved, in seconds since 1970.
    pub timestamp: String,
    /// Who plays White.
    pub white_player: String,
    /// Who plays Black.
    pub black_player: String,
}

/// The texts of the first `n` moves.
pub open spec fn move_texts(moves: Seq<Move>, n: int) -> Seq<Seq<char>>
    decreases n,
{
    if n <= 0 {
        Seq::<Seq<char>>::empty()
    } else {
        move_texts(moves, n - 1).push(moves[n - 1].spec_to_string())
    }
}

/// The texts that a list of strings holds.
pub open spec fn texts_of(strings: Seq<String>) -> Seq<Seq<char>> {
    Seq::new(strings.len(), |i: int| strings[i]@)
}

/// Name of the file of a game: the player, `_`, the time and `.json`.
pub open spec fn file_name_text(username: Seq<char>, timestamp: Seq<char>) -> Seq<char> {
    username.push('_') + timestamp + SAVE_SUFFIX@
}

/// `s` begins with `start`.
pub open spec fn begins_with(s: Seq<char>, start: Seq<char>) -> bool {
    start.len() <= s.len() && s.subrange(0, start.len() as int) =~= start
}

/// `s` ends with `end`.
pub open spec fn ends_with(s: Seq<char>, end: Seq<char>) -> bool {
    end.len() <= s.len() && s.subrange(s.len() - end.len(), s.len() as int) =~= end
}

/// Whether `part` lies in `s` at index `at`.
pub fn lies_in(s: &str, at: usize, part: &str) -> (r: bool)
    ensures
        r == (at + part@.len() <= s@.len() && s@.subrange(at as int, at + part@.len()) =~= part@),
{
    let n = s.unicode_len();
    let k = part.unicode_len();
    if at > n || k > n - at {
        return false;
    }
    let mut i: usize = 0;
    while i < k
        invariant
            i <= k,
            k == part@.len(),
            n == s@.len(),
            at + k <= n,
            forall|j: int| 0 <= j < i ==> s@[at + j] == part@[j],
        decreases k - i,
    {
        if s.get_char(at + i) != part.get_char(i) {
            return false;
        }
        i += 1;
    }
    true
}

/// Whether a file name is that of a saved game of the player: it begins
/// with the player's name and ends with `.json`.
pub fn is_save_of(file_name: &str, username: &str) -> (r: bool)
    ensures
        r == (begins_with(file_name@, username@) && ends_with(file_name@, SAVE_SUFFIX@)),
{
    if !lies_in(file_name, 0, username) {
        return false;
    }
    let n = file_name.unicode_len();
    let k = SAVE_SUFFIX.unicode_len();
    if k > n {
        return false;
    }
    lies_in(file_name, n - k, SAVE_SUFFIX)
}

impl SavedGame {
    /// The record of a game: the position as text, the moves as text, and
    /// the time at which it is saved.
    pub fn new(
        username: String,
        board: &Board,
        moves: &Vec<Move>,
        white: String,
        black: String,
        timestamp: String,
    ) -> (game: SavedGame)
        ensures
            game.username == username,
            game.fen@ == fen_text(board@),
            texts_of(game.moves@) == move_texts(moves@, moves@.len() as int),
            game.timestamp == timestamp,
            game.white_player == white,
            game.black_player == black,
    {
        let mut texts: Vec<String> = Vec::new();
        let mut i: usize = 0;
        while i < moves.len()
            invariant
                i <= moves.len(),
                texts_of(texts@) == move_texts(moves@, i as int),
            decreases moves.len() - i,
        {
            let text = moves[i].to_string();
            texts.push(text);
            i += 1;
        }
        SavedGame {
            username,
            fen: board.to_fen(),
            moves: texts,
            timestamp,
            white_player: white,
            black_player: black,
        }
    }

    /// Name of the file that holds the game.
    pub fn file_name(&self) -> (name: String)
        ensures
            name@ == file_name_text(self.username@, self.timestamp@),
    {
        let mut name = self.username.clone();
        name.push('_');
        push_text(&mut name, self.timestamp.as_str());
        push_text(&mut name, SAVE_SUFFIX);
        name
    }
}

} // verus!
