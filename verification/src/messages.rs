//! The words in which a parse error is reported.

use crate::fen::FenParseError;
use vstd::prelude::*;

verus! {

impl FenParseError {
    /// The words of the error; the character that was refused follows
    /// where there is one.
    pub open spec fn spec_message(self) -> Seq<char> {
        match self {
            FenParseError::Empty => "Empty FEN string"@,
            FenParseError::RankCount => "Invalid number of ranks"@,
            FenParseError::InvalidPiece(c) => "Invalid piece: "@.push(c),
            FenParseError::TooManyPieces => "Too many pieces in rank"@,
            FenParseError::RankLength => "Invalid number of squares in rank"@,
            FenParseError::InvalidSide => "Invalid side to move"@,
            FenParseError::InvalidCastling(c) => "Invalid castling right: "@.push(c),
            FenParseError::InvalidEnPassant => "Invalid en-passant square"@,
            FenParseError::Overflow => "Clock out of range"@,
        }
    }

    /// The words of the error.
    pub fn message(&self) -> (text: String)
        ensures
            text@ == self.spec_message(),
    {
        match self {
            FenParseError::Empty => String::from_str("Empty FEN string"),
            FenParseError::RankCount => String::from_str("Invalid number of ranks"),
            FenParseError::InvalidPiece(c) => {
                let mut text = String::from_str("Invalid piece: ");
                text.push(*c);
                text
            },
            FenParseError::TooManyPieces => String::from_str("Too many pieces in rank"),
            FenParseError::RankLength => String::from_str("Invalid number of squares in rank"),
            FenParseError::InvalidSide => String::from_str("Invalid side to move"),
            FenParseError::InvalidCastling(c) => {
                let mut text = String::from_str("Invalid castling right: ");
                text.push(*c);
                text
            },
            FenParseError::InvalidEnPassant => String::from_str("Invalid en-passant square"),
            FenParseError::Overflow => String::from_str("Clock out of range"),
        }
    }
}

} // verus!
