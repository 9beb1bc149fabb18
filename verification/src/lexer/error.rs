//! What the tokenizer refuses.

use vstd::prelude::*;

verus! {

#[derive(Debug, PartialEq, Eq, Clone, Copy, Structural)]
pub enum LexerError {
    /// A character that is neither alphanumeric nor one of the separators.
    IllegalCharacterError(char),
    /// The text was empty.
    EmptyProgramError,
}

/// The message of an error.
pub open spec fn message_spec(error: LexerError) -> Seq<char> {
    match error {
        LexerError::IllegalCharacterError(c) => "Illegal Character Error: character '"@.push(c)
            + "' is an illegal character"@,
        LexerError::EmptyProgramError => "Empty Program Error : the provided program is empty"@,
    }
}

impl LexerError {
    /// The message of the error, for a reader.
    pub fn message(&self) -> (r: String)
        ensures
            r@ == message_spec(*self),
    {
        match self {
            LexerError::IllegalCharacterError(c) => {
                let mut text = "Illegal Character Error: character '".to_owned();
                text.push(*c);
                text.append("' is an illegal character");
                text
            },
            LexerError::EmptyProgramError => {
                "Empty Program Error : the provided program is empty".to_owned()
            },
        }
    }
}

} // verus!
