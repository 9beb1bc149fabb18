//! What evaluation fails with.

use vstd::prelude::*;
use crate::text::{quote, quoted};

verus! {

#[derive(Debug, PartialEq)]
pub enum InterpreterError {
    /// A value of one kind stood where another kind was needed.
    TypeError { wanted_type: String, given_type: String },
    /// A variable that nothing binds.
    NameError { name: String },
}

/// The mathematical model of an error: its texts as sequences of characters.
pub enum Failure {
    TypeError { wanted_type: Seq<char>, given_type: Seq<char> },
    NameError { name: Seq<char> },
}

impl View for InterpreterError {
    type V = Failure;

    open spec fn view(&self) -> Failure {
        match self {
            InterpreterError::TypeError { wanted_type, given_type } => Failure::TypeError {
                wanted_type: wanted_type@,
                given_type: given_type@,
            },
            InterpreterError::NameError { name } => Failure::NameError { name: name@ },
        }
    }
}

impl Clone for InterpreterError {
    fn clone(&self) -> (r: Self)
        ensures
            r == *self,
    {
        match self {
            InterpreterError::TypeError { wanted_type, given_type } => {
                InterpreterError::TypeError {
                    wanted_type: wanted_type.clone(),
                    given_type: given_type.clone(),
                }
            },
            InterpreterError::NameError { name } => InterpreterError::NameError {
                name: name.clone(),
            },
        }
    }
}

impl InterpreterError {
    pub fn new_type_error(wanted_type: &str, given_type: &str) -> (r: Self)
        ensures
            r@ == (Failure::TypeError { wanted_type: wanted_type@, given_type: given_type@ }),
    {
        Self::TypeError { wanted_type: wanted_type.to_owned(), given_type: given_type.to_owned() }
    }

    pub fn new_name_error(name: &str) -> (r: Self)
        ensures
            r@ == (Failure::NameError { name: name@ }),
    {
        Self::NameError { name: name.to_owned() }
    }
}

/// The message of an error.
pub open spec fn message_spec(failure: Failure) -> Seq<char> {
    match failure {
        Failure::TypeError { wanted_type, given_type } => "TypeError: type needed : "@
            + wanted_type + ", bot got type "@ + given_type,
        Failure::NameError { name } => "Unknown name "@ + quoted(name)
            + " : this name cannot be bound to a value because it is unknown"@,
    }
}

impl InterpreterError {
    /// The message of the error, for a reader.
    pub fn message(&self) -> (r: String)
        ensures
            r@ == message_spec(self@),
    {
        match self {
            InterpreterError::TypeError { wanted_type, given_type } => {
                let mut text = "TypeError: type needed : ".to_owned();
                text.append(wanted_type.as_str());
                text.append(", bot got type ");
                text.append(given_type.as_str());
                text
            },
            InterpreterError::NameError { name } => {
                let mut text = "Unknown name ".to_owned();
                text.append(quote(name.as_str()).as_str());
                text.append(" : this name cannot be bound to a value because it is unknown");
                text
            },
        }
    }
}

} // verus!
