//! Errors of the mesh and dictionary readers.

use crate::text;
use vstd::prelude::*;

verus! {

/// What went wrong while reading or writing a case.
#[derive(Debug)]
pub enum MeshError {
    /// An input or output operation failed, with the system's message.
    Io(String),
    /// A line of a file does not have the expected form.
    Parse { line: usize, message: String },
    /// The input as a whole cannot be used.
    InvalidInput(String),
}

/// The mathematical view of a [`MeshError`].
pub enum Failure {
    Io(Seq<char>),
    Parse { line: nat, message: Seq<char> },
    InvalidInput(Seq<char>),
}

impl View for MeshError {
    type V = Failure;

    open spec fn view(&self) -> Failure {
        match self {
            MeshError::Io(message) => Failure::Io(message@),
            MeshError::Parse { line, message } => Failure::Parse {
                line: *line as nat,
                message: message@,
            },
            MeshError::InvalidInput(message) => Failure::InvalidInput(message@),
        }
    }
}

/// The text that is shown for a failure.
pub open spec fn failure_text(failure: Failure) -> Seq<char> {
    match failure {
        Failure::Io(message) => message,
        Failure::Parse { line, message } => "line "@ + text::decimal(line) + ": "@ + message,
        Failure::InvalidInput(message) => message,
    }
}

impl MeshError {
    /// The text that is shown for the error.
    pub fn to_string(&self) -> (text: String)
        ensures
            text@ == failure_text(self@),
    {
        match self {
            MeshError::Io(message) => message.clone(),
            MeshError::Parse { line, message } => {
                let mut text = "line ".to_string();
                text.append(text::number_text(*line).as_str());
                text.append(": ");
                text.append(message.as_str());
                text
            },
            MeshError::InvalidInput(message) => message.clone(),
        }
    }
}

} // verus!
