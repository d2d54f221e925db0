//! The errors that end a listing.

use crate::text::{decimal, push_decimal};
use vstd::prelude::*;

verus! {

/// Why a listing could not be written.
#[derive(Clone, Copy, Debug, PartialEq, Eq, Structural)]
pub enum ListError {
    /// The width of the terminal is not known, so that no grid can be laid
    /// out.
    TerminalWidth,
    /// The metadata of the entry at this index could not be fetched, so that
    /// its row of the table cannot be written.
    Metadata(usize),
}

/// The message of an error.
pub open spec fn error_text(error: ListError) -> Seq<char> {
    match error {
        ListError::TerminalWidth => "Failed to get terminal width."@,
        ListError::Metadata(index) => "Failed to get the metadata of entry "@ + decimal(
            index as nat,
        ) + "."@,
    }
}

impl ListError {
    /// The message of the error.
    pub fn message(&self) -> (text: String)
        ensures
            text@ == error_text(*self),
    {
        match self {
            ListError::TerminalWidth => String::from_str("Failed to get terminal width."),
            ListError::Metadata(index) => {
                let mut text = String::from_str("Failed to get the metadata of entry ");
                push_decimal(&mut text, *index as u64);
                text.append(".");
                text
            },
        }
    }
}

} // verus!
