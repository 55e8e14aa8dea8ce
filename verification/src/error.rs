//! The ways a run can fail. Every one of them ends the run.

use vstd::prelude::*;
use vstd::string::*;

use crate::text::{decimal, decimal_text};

verus! {

/// Why a run was given up.
#[derive(Debug, PartialEq, Eq)]
pub enum ContextError {
    /// The directory at this path could not be listed.
    DirectoryUnreadable(String),
    /// The file at this path could not be read.
    FileUnreadable(String),
    /// The file at this path does not hold valid UTF-8 text.
    InvalidEncoding(String),
    /// This token ceiling gives no budget that a `u64` can hold.
    InvalidBudgetValue(u64),
}

/// A [`ContextError`] with its texts as character sequences.
pub enum ErrorModel {
    DirectoryUnreadable(Seq<char>),
    FileUnreadable(Seq<char>),
    InvalidEncoding(Seq<char>),
    InvalidBudgetValue(u64),
}

impl View for ContextError {
    type V = ErrorModel;

    open spec fn view(&self) -> ErrorModel {
        match self {
            ContextError::DirectoryUnreadable(path) => ErrorModel::DirectoryUnreadable(path@),
            ContextError::FileUnreadable(path) => ErrorModel::FileUnreadable(path@),
            ContextError::InvalidEncoding(path) => ErrorModel::InvalidEncoding(path@),
            ContextError::InvalidBudgetValue(tokens) => ErrorModel::InvalidBudgetValue(*tokens),
        }
    }
}

/// The message that tells a user of `error`: it names the operation that
/// failed and the path or value it failed on.
pub open spec fn message(error: ErrorModel) -> Seq<char> {
    match error {
        ErrorModel::DirectoryUnreadable(path) => "Error accessing path: "@ + path,
        ErrorModel::FileUnreadable(path) => "Error processing "@ + path
            + ": the file could not be read"@,
        ErrorModel::InvalidEncoding(path) => "Error processing "@ + path
            + ": the file is not valid UTF-8"@,
        ErrorModel::InvalidBudgetValue(tokens) => "Invalid max_tokens: "@ + decimal(tokens as nat),
    }
}

impl ContextError {
    /// The message for the user.
    pub fn describe(&self) -> (text: String)
        ensures
            text@ == message(self@),
    {
        match self {
            ContextError::DirectoryUnreadable(path) => {
                let mut text = String::from_str("Error accessing path: ");
                text.append(path.as_str());
                text
            },
            ContextError::FileUnreadable(path) => {
                let mut text = String::from_str("Error processing ");
                text.append(path.as_str());
                text.append(": the file could not be read");
                text
            },
            ContextError::InvalidEncoding(path) => {
                let mut text = String::from_str("Error processing ");
                text.append(path.as_str());
                text.append(": the file is not valid UTF-8");
                text
            },
            ContextError::InvalidBudgetValue(tokens) => {
                let mut text = String::from_str("Invalid max_tokens: ");
                let digits = decimal_text(*tokens);
                text.append(digits.as_str());
                text
            },
        }
    }

    /// A copy of this error.
    pub fn duplicate(&self) -> (copy: ContextError)
        ensures
            copy@ == self@,
    {
        match self {
            ContextError::DirectoryUnreadable(path) => ContextError::DirectoryUnreadable(
                path.clone(),
            ),
            ContextError::FileUnreadable(path) => ContextError::FileUnreadable(path.clone()),
            ContextError::InvalidEncoding(path) => ContextError::InvalidEncoding(path.clone()),
            ContextError::InvalidBudgetValue(tokens) => ContextError::InvalidBudgetValue(*tokens),
        }
    }
}

} // verus!
