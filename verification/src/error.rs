//! Expected failures of the actor runtime.

use vstd::prelude::*;

use crate::text::{concat2, concat3, decimal, decimal_text};

verus! {

/// Expected failures of the actor runtime. A defect that a service reports stops
/// a program as [`crate::exit::Exit::Die`].
#[derive(Debug, Clone, PartialEq, Eq)]
pub enum ActorError {
    DuplicateFact { key: String },
    DuplicateTransition { key: String },
    StepLimit { limit: u32 },
    BadThreadId { thread_id: String },
    Schema(String),
    Config(String),
    Handler { key: String, message: String },
    Defect(String),
}

/// What an [`ActorError`] says.
pub enum ErrorModel {
    DuplicateFact { key: Seq<char> },
    DuplicateTransition { key: Seq<char> },
    StepLimit { limit: u32 },
    BadThreadId { thread_id: Seq<char> },
    Schema(Seq<char>),
    Config(Seq<char>),
    Handler { key: Seq<char>, message: Seq<char> },
    Defect(Seq<char>),
}

impl View for ActorError {
    type V = ErrorModel;

    open spec fn view(&self) -> ErrorModel {
        match self {
            ActorError::DuplicateFact { key } => ErrorModel::DuplicateFact { key: key@ },
            ActorError::DuplicateTransition { key } => ErrorModel::DuplicateTransition { key: key@ },
            ActorError::StepLimit { limit } => ErrorModel::StepLimit { limit: *limit },
            ActorError::BadThreadId { thread_id } => ErrorModel::BadThreadId {
                thread_id: thread_id@,
            },
            ActorError::Schema(message) => ErrorModel::Schema(message@),
            ActorError::Config(message) => ErrorModel::Config(message@),
            ActorError::Handler { key, message } => ErrorModel::Handler {
                key: key@,
                message: message@,
            },
            ActorError::Defect(message) => ErrorModel::Defect(message@),
        }
    }
}

/// A text between quotes, with the characters escaped that `Debug` escapes.
pub uninterp spec fn debug_text(text: Seq<char>) -> Seq<char>;

/// `Debug` of `str` writes the text between quotes and escapes it.
#[verifier::external_body]
pub(crate) fn debug_of(text: &str) -> (shown: String)
    ensures
        shown@ == debug_text(text@),
{
    format!("{:?}", text)
}

/// The sentence that reports an error.
pub open spec fn error_message(error: ErrorModel) -> Seq<char> {
    match error {
        ErrorModel::DuplicateFact { key } => "fact key "@ + key
            + " was reused with a different payload"@,
        ErrorModel::DuplicateTransition { key } => "two components enabled transition "@ + key,
        ErrorModel::StepLimit { limit } => "settled after "@ + decimal(limit as nat)
            + " transitions without becoming quiescent"@,
        ErrorModel::BadThreadId { thread_id } => "thread id "@ + debug_text(thread_id)
            + " is not a single path segment"@,
        ErrorModel::Schema(message) => "fact schema: "@ + message,
        ErrorModel::Config(message) => "config: "@ + message,
        ErrorModel::Handler { key, message } => "transition "@ + key + " failed: "@ + message,
        ErrorModel::Defect(message) => "defect: "@ + message,
    }
}

impl ActorError {
    /// The sentence that reports the error.
    pub fn message(&self) -> (message: String)
        ensures
            message@ == error_message(self@),
    {
        match self {
            ActorError::DuplicateFact { key } => concat3(
                "fact key ",
                key.as_str(),
                " was reused with a different payload",
            ),
            ActorError::DuplicateTransition { key } => concat2(
                "two components enabled transition ",
                key.as_str(),
            ),
            ActorError::StepLimit { limit } => concat3(
                "settled after ",
                decimal_text(*limit as u128).as_str(),
                " transitions without becoming quiescent",
            ),
            ActorError::BadThreadId { thread_id } => concat3(
                "thread id ",
                debug_of(thread_id.as_str()).as_str(),
                " is not a single path segment",
            ),
            ActorError::Schema(message) => concat2("fact schema: ", message.as_str()),
            ActorError::Config(message) => concat2("config: ", message.as_str()),
            ActorError::Handler { key, message } => concat2(
                concat3("transition ", key.as_str(), " failed: ").as_str(),
                message.as_str(),
            ),
            ActorError::Defect(message) => concat2("defect: ", message.as_str()),
        }
    }
}

/// Every report names what it is about: the key, the limit, the id or the message.
pub proof fn law_reports_name_their_subject(
    key: Seq<char>,
    message: Seq<char>,
    limit: u32,
)
    ensures
        error_message(ErrorModel::DuplicateFact { key }) == "fact key "@ + key
            + " was reused with a different payload"@,
        error_message(ErrorModel::DuplicateTransition { key })
            == "two components enabled transition "@ + key,
        error_message(ErrorModel::StepLimit { limit }) == "settled after "@ + decimal(limit as nat)
            + " transitions without becoming quiescent"@,
        error_message(ErrorModel::BadThreadId { thread_id: key }) == "thread id "@ + debug_text(key)
            + " is not a single path segment"@,
        error_message(ErrorModel::Schema(message)) == "fact schema: "@ + message,
        error_message(ErrorModel::Config(message)) == "config: "@ + message,
        error_message(ErrorModel::Handler { key, message }) == "transition "@ + key + " failed: "@
            + message,
        error_message(ErrorModel::Defect(message)) == "defect: "@ + message,
{
}

} // verus!
