//! The engine's error type.
use vstd::prelude::*;

use crate::text::{join2, join4};

verus! {

/// Errors of validation, input resolution, rendering, providers and repositories.
#[derive(Debug, Clone, PartialEq)]
pub enum EngineError {
    UnsupportedSchema(String),
    InvalidWorkflow(String),
    InvalidInput { name: String, reason: String },
    UnresolvedVariable(String),
    Provider(String),
    Repository(String),
}

pub enum ErrorView {
    UnsupportedSchema(Seq<char>),
    InvalidWorkflow(Seq<char>),
    InvalidInput { name: Seq<char>, reason: Seq<char> },
    UnresolvedVariable(Seq<char>),
    Provider(Seq<char>),
    Repository(Seq<char>),
}

impl View for EngineError {
    type V = ErrorView;

    open spec fn view(&self) -> ErrorView {
        match self {
            EngineError::UnsupportedSchema(s) => ErrorView::UnsupportedSchema(s@),
            EngineError::InvalidWorkflow(s) => ErrorView::InvalidWorkflow(s@),
            EngineError::InvalidInput { name, reason } => ErrorView::InvalidInput {
                name: name@,
                reason: reason@,
            },
            EngineError::UnresolvedVariable(s) => ErrorView::UnresolvedVariable(s@),
            EngineError::Provider(s) => ErrorView::Provider(s@),
            EngineError::Repository(s) => ErrorView::Repository(s@),
        }
    }
}

/// The text that an error displays.
pub open spec fn error_text(e: ErrorView) -> Seq<char> {
    match e {
        ErrorView::UnsupportedSchema(s) => "unsupported schema version: "@ + s,
        ErrorView::InvalidWorkflow(s) => "invalid workflow: "@ + s,
        ErrorView::InvalidInput { name, reason } => "invalid input `"@ + name + "`: "@ + reason,
        ErrorView::UnresolvedVariable(s) => "unresolved template variable: "@ + s,
        ErrorView::Provider(s) => "provider error: "@ + s,
        ErrorView::Repository(s) => "repository error: "@ + s,
    }
}

impl EngineError {
    /// The text that the error displays.
    pub fn message(&self) -> (r: String)
        ensures
            r@ == error_text(self@),
    {
        match self {
            EngineError::UnsupportedSchema(s) => join2("unsupported schema version: ", s.as_str()),
            EngineError::InvalidWorkflow(s) => join2("invalid workflow: ", s.as_str()),
            EngineError::InvalidInput { name, reason } => join4(
                "invalid input `",
                name.as_str(),
                "`: ",
                reason.as_str(),
            ),
            EngineError::UnresolvedVariable(s) => join2(
                "unresolved template variable: ",
                s.as_str(),
            ),
            EngineError::Provider(s) => join2("provider error: ", s.as_str()),
            EngineError::Repository(s) => join2("repository error: ", s.as_str()),
        }
    }
}

/// A repository failure with the given description.
pub fn repository_error(description: &str) -> (e: EngineError)
    ensures
        e@ == ErrorView::Repository(description@),
{
    EngineError::Repository(description.to_owned())
}

} // verus!
