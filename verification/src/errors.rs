//! The error taxonomy shared by every component.

use vstd::prelude::*;

verus! {

/// The five families into which every failure of the system falls.
#[derive(Clone, Copy, Debug, PartialEq, Eq, Structural)]
pub enum ErrorKind {
    /// The filesystem refused a read or a write.
    Io,
    /// The table engine behind the vector store failed.
    Storage,
    /// Text extraction, tokenisation or the embedding model failed.
    Embedding,
    /// The remote language model could not be reached or refused the call.
    Llm,
    /// A persisted configuration value could not be decoded.
    Config,
}

/// A failure, tagged by the collaborator that raised it and carrying the
/// text that collaborator gave.
#[derive(Debug)]
pub enum AidenErrors {
    StdIo(String),
    SerdeError(String),
    Str(&'static str),
    String(String),
    TaskJoinError(String),
    LoPdfError(String),
    DocxError(String),
    PromptError(String),
    ParseError(String),
    ArrowError(String),
    CandleError(String),
    AnyError(String),
    LancedbError(String),
}

/// What every fallible operation returns.
pub type AppResult<T> = Result<T, AidenErrors>;

impl AidenErrors {
    /// The text of the failure.
    pub open spec fn message_view(self) -> Seq<char> {
        match self {
            AidenErrors::StdIo(m) => m@,
            AidenErrors::SerdeError(m) => m@,
            AidenErrors::Str(m) => m@,
            AidenErrors::String(m) => m@,
            AidenErrors::TaskJoinError(m) => m@,
            AidenErrors::LoPdfError(m) => m@,
            AidenErrors::DocxError(m) => m@,
            AidenErrors::PromptError(m) => m@,
            AidenErrors::ParseError(m) => m@,
            AidenErrors::ArrowError(m) => m@,
            AidenErrors::CandleError(m) => m@,
            AidenErrors::AnyError(m) => m@,
            AidenErrors::LancedbError(m) => m@,
        }
    }

    /// The family a failure belongs to.
    pub open spec fn kind_of(self) -> ErrorKind {
        match self {
            AidenErrors::StdIo(_) => ErrorKind::Io,
            AidenErrors::ArrowError(_) | AidenErrors::LancedbError(_) => ErrorKind::Storage,
            AidenErrors::PromptError(_) => ErrorKind::Llm,
            AidenErrors::SerdeError(_) | AidenErrors::ParseError(_) => ErrorKind::Config,
            AidenErrors::Str(_)
            | AidenErrors::String(_)
            | AidenErrors::TaskJoinError(_)
            | AidenErrors::LoPdfError(_)
            | AidenErrors::DocxError(_)
            | AidenErrors::CandleError(_)
            | AidenErrors::AnyError(_) => ErrorKind::Embedding,
        }
    }

    /// Returns the text of the failure, as the collaborator worded it.
    pub fn message(&self) -> (text: String)
        ensures
            text@ == self.message_view(),
    {
        match self {
            AidenErrors::StdIo(m) => m.clone(),
            AidenErrors::SerdeError(m) => m.clone(),
            AidenErrors::Str(m) => String::from_str(m),
            AidenErrors::String(m) => m.clone(),
            AidenErrors::TaskJoinError(m) => m.clone(),
            AidenErrors::LoPdfError(m) => m.clone(),
            AidenErrors::DocxError(m) => m.clone(),
            AidenErrors::PromptError(m) => m.clone(),
            AidenErrors::ParseError(m) => m.clone(),
            AidenErrors::ArrowError(m) => m.clone(),
            AidenErrors::CandleError(m) => m.clone(),
            AidenErrors::AnyError(m) => m.clone(),
            AidenErrors::LancedbError(m) => m.clone(),
        }
    }

    /// Classifies the failure.
    pub fn kind(&self) -> (kind: ErrorKind)
        ensures
            kind == self.kind_of(),
    {
        match self {
            AidenErrors::StdIo(_) => ErrorKind::Io,
            AidenErrors::ArrowError(_) | AidenErrors::LancedbError(_) => ErrorKind::Storage,
            AidenErrors::PromptError(_) => ErrorKind::Llm,
            AidenErrors::SerdeError(_) | AidenErrors::ParseError(_) => ErrorKind::Config,
            _ => ErrorKind::Embedding,
        }
    }
}

} // verus!
