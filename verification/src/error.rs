//! The error type shared by every module, with the status and the message
//! that a dispatcher reports for each error.

use vstd::prelude::*;
use vstd::string::StringExecFns;

verus! {

/// What can go wrong in the service. Each variant carries a message.
#[derive(Debug, Clone, PartialEq, Eq)]
pub enum Error {
    /// The configuration is missing a value or holds a bad one.
    Config(String),
    /// A provider could not be reached, answered with a failure, or gave no data.
    DataFetch(String),
    /// A response body or a stored record does not have the expected shape.
    Parse(String),
    /// Stored tabular data could not be framed or read.
    Csv(String),
    /// A date is not a calendar day in the accepted notation.
    DateParse(String),
    /// A factor computation failed.
    FactorComputation(String),
    /// An argument breaks a precondition of the operation.
    InvalidInput(String),
    /// What was asked for does not exist.
    NotFound(String),
    /// Any other failure.
    Internal(String),
}

/// An error as plain values: its kind and the text of its message.
pub enum ErrorView {
    Config(Seq<char>),
    DataFetch(Seq<char>),
    Parse(Seq<char>),
    Csv(Seq<char>),
    DateParse(Seq<char>),
    FactorComputation(Seq<char>),
    InvalidInput(Seq<char>),
    NotFound(Seq<char>),
    Internal(Seq<char>),
}

impl View for Error {
    type V = ErrorView;

    open spec fn view(&self) -> ErrorView {
        match self {
            Error::Config(m) => ErrorView::Config(m@),
            Error::DataFetch(m) => ErrorView::DataFetch(m@),
            Error::Parse(m) => ErrorView::Parse(m@),
            Error::Csv(m) => ErrorView::Csv(m@),
            Error::DateParse(m) => ErrorView::DateParse(m@),
            Error::FactorComputation(m) => ErrorView::FactorComputation(m@),
            Error::InvalidInput(m) => ErrorView::InvalidInput(m@),
            Error::NotFound(m) => ErrorView::NotFound(m@),
            Error::Internal(m) => ErrorView::Internal(m@),
        }
    }
}

/// What a dispatcher shows when the cause is not to be disclosed.
pub open spec fn generic_message() -> Seq<char> {
    "Internal server error"@
}

impl Error {
    /// The message that the error carries.
    pub open spec fn detail(self) -> Seq<char> {
        match self {
            Error::Config(m) => m@,
            Error::DataFetch(m) => m@,
            Error::Parse(m) => m@,
            Error::Csv(m) => m@,
            Error::DateParse(m) => m@,
            Error::FactorComputation(m) => m@,
            Error::InvalidInput(m) => m@,
            Error::NotFound(m) => m@,
            Error::Internal(m) => m@,
        }
    }

    /// The words that introduce the message of each kind of error.
    pub open spec fn label(self) -> Seq<char> {
        match self {
            Error::Config(_) => "Configuration error: "@,
            Error::DataFetch(_) => "Data fetch error: "@,
            Error::Parse(_) => "Parse error: "@,
            Error::Csv(_) => "CSV error: "@,
            Error::DateParse(_) => "Date parsing error: "@,
            Error::FactorComputation(_) => "Factor computation error: "@,
            Error::InvalidInput(_) => "Invalid input: "@,
            Error::NotFound(_) => "Not found: "@,
            Error::Internal(_) => "Internal server error: "@,
        }
    }

    /// The HTTP status that stands for the error: 400 for a bad argument, 404
    /// for something missing, 502 for a provider failure, 500 otherwise.
    pub open spec fn status(self) -> int {
        match self {
            Error::InvalidInput(_) => 400,
            Error::NotFound(_) => 404,
            Error::DataFetch(_) => 502,
            _ => 500,
        }
    }

    /// Whether the message may be shown to the caller of the service.
    pub open spec fn discloses_detail(self) -> bool {
        self is InvalidInput || self is NotFound || self is Config || self is DataFetch
            || self is FactorComputation
    }

    /// What the caller of the service is told.
    pub open spec fn shown(self) -> Seq<char> {
        if self.discloses_detail() {
            self.detail()
        } else {
            generic_message()
        }
    }

    /// The HTTP status that a dispatcher answers with.
    pub fn status_code(&self) -> (code: u16)
        ensures
            code == self.status(),
    {
        match self {
            Error::InvalidInput(_) => 400,
            Error::NotFound(_) => 404,
            Error::DataFetch(_) => 502,
            _ => 500,
        }
    }

    /// The message that a dispatcher answers with: the error's own message
    /// for the kinds that disclose it, a fixed sentence for the others.
    pub fn public_message(&self) -> (m: String)
        ensures
            m@ == self.shown(),
    {
        match self {
            Error::InvalidInput(m) => m.clone(),
            Error::NotFound(m) => m.clone(),
            Error::Config(m) => m.clone(),
            Error::DataFetch(m) => m.clone(),
            Error::FactorComputation(m) => m.clone(),
            _ => String::from_str("Internal server error"),
        }
    }

    /// The message that the error carries.
    pub fn message(&self) -> (m: String)
        ensures
            m@ == self.detail(),
    {
        match self {
            Error::Config(m) => m.clone(),
            Error::DataFetch(m) => m.clone(),
            Error::Parse(m) => m.clone(),
            Error::Csv(m) => m.clone(),
            Error::DateParse(m) => m.clone(),
            Error::FactorComputation(m) => m.clone(),
            Error::InvalidInput(m) => m.clone(),
            Error::NotFound(m) => m.clone(),
            Error::Internal(m) => m.clone(),
        }
    }

    /// The error in words: its label followed by its message.
    pub fn describe(&self) -> (m: String)
        ensures
            m@ == self.label() + self.detail(),
    {
        let label: &str = match self {
            Error::Config(_) => "Configuration error: ",
            Error::DataFetch(_) => "Data fetch error: ",
            Error::Parse(_) => "Parse error: ",
            Error::Csv(_) => "CSV error: ",
            Error::DateParse(_) => "Date parsing error: ",
            Error::FactorComputation(_) => "Factor computation error: ",
            Error::InvalidInput(_) => "Invalid input: ",
            Error::NotFound(_) => "Not found: ",
            Error::Internal(_) => "Internal server error: ",
        };
        let detail = self.message();
        String::from_str(label).concat(detail.as_str())
    }
}

} // verus!
