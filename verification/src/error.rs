//! What can go wrong when a call is compiled or an expression is executed.

use vstd::prelude::*;

verus! {

/// The mathematical content of an [`Error`].
pub enum ErrorView {
    MissingArgument(Seq<char>),
    NotText,
    NotTimestamp,
    NotBytes,
    UnknownConversion(Seq<char>),
    InvalidTimestamp(Seq<char>),
    UndefinedVariable(Seq<char>),
    Target(Seq<char>),
}

/// A failure. The first variant arises when a call is compiled, the others
/// when an expression is executed.
#[derive(Debug, PartialEq, Eq)]
pub enum Error {
    /// A required argument of a call is absent; the keyword names it.
    MissingArgument(String),
    /// The value has no text form.
    NotText,
    /// The value is neither a timestamp nor bytes to read one from.
    NotTimestamp,
    /// The value is not a byte string, where only one can be used.
    NotBytes,
    /// The conversion that the specifier names is unknown.
    UnknownConversion(String),
    /// The text does not fit the timestamp format.
    InvalidTimestamp(String),
    /// The variable has no binding.
    UndefinedVariable(String),
    /// The target of the program refused a path; the message is its own.
    Target(String),
}

impl View for Error {
    type V = ErrorView;

    open spec fn view(&self) -> ErrorView {
        match self {
            Error::MissingArgument(k) => ErrorView::MissingArgument(k@),
            Error::NotText => ErrorView::NotText,
            Error::NotTimestamp => ErrorView::NotTimestamp,
            Error::NotBytes => ErrorView::NotBytes,
            Error::UnknownConversion(n) => ErrorView::UnknownConversion(n@),
            Error::InvalidTimestamp(t) => ErrorView::InvalidTimestamp(t@),
            Error::UndefinedVariable(n) => ErrorView::UndefinedVariable(n@),
            Error::Target(m) => ErrorView::Target(m@),
        }
    }
}

impl ErrorView {
    /// Whether the failure arises when a call is compiled.
    pub open spec fn at_compile_time(self) -> bool {
        self is MissingArgument
    }

    /// Whether the failure says that a value cannot be converted.
    pub open spec fn is_conversion(self) -> bool {
        self is NotText || self is NotTimestamp || self is NotBytes || self is UnknownConversion
            || self is InvalidTimestamp
    }

    /// The message that describes the failure.
    pub open spec fn message(self) -> Seq<char> {
        match self {
            ErrorView::MissingArgument(k) => "missing required argument: "@ + k,
            ErrorView::NotText => "unable to convert value to string"@,
            ErrorView::NotTimestamp => "unable to convert value to integer"@,
            ErrorView::NotBytes => "unable to convert value to bytes"@,
            ErrorView::UnknownConversion(n) => "unknown conversion name: "@ + n,
            ErrorView::InvalidTimestamp(t) => "invalid timestamp: "@ + t,
            ErrorView::UndefinedVariable(n) => "undefined variable: "@ + n,
            ErrorView::Target(m) => m,
        }
    }
}

impl Error {
    /// Whether the failure arises when a call is compiled.
    pub fn at_compile_time(&self) -> (b: bool)
        ensures
            b == self@.at_compile_time(),
    {
        match self {
            Error::MissingArgument(_) => true,
            _ => false,
        }
    }

    /// Whether the failure says that a value cannot be converted.
    pub fn is_conversion(&self) -> (b: bool)
        ensures
            b == self@.is_conversion(),
    {
        match self {
            Error::NotText => true,
            Error::NotTimestamp => true,
            Error::NotBytes => true,
            Error::UnknownConversion(_) => true,
            Error::InvalidTimestamp(_) => true,
            _ => false,
        }
    }

    /// The message that describes the failure.
    pub fn message(&self) -> (m: String)
        ensures
            m@ == self@.message(),
    {
        match self {
            Error::MissingArgument(k) => "missing required argument: ".to_owned().concat(
                k.as_str(),
            ),
            Error::NotText => "unable to convert value to string".to_owned(),
            Error::NotTimestamp => "unable to convert value to integer".to_owned(),
            Error::NotBytes => "unable to convert value to bytes".to_owned(),
            Error::UnknownConversion(n) => "unknown conversion name: ".to_owned().concat(
                n.as_str(),
            ),
            Error::InvalidTimestamp(t) => "invalid timestamp: ".to_owned().concat(t.as_str()),
            Error::UndefinedVariable(n) => "undefined variable: ".to_owned().concat(n.as_str()),
            Error::Target(m) => m.clone(),
        }
    }

    /// A second error with the same content.
    pub fn duplicate(&self) -> (e: Error)
        ensures
            e@ == self@,
    {
        match self {
            Error::MissingArgument(k) => Error::MissingArgument(k.clone()),
            Error::NotText => Error::NotText,
            Error::NotTimestamp => Error::NotTimestamp,
            Error::NotBytes => Error::NotBytes,
            Error::UnknownConversion(n) => Error::UnknownConversion(n.clone()),
            Error::InvalidTimestamp(t) => Error::InvalidTimestamp(t.clone()),
            Error::UndefinedVariable(n) => Error::UndefinedVariable(n.clone()),
            Error::Target(m) => Error::Target(m.clone()),
        }
    }
}

} // verus!
