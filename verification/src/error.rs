//! Possible errors in the Thorium reactor.

use vstd::prelude::*;

use crate::text::{join2, join3, to_owned};

verus! {

/// An error in the reactor. Each variant holds the message of what went wrong.
#[derive(Debug)]
pub enum Error {
    /// A generic error with a message
    Generic(String),
    /// A Thorium error
    Thorium(String),
    /// An IO error
    IO(String),
    /// An error from parsing a semver version
    Semver(String),
    /// A rustix error
    Rustix(String),
    /// A `serde_json` error
    SerdeJson(String),
    /// A libvirt error
    Virt(String),
    /// An error during guest OS detection (bad image format, unrecognized layout, etc.)
    OsDetect(String),
}

/// What an [`Error`] holds, with its message as a sequence of characters.
pub enum ErrorView {
    /// See [`Error::Generic`]
    Generic(Seq<char>),
    /// See [`Error::Thorium`]
    Thorium(Seq<char>),
    /// See [`Error::IO`]
    IO(Seq<char>),
    /// See [`Error::Semver`]
    Semver(Seq<char>),
    /// See [`Error::Rustix`]
    Rustix(Seq<char>),
    /// See [`Error::SerdeJson`]
    SerdeJson(Seq<char>),
    /// See [`Error::Virt`]
    Virt(Seq<char>),
    /// See [`Error::OsDetect`]
    OsDetect(Seq<char>),
}

impl View for Error {
    type V = ErrorView;

    open spec fn view(&self) -> ErrorView {
        match *self {
            Error::Generic(m) => ErrorView::Generic(m@),
            Error::Thorium(m) => ErrorView::Thorium(m@),
            Error::IO(m) => ErrorView::IO(m@),
            Error::Semver(m) => ErrorView::Semver(m@),
            Error::Rustix(m) => ErrorView::Rustix(m@),
            Error::SerdeJson(m) => ErrorView::SerdeJson(m@),
            Error::Virt(m) => ErrorView::Virt(m@),
            Error::OsDetect(m) => ErrorView::OsDetect(m@),
        }
    }
}

/// The message that an error shows.
pub open spec fn message(e: ErrorView) -> Seq<char> {
    match e {
        ErrorView::Generic(m) => m,
        ErrorView::Thorium(m) => m,
        ErrorView::IO(m) => m,
        ErrorView::Semver(m) => m,
        ErrorView::Rustix(m) => m,
        ErrorView::SerdeJson(m) => "JSON serialization/deserialization error: "@ + m,
        ErrorView::Virt(m) => m,
        ErrorView::OsDetect(m) => "OS detection failed: "@ + m,
    }
}

/// The name of the kind of an error.
pub open spec fn kind_name(e: ErrorView) -> Seq<char> {
    match e {
        ErrorView::Generic(_) => "Generic"@,
        ErrorView::Thorium(_) => "Thorium"@,
        ErrorView::IO(_) => "IO"@,
        ErrorView::Semver(_) => "Semver"@,
        ErrorView::Rustix(_) => "Rustix"@,
        ErrorView::SerdeJson(_) => "SerdeJson"@,
        ErrorView::Virt(_) => "Virt"@,
        ErrorView::OsDetect(_) => "OsDetect"@,
    }
}

/// A generic error that puts a message before what another error was.
pub open spec fn in_context(msg: Seq<char>, err: Seq<char>) -> ErrorView {
    ErrorView::Generic(msg + ": "@ + err)
}

impl Error {
    /// Create a new generic error.
    pub fn new(msg: &str) -> (r: Error)
        ensures
            r@ == ErrorView::Generic(msg@),
    {
        Error::Generic(to_owned(msg))
    }

    /// Returns the error message.
    pub fn msg(&self) -> (r: String)
        ensures
            r@ == message(self@),
    {
        match self {
            Error::Generic(m) => m.clone(),
            Error::Thorium(m) => m.clone(),
            Error::IO(m) => m.clone(),
            Error::Semver(m) => m.clone(),
            Error::Rustix(m) => m.clone(),
            Error::SerdeJson(m) => join2("JSON serialization/deserialization error: ", m.as_str()),
            Error::Virt(m) => m.clone(),
            Error::OsDetect(m) => join2("OS detection failed: ", m.as_str()),
        }
    }

    /// Returns the kind of error this is.
    pub fn kind(&self) -> (r: &str)
        ensures
            r@ == kind_name(self@),
    {
        match self {
            Error::Generic(_) => "Generic",
            Error::Thorium(_) => "Thorium",
            Error::IO(_) => "IO",
            Error::Semver(_) => "Semver",
            Error::Rustix(_) => "Rustix",
            Error::SerdeJson(_) => "SerdeJson",
            Error::Virt(_) => "Virt",
            Error::OsDetect(_) => "OsDetect",
        }
    }

    /// Create a generic error with a message and context from another error.
    ///
    /// * `msg` - The message
    /// * `err` - The `Debug` text of the other error
    pub fn with_context(msg: &str, err: &str) -> (r: Error)
        ensures
            r@ == in_context(msg@, err@),
    {
        Error::Generic(join3(msg, ": ", err))
    }
}

} // verus!
