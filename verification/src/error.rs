//! The crate's error type: configuration loading, validation and routing.
use crate::point_code::{PointCodeError, PointCodeFault};
use crate::text::{join2, join3};
use vstd::prelude::*;
use vstd::string::*;

verus! {

/// Errors of configuration loading, validation and routing.
#[derive(Clone, Debug, PartialEq, Eq)]
pub enum Error {
    /// The configuration file could not be read.
    Io { path: String, source: String },
    /// The text is not a configuration.
    Yaml(String),
    /// A point code does not fit its variant.
    PointCode(PointCodeError),
    /// The configuration is inconsistent: a dangling reference, a duplicate
    /// name, an empty required set, and so on.
    Validation(String),
}

/// What an [`Error`] holds.
pub enum Fault {
    Io(Seq<char>, Seq<char>),
    Yaml(Seq<char>),
    PointCode(PointCodeFault),
    Validation(Seq<char>),
}

impl Fault {
    /// The error text.
    pub open spec fn text(self) -> Seq<char> {
        match self {
            Fault::Io(path, source) => "reading config "@ + path + ": "@ + source,
            Fault::Yaml(s) => "parsing config: "@ + s,
            Fault::PointCode(e) => "invalid point code: "@ + e.text(),
            Fault::Validation(s) => "invalid config: "@ + s,
        }
    }
}

impl View for Error {
    type V = Fault;

    open spec fn view(&self) -> Fault {
        match *self {
            Error::Io { path, source } => Fault::Io(path@, source@),
            Error::Yaml(s) => Fault::Yaml(s@),
            Error::PointCode(e) => Fault::PointCode(e@),
            Error::Validation(s) => Fault::Validation(s@),
        }
    }
}

/// Convenience alias for results in this crate.
pub type Result<T> = std::result::Result<T, Error>;

impl Error {
    /// A validation error with this message.
    pub fn validation(msg: String) -> (r: Error)
        ensures
            r@ == Fault::Validation(msg@),
    {
        Error::Validation(msg)
    }

    /// The error text.
    pub fn to_string(&self) -> (r: String)
        ensures
            r@ == self@.text(),
    {
        match self {
            Error::Io { path, source } => join3("reading config ", path.as_str(), ": ").concat(
                source.as_str(),
            ),
            Error::Yaml(s) => join2("parsing config: ", s.as_str()),
            Error::PointCode(e) => join2("invalid point code: ", e.to_string().as_str()),
            Error::Validation(s) => join2("invalid config: ", s.as_str()),
        }
    }
}

} // verus!
