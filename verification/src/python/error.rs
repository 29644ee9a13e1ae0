//! What a script is refused with.
use crate::text::{join2, join3, signed_decimal, signed_decimal_of};
use vstd::prelude::*;
use vstd::string::*;

verus! {

/// A configuration or protocol error raised to a script.
#[derive(Clone, Debug, PartialEq, Eq)]
pub enum SigtranError {
    /// A codec refused a value, with its text.
    Codec(String),
    /// An operation filter names an operation that its namespace does not have.
    UnknownOperation { name: String, known: String },
    /// An operation filter names nothing.
    EmptyFilter,
    /// No operation has this name.
    NoSuchOperation(String),
    /// No detection point has this number.
    UnknownEventType(i64),
    /// No monitor mode has this number.
    UnknownMonitorMode(i64),
    /// A route names both an Application Server and a linkset.
    RouteNamesBoth,
    /// A route names neither an Application Server nor a linkset.
    RouteNamesNeither,
    /// The node has no default tenant.
    NoDefaultTenant,
    /// The payload is not a short-form SCCP data message.
    NotUnitdata,
    /// The application context of a transaction could not be written.
    NotEncoded,
}

/// What a [`SigtranError`] says.
pub enum Refusal {
    Codec(Seq<char>),
    UnknownOperation { name: Seq<char>, known: Seq<char> },
    EmptyFilter,
    NoSuchOperation(Seq<char>),
    UnknownEventType(i64),
    UnknownMonitorMode(i64),
    RouteNamesBoth,
    RouteNamesNeither,
    NoDefaultTenant,
    NotUnitdata,
    NotEncoded,
}

impl View for SigtranError {
    type V = Refusal;

    open spec fn view(&self) -> Refusal {
        match *self {
            SigtranError::Codec(t) => Refusal::Codec(t@),
            SigtranError::UnknownOperation { name, known } => Refusal::UnknownOperation {
                name: name@,
                known: known@,
            },
            SigtranError::EmptyFilter => Refusal::EmptyFilter,
            SigtranError::NoSuchOperation(n) => Refusal::NoSuchOperation(n@),
            SigtranError::UnknownEventType(v) => Refusal::UnknownEventType(v),
            SigtranError::UnknownMonitorMode(v) => Refusal::UnknownMonitorMode(v),
            SigtranError::RouteNamesBoth => Refusal::RouteNamesBoth,
            SigtranError::RouteNamesNeither => Refusal::RouteNamesNeither,
            SigtranError::NoDefaultTenant => Refusal::NoDefaultTenant,
            SigtranError::NotUnitdata => Refusal::NotUnitdata,
            SigtranError::NotEncoded => Refusal::NotEncoded,
        }
    }
}

/// A text between double quotes, with what needs it escaped, as `format!` writes
/// it under `{:?}`.
pub uninterp spec fn quoted(s: Seq<char>) -> Seq<char>;

/// Calls `format!` with `{:?}`. The text is the named one.
#[verifier::external_body]
fn quote(s: &str) -> (r: String)
    ensures
        r@ == quoted(s@),
{
    format!("{:?}", s)
}

impl Refusal {
    /// The text that the script sees.
    pub open spec fn text(self) -> Seq<char> {
        match self {
            Refusal::Codec(t) => t,
            Refusal::UnknownOperation { name, known } => "unknown operation "@ + quoted(name)
                + " in on_operation filter; known: "@ + known,
            Refusal::EmptyFilter => "empty on_operation filter"@,
            Refusal::NoSuchOperation(n) => "unknown operation `"@ + n + "`"@,
            Refusal::UnknownEventType(v) => "unknown EventTypeBCSM "@ + signed_decimal(v as int),
            Refusal::UnknownMonitorMode(v) => "unknown MonitorMode "@ + signed_decimal(v as int),
            Refusal::RouteNamesBoth => "ss7.routes.add: pass exactly one of as_ / linkset"@,
            Refusal::RouteNamesNeither => "ss7.routes.add: pass one of as_ / linkset"@,
            Refusal::NoDefaultTenant => "no default tenant"@,
            Refusal::NotUnitdata => "payload is not an SCCP UDT"@,
            Refusal::NotEncoded => "the application context could not be encoded"@,
        }
    }
}

impl SigtranError {
    /// The text that the script sees.
    pub fn to_string(&self) -> (r: String)
        ensures
            r@ == self@.text(),
    {
        match self {
            SigtranError::Codec(t) => t.clone(),
            SigtranError::UnknownOperation { name, known } => join2(
                join3(
                    "unknown operation ",
                    quote(name.as_str()).as_str(),
                    " in on_operation filter; known: ",
                ).as_str(),
                known.as_str(),
            ),
            SigtranError::EmptyFilter => "empty on_operation filter".to_owned(),
            SigtranError::NoSuchOperation(n) => join3("unknown operation `", n.as_str(), "`"),
            SigtranError::UnknownEventType(v) => join2(
                "unknown EventTypeBCSM ",
                signed_decimal_of(*v).as_str(),
            ),
            SigtranError::UnknownMonitorMode(v) => join2(
                "unknown MonitorMode ",
                signed_decimal_of(*v).as_str(),
            ),
            SigtranError::RouteNamesBoth =>
                "ss7.routes.add: pass exactly one of as_ / linkset".to_owned(),
            SigtranError::RouteNamesNeither =>
                "ss7.routes.add: pass one of as_ / linkset".to_owned(),
            SigtranError::NoDefaultTenant => "no default tenant".to_owned(),
            SigtranError::NotUnitdata => "payload is not an SCCP UDT".to_owned(),
            SigtranError::NotEncoded => "the application context could not be encoded".to_owned(),
        }
    }
}

} // verus!
