//! The failure kinds shared by every layer of the protocol engine.

use vstd::prelude::*;
use vstd::std_specs::cmp::PartialEqSpec;

verus! {

/// The closed set of ways in which a protocol operation can fail.
#[derive(Copy, Clone, Debug, PartialEq, Eq, Structural)]
pub enum ErrorKind {
    /// The peer closed the stream in the middle of a frame.
    ConnectionReset,
    /// More bytes are needed before a frame can be taken.
    DataIncomplete,
    /// The contents of a payload are malformed.
    InvalidPacket,
    /// The operation is deliberately not provided.
    NotSupported,
    /// The peer broke a rule of the protocol.
    ProtocolError,
    /// The server lacks something the client needs.
    ServerIncapable,
    /// The client lacks something the server asks for.
    ClientIncapable,
    /// The server speaks another protocol version than the client.
    UnsupportedProtocol { required: u8, requested: u8 },
    /// A failure of a lower layer, which cannot be compared.
    Other,
}

/// A failure: its kind, a description, and the text of the underlying
/// cause where there is one.
#[derive(Debug)]
pub struct Error {
    kind: ErrorKind,
    description: String,
    cause: Option<String>,
}

impl Error {
    /// The kind of this error.
    pub closed spec fn spec_kind(&self) -> ErrorKind {
        self.kind
    }

    /// The description of this error.
    pub closed spec fn spec_description(&self) -> Seq<char> {
        self.description@
    }

    /// The text of the underlying cause, if any.
    pub closed spec fn spec_cause(&self) -> Option<Seq<char>> {
        match self.cause {
            Some(c) => Some(c@),
            None => None,
        }
    }

    /// An error without an underlying cause.
    pub fn new(kind: ErrorKind, description: &str) -> (e: Error)
        ensures
            e.spec_kind() == kind,
            e.spec_description() == description@,
            e.spec_cause() is None,
    {
        Error { kind, description: description.to_owned(), cause: None }
    }

    /// An error that records the text of the failure underneath it.
    pub fn with_cause(kind: ErrorKind, description: &str, cause: &str) -> (e: Error)
        ensures
            e.spec_kind() == kind,
            e.spec_description() == description@,
            e.spec_cause() == Some(cause@),
    {
        Error { kind, description: description.to_owned(), cause: Some(cause.to_owned()) }
    }

    /// The kind of the error.
    #[verifier::when_used_as_spec(spec_kind)]
    pub fn kind(&self) -> (k: ErrorKind)
        ensures
            k == self.spec_kind(),
    {
        self.kind
    }

    /// An error of the same kind, with the same description and cause.
    pub fn duplicate(&self) -> (e: Error)
        ensures
            e.spec_kind() == self.spec_kind(),
            e.spec_description() == self.spec_description(),
            e.spec_cause() == self.spec_cause(),
    {
        Error {
            kind: self.kind,
            description: self.description.clone(),
            cause: match &self.cause {
                Some(text) => Some(text.clone()),
                None => None,
            },
        }
    }

    /// The error with `kind` in place of its kind.
    pub fn with_kind(self, kind: ErrorKind) -> (e: Error)
        ensures
            e.spec_kind() == kind,
            e.spec_description() == self.spec_description(),
            e.spec_cause() == self.spec_cause(),
    {
        Error { kind, description: self.description, cause: self.cause }
    }

    /// The description given when the error was made.
    pub fn description(&self) -> (d: &str)
        ensures
            d@ == self.spec_description(),
    {
        self.description.as_str()
    }

    /// The text of the underlying cause, if one was recorded.
    pub fn cause(&self) -> (c: Option<&str>)
        ensures
            match c {
                Some(text) => self.spec_cause() == Some(text@),
                None => self.spec_cause() is None,
            },
    {
        match &self.cause {
            Some(text) => Some(text.as_str()),
            None => None,
        }
    }
}

/// A result as plain values: what it holds, or the kind of its error.
pub open spec fn outcome<T: View>(r: Result<T, Error>) -> Result<T::V, ErrorKind> {
    match r {
        Ok(value) => Ok(value@),
        Err(e) => Err(e.spec_kind()),
    }
}

/// A result that may hold nothing, as plain values.
pub open spec fn optional_outcome<T: View>(r: Result<Option<T>, Error>) -> Result<
    Option<T::V>,
    ErrorKind,
> {
    match r {
        Ok(Some(value)) => Ok(Some(value@)),
        Ok(None) => Ok(None),
        Err(e) => Err(e.spec_kind()),
    }
}

impl PartialEq for Error {
    /// Errors are compared by kind alone, and an error of kind `Other`
    /// equals nothing, not even itself.
    fn eq(&self, other: &Error) -> (r: bool) {
        match (self.kind, other.kind) {
            (ErrorKind::Other, _) => false,
            (_, ErrorKind::Other) => false,
            (l, r) => l == r,
        }
    }
}

impl vstd::std_specs::cmp::PartialEqSpecImpl for Error {
    open spec fn obeys_eq_spec() -> bool {
        true
    }

    open spec fn eq_spec(&self, other: &Error) -> bool {
        self.spec_kind() != ErrorKind::Other && self.spec_kind() == other.spec_kind()
    }
}

/// Two `UnsupportedProtocol` errors are equal exactly when they name the
/// same requested and the same required version, whatever their texts.
pub proof fn lemma_unsupported_protocol_eq(a: Error, b: Error)
    requires
        a.spec_kind() is UnsupportedProtocol,
        b.spec_kind() is UnsupportedProtocol,
    ensures
        a.eq_spec(&b) <==> (a.spec_kind()->requested == b.spec_kind()->requested
            && a.spec_kind()->required == b.spec_kind()->required),
{
}

/// An error of kind `Other` is equal to no error, on either side of `==`.
pub proof fn lemma_other_never_eq(a: Error, b: Error)
    requires
        a.spec_kind() == ErrorKind::Other,
    ensures
        !a.eq_spec(&b),
        !b.eq_spec(&a),
{
}

} // verus!
