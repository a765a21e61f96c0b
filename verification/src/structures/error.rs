use vstd::prelude::*;
use vstd::string::StringExecFns;

verus! {

/// What can go wrong at a transport endpoint.
///
/// `Timeout` is the one recoverable kind: it tells the relay loop that
/// nothing arrived within the poll interval. Every other kind ends the relay.
#[derive(Debug, PartialEq, Eq)]
pub enum TransportError {
    /// An I/O fault, with the text of the underlying error.
    Io(String),
    /// A malformed or unsupported endpoint URI, with the URI.
    InvalidUri(String),
    /// Nothing arrived within the poll interval.
    Timeout,
    /// The endpoint is not open.
    Closed,
    /// Anything else, with a description.
    Other(String),
}

pub type TResult<T> = Result<T, TransportError>;

impl TransportError {
    /// Whether this error ends the relay that meets it: every kind but
    /// `Timeout` does.
    pub open spec fn fatal(&self) -> bool {
        !(self is Timeout)
    }

    /// Whether this error says that `uri` is no valid endpoint URI.
    pub open spec fn is_invalid_uri(&self, uri: Seq<char>) -> bool {
        self matches TransportError::InvalidUri(u) && u@ == uri
    }

    /// The text shown for this error.
    pub open spec fn message_spec(&self) -> Seq<char> {
        match self {
            TransportError::Io(m) => "I/O error: "@ + m@,
            TransportError::InvalidUri(u) => "Invalid URI: "@ + u@,
            TransportError::Timeout => "Operation timed out"@,
            TransportError::Closed => "Transport closed"@,
            TransportError::Other(m) => "Other: "@ + m@,
        }
    }

    /// Whether this error ends the relay that meets it: every kind but
    /// `Timeout` does.
    #[verifier::when_used_as_spec(fatal)]
    pub fn is_fatal(&self) -> (r: bool)
        ensures
            r == self.fatal(),
    {
        match self {
            TransportError::Timeout => false,
            _ => true,
        }
    }

    /// The text shown for this error.
    pub fn message(&self) -> (r: String)
        ensures
            r@ == self.message_spec(),
    {
        match self {
            TransportError::Io(m) => String::from_str("I/O error: ").concat(m.as_str()),
            TransportError::InvalidUri(u) => String::from_str("Invalid URI: ").concat(u.as_str()),
            TransportError::Timeout => String::from_str("Operation timed out"),
            TransportError::Closed => String::from_str("Transport closed"),
            TransportError::Other(m) => String::from_str("Other: ").concat(m.as_str()),
        }
    }
}

} // verus!
