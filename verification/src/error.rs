//! What can go wrong while relaying, and how far each failure reaches.

use vstd::prelude::*;

verus! {

/// Why a frame could not be decoded.
#[derive(Clone, Copy, Debug, PartialEq, Eq, Structural)]
pub enum ParseError {
    /// The frame's text is not JSON.
    NotJson,
    /// The frame has no third element, or that element is no object with a
    /// `data` field.
    MissingData,
    /// The `data` field is a string whose content is not JSON.
    PayloadNotJson,
    /// The payload does not have the shape of a champion-select session.
    ShapeMismatch,
}

/// Why a summoner's name could not be resolved.
#[derive(Clone, Copy, Debug, PartialEq, Eq, Structural)]
pub enum LookupError {
    /// The request failed, or the client answered with an error status.
    Unanswered,
    /// The answer is not JSON.
    NotJson,
    /// The answer has no `displayName` field that is a string.
    NoDisplayName,
}

/// Which of the two payloads the collector did not take.
#[derive(Clone, Copy, Debug, PartialEq, Eq, Structural)]
pub enum ForwardError {
    /// The session.
    Session,
    /// The name map.
    Names,
}

/// A failure of the relay, by category.
#[derive(Clone, Copy, Debug, PartialEq, Eq, Structural)]
pub enum RelayError {
    /// The stream or the REST client could not be set up.
    Connection,
    /// An inbound frame was malformed.
    Parse(ParseError),
    /// A name lookup failed.
    Lookup(LookupError),
    /// A post to the collector failed.
    Forward(ForwardError),
}

impl RelayError {
    /// Whether the failure ends the process. Only a failure to connect does:
    /// every other one stays within the frame during which it happened.
    pub open spec fn spec_is_fatal(self) -> bool {
        self is Connection
    }

    /// Whether the failure ends the process. Only a failure to connect does:
    /// every other one stays within the frame during which it happened.
    #[verifier::when_used_as_spec(spec_is_fatal)]
    pub fn is_fatal(self) -> (r: bool)
        ensures
            r == self.spec_is_fatal(),
    {
        match self {
            RelayError::Connection => true,
            _ => false,
        }
    }

    /// The name of the failure's category, for a log line.
    pub fn category(self) -> (r: &'static str)
        ensures
            r@ == match self {
                RelayError::Connection => "ConnectionError"@,
                RelayError::Parse(_) => "ParseError"@,
                RelayError::Lookup(_) => "LookupError"@,
                RelayError::Forward(_) => "ForwardError"@,
            },
    {
        match self {
            RelayError::Connection => "ConnectionError",
            RelayError::Parse(_) => "ParseError",
            RelayError::Lookup(_) => "LookupError",
            RelayError::Forward(_) => "ForwardError",
        }
    }
}

} // verus!
