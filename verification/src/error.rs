//! The failures that the codec and the session driver report.
use vstd::prelude::*;
use vstd::string::*;

verus! {

/// `std::num::ParseIntError`, which the library hands on and never looks
/// into.
#[verifier::external_type_specification]
#[verifier::external_body]
pub struct ExParseIntError(std::num::ParseIntError);

/// `std::io::Error`, which the library hands on and never looks into.
#[verifier::external_type_specification]
#[verifier::external_body]
pub struct ExIoError(std::io::Error);

/// What can go wrong while talking to an engine.
#[derive(Debug)]
pub enum Error {
    /// A line was read that is not a command of the protocol.
    IllegalSyntax,
    /// A field that must be a number is not one.
    IllegalNumberFormat(std::num::ParseIntError),
    /// A handshake was asked for, or listening started again, after the
    /// reader had been handed to the listener.
    IllegalOperation,
    /// Reading from or writing to the engine failed.
    EngineIo(std::io::Error),
    /// The handler of the listener reported a failure; its description.
    HandlerError(String),
}

impl Error {
    /// What `message` returns, as a sequence of characters.
    pub open spec fn spec_message(&self) -> Seq<char> {
        match self {
            Error::IllegalSyntax => "illegal USI command syntax"@,
            Error::IllegalNumberFormat(_) => "illegal USI command syntax"@,
            Error::IllegalOperation => "the engine already started listening"@,
            Error::EngineIo(_) => "IO error occurred when communicating with the engine"@,
            Error::HandlerError(_) => "An error occurred inside the external handler"@,
        }
    }

    /// A one-line description of the failure, for display.
    pub fn message(&self) -> (s: String)
        ensures
            s@ == self.spec_message(),
    {
        match self {
            Error::IllegalSyntax => String::from_str("illegal USI command syntax"),
            Error::IllegalNumberFormat(_) => String::from_str("illegal USI command syntax"),
            Error::IllegalOperation => String::from_str("the engine already started listening"),
            Error::EngineIo(_) => String::from_str(
                "IO error occurred when communicating with the engine",
            ),
            Error::HandlerError(_) => String::from_str(
                "An error occurred inside the external handler",
            ),
        }
    }
}

} // verus!
