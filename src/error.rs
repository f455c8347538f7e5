//! Errors of the witness builder that produces copy events.
use vstd::prelude::*;
use serde_json::error::Error as JsonError;

verus! {

#[verifier::external_type_specification]
#[verifier::external_body]
pub struct ExJsonError(JsonError);

#[verifier::external_type_specification]
#[verifier::external_body]
pub struct ExFromHexError(hex::FromHexError);

/// Any failure of the witness builder.
#[derive(Debug)]
pub enum Error {
    /// Error while parsing an instruction or opcode.
    OpcodeParsing,
    /// Error while parsing a memory address.
    MemAddressParsing,
    /// Error while parsing a stack address.
    StackAddressParsing,
    /// Error while converting to an invalid opcode.
    InvalidOpConversion,
    /// Serde de/serialization error.
    SerdeError(JsonError),
    /// Access to an invalid or empty stack location.
    InvalidStackPointer,
    /// Access to an invalid or empty memory location.
    InvalidMemoryPointer,
    /// Access to an invalid or empty storage key.
    InvalidStorageKey,
    /// A word too big to be a memory address.
    WordToMemAddr,
    /// Error while generating a trace.
    TracingError,
}

/// Failure while parsing an Ethereum address.
#[derive(Debug)]
pub enum EthAddressParsingError {
    /// The hex string is not 40 characters long.
    BadLength,
    /// Hex decoding error.
    Hex(hex::FromHexError),
}

} // verus!
