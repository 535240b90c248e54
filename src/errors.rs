//! Error kinds of the sub-protocols.
use vstd::prelude::*;

verus! {

/// PSC BB errors
#[derive(Debug, Clone, Copy, PartialEq, Eq, Structural)]
pub enum PSCBBError {
    /// invalid SessionID
    InvalidSessionID,
    /// error while serializing or deserializing or invalid message data length
    InvalidMessage,
}

/// PSC OB errors
#[derive(Debug, Clone, Copy, PartialEq, Eq, Structural)]
pub enum PSCOBError {
    /// invalid SessionID
    InvalidSessionID,
    /// error while serializing or deserializing or invalid message data length
    InvalidMessage,
    /// Invalid DLog proof
    InvalidDLogProof,
}

/// PSIT CB errors
#[derive(Debug, Clone, Copy, PartialEq, Eq, Structural)]
pub enum PSITCBError {
    /// invalid SessionID
    InvalidSessionID,
    /// error while serializing or deserializing or invalid message data length
    InvalidMessage,
}

/// PSIT OB errors
#[derive(Debug, Clone, Copy, PartialEq, Eq, Structural)]
pub enum PSITOBError {
    /// invalid SessionID
    InvalidSessionID,
    /// error while serializing or deserializing or invalid message data length
    InvalidMessage,
    /// Invalid DLog proof
    InvalidDLogProof,
    /// Not in list
    NotInList,
}

/// ABT CB errors
#[derive(Debug, Clone, Copy, PartialEq, Eq, Structural)]
pub enum ABTCBError {
    /// invalid SessionID
    InvalidSessionID,
    /// error while serializing or deserializing or invalid message data length
    InvalidMessage,
    /// invalid state
    InvalidState,
    /// invalid open
    InvalidOpen,
    /// Abort the protocol and ban other party
    AbortProtocolAndBanOtherParty,
}

/// ABT OB errors
#[derive(Debug, Clone, Copy, PartialEq, Eq, Structural)]
pub enum ABTOBError {
    /// invalid SessionID
    InvalidSessionID,
    /// error while serializing or deserializing or invalid message data length
    InvalidMessage,
    /// invalid state
    InvalidState,
    /// invalid commitment of rho1 value
    InvalidCommitment,
    /// invalid open
    InvalidOpen,
    /// Abort the protocol and ban other party
    AbortProtocolAndBanOtherParty,
}

/// Comparison errors
#[derive(Debug, Clone, Copy, PartialEq, Eq, Structural)]
pub enum CompError {
    /// invalid SessionID
    InvalidSessionID,
    /// invalid open
    InvalidOpen,
}

/// CFM errors
#[derive(Debug, Clone, Copy, PartialEq, Eq, Structural)]
pub enum CFMError {
    /// invalid SessionID
    InvalidSessionID,
    /// error while serializing or deserializing or invalid message data length
    InvalidMessage,
    /// invalid open
    InvalidOpen,
    /// error in PSIT protocol
    PSITError,
    /// abort protocol
    AbortProtocol,
    /// Comparison error
    Comparison,
    /// the modulus, the threshold, the amount or the pool of masks is out
    /// of range
    BadParameters,
}

} // verus!
