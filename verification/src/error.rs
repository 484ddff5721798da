//! Structured error taxonomy.
//!
//! Every failure surfaced by the core maps to exactly one of these categories.
//! The management layer translates them into wire status codes without leaking
//! internal detail.
use vstd::prelude::*;

verus! {

/// Error categories exposed by the core.
#[derive(Debug, Clone, Copy, PartialEq, Eq, Structural, Hash)]
#[non_exhaustive]
pub enum CoreError {
    /// The command itself is malformed or not well formed.
    InvalidCommand,
    /// The command is well formed but not known to this firmware.
    UnsupportedCommand,
    /// A requested feature is not present in the declared capabilities.
    InvalidCapability,
    /// A configuration value failed validation.
    InvalidConfiguration,
    /// The requested transition is not legal from the current state.
    InvalidState,
    /// The caller is not permitted to perform the operation.
    Unauthorized,
    /// Persistent storage failed.
    StorageError,
    /// Cryptographic verification failed.
    CryptoError,
    /// Firmware image or update package failed verification.
    FirmwareError,
    /// The wire protocol was violated.
    ProtocolError,
}

impl CoreError {
    /// The wire code of each category.
    pub open spec fn spec_code(self) -> u8 {
        match self {
            CoreError::InvalidCommand => 0x01,
            CoreError::UnsupportedCommand => 0x02,
            CoreError::InvalidCapability => 0x03,
            CoreError::InvalidConfiguration => 0x04,
            CoreError::InvalidState => 0x05,
            CoreError::Unauthorized => 0x06,
            CoreError::StorageError => 0x07,
            CoreError::CryptoError => 0x08,
            CoreError::FirmwareError => 0x09,
            CoreError::ProtocolError => 0x0A,
        }
    }

    /// The human-readable name of each category.
    pub open spec fn spec_name(self) -> Seq<char> {
        match self {
            CoreError::InvalidCommand => "invalid command"@,
            CoreError::UnsupportedCommand => "unsupported command"@,
            CoreError::InvalidCapability => "invalid capability"@,
            CoreError::InvalidConfiguration => "invalid configuration"@,
            CoreError::InvalidState => "invalid state"@,
            CoreError::Unauthorized => "unauthorized"@,
            CoreError::StorageError => "storage error"@,
            CoreError::CryptoError => "crypto error"@,
            CoreError::FirmwareError => "firmware error"@,
            CoreError::ProtocolError => "protocol error"@,
        }
    }

    /// Stable wire code for the management status field.
    ///
    /// These values are part of the protocol contract and must not be
    /// renumbered once released.
    #[must_use]
    pub fn code(self) -> (r: u8)
        ensures
            r == self.spec_code(),
    {
        match self {
            CoreError::InvalidCommand => 0x01,
            CoreError::UnsupportedCommand => 0x02,
            CoreError::InvalidCapability => 0x03,
            CoreError::InvalidConfiguration => 0x04,
            CoreError::InvalidState => 0x05,
            CoreError::Unauthorized => 0x06,
            CoreError::StorageError => 0x07,
            CoreError::CryptoError => 0x08,
            CoreError::FirmwareError => 0x09,
            CoreError::ProtocolError => 0x0A,
        }
    }

    /// Short, non-sensitive human-readable name.
    #[must_use]
    pub fn as_str(self) -> (r: &'static str)
        ensures
            r@ == self.spec_name(),
    {
        match self {
            CoreError::InvalidCommand => "invalid command",
            CoreError::UnsupportedCommand => "unsupported command",
            CoreError::InvalidCapability => "invalid capability",
            CoreError::InvalidConfiguration => "invalid configuration",
            CoreError::InvalidState => "invalid state",
            CoreError::Unauthorized => "unauthorized",
            CoreError::StorageError => "storage error",
            CoreError::CryptoError => "crypto error",
            CoreError::FirmwareError => "firmware error",
            CoreError::ProtocolError => "protocol error",
        }
    }
}

/// Convenience alias for fallible core operations.
pub type CoreResult<T> = Result<T, CoreError>;

/// Every failure maps to exactly one wire code, and none to the code `0`.
pub proof fn codes_are_distinct(a: CoreError, b: CoreError)
    ensures
        a.spec_code() == b.spec_code() <==> a == b,
        a.spec_code() != 0,
{
}

} // verus!
