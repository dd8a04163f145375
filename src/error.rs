use vstd::prelude::*;

verus! {

/// The error taxonomy of the protocol.
#[derive(Debug, Clone, Copy, PartialEq, Eq, Structural)]
pub enum Error {
    /// The global phase does not admit the operation.
    ProtocolViolation,
    /// The acting participant has not entered.
    NotEntered,
    /// The chosen public key never entered.
    TargetNotFound,
    /// The chosen public key already has a chooser.
    AlreadyChosen,
    /// Nobody has chosen the participant.
    NotChosen,
    /// A record that a query looks for does not exist.
    NotFound,
    /// A derived secret did not give a valid plaintext.
    DecryptionFailed,
    /// A key, signature or key exchange was malformed.
    CryptoError,
    /// The record store failed to upload or to make a deal.
    StorageError,
    /// The record store never confirmed within the polling budget.
    StorageTimeout,
    /// Bytes that do not encode a transaction, or text that is not hex.
    SerializationError,
}

/// The taxonomy label under which an error is shown to a user.
pub open spec fn label_of(e: Error) -> &'static str {
    match e {
        Error::ProtocolViolation => "ProtocolViolation",
        Error::NotEntered => "NotEntered",
        Error::TargetNotFound => "TargetNotFound",
        Error::AlreadyChosen => "AlreadyChosen",
        Error::NotChosen => "NotChosen",
        Error::NotFound => "NotFound",
        Error::DecryptionFailed => "DecryptionFailed",
        Error::CryptoError => "CryptoError",
        Error::StorageError => "StorageError",
        Error::StorageTimeout => "StorageTimeout",
        Error::SerializationError => "SerializationError",
    }
}

/// The detail shown after the label.
pub open spec fn detail_of(e: Error) -> &'static str {
    match e {
        Error::ProtocolViolation => "the protocol's phase or rules do not admit this action",
        Error::NotEntered => "the acting participant has not entered",
        Error::TargetNotFound => "the chosen public key never entered",
        Error::AlreadyChosen => "the chosen public key already has a Secret Santa",
        Error::NotChosen => "nobody has chosen this participant",
        Error::NotFound => "no such record exists",
        Error::DecryptionFailed => "the derived secret does not give a valid plaintext",
        Error::CryptoError => "a key, signature or key exchange is malformed",
        Error::StorageError => "the record store failed to store the record",
        Error::StorageTimeout => "the record store did not confirm the record in time",
        Error::SerializationError => "the bytes are not a valid encoding",
    }
}

impl Error {
    /// The taxonomy label under which the error is shown to a user.
    pub fn label(&self) -> (r: &'static str)
        ensures
            r == label_of(*self),
    {
        match self {
            Error::ProtocolViolation => "ProtocolViolation",
            Error::NotEntered => "NotEntered",
            Error::TargetNotFound => "TargetNotFound",
            Error::AlreadyChosen => "AlreadyChosen",
            Error::NotChosen => "NotChosen",
            Error::NotFound => "NotFound",
            Error::DecryptionFailed => "DecryptionFailed",
            Error::CryptoError => "CryptoError",
            Error::StorageError => "StorageError",
            Error::StorageTimeout => "StorageTimeout",
            Error::SerializationError => "SerializationError",
        }
    }

    /// The detail string shown after the label.
    pub fn detail(&self) -> (r: &'static str)
        ensures
            r == detail_of(*self),
    {
        match self {
            Error::ProtocolViolation => "the protocol's phase or rules do not admit this action",
            Error::NotEntered => "the acting participant has not entered",
            Error::TargetNotFound => "the chosen public key never entered",
            Error::AlreadyChosen => "the chosen public key already has a Secret Santa",
            Error::NotChosen => "nobody has chosen this participant",
            Error::NotFound => "no such record exists",
            Error::DecryptionFailed => "the derived secret does not give a valid plaintext",
            Error::CryptoError => "a key, signature or key exchange is malformed",
            Error::StorageError => "the record store failed to store the record",
            Error::StorageTimeout => "the record store did not confirm the record in time",
            Error::SerializationError => "the bytes are not a valid encoding",
        }
    }
}

} // verus!
