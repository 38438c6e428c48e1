//! Runtime error codes.
use vstd::prelude::*;
use vstd::std_specs::convert::FromSpecImpl;
use vstd::string::StringExecFns;

verus! {

/// Runtime error codes.
#[derive(Debug, Clone, PartialEq)]
pub enum ErrorCode {
    /// Error that was not yet mapped
    UnmappedError,
    /// File not found
    FileNotFound,
    /// KVS file read error
    KvsFileReadError,
    /// KVS hash file read error
    KvsHashFileReadError,
    /// JSON parser error
    JsonParserError,
    /// JSON generator error
    JsonGeneratorError,
    /// Physical storage failure
    PhysicalStorageFailure,
    /// Integrity corrupted
    IntegrityCorrupted,
    /// Validation failed
    ValidationFailed,
    /// Encryption failed
    EncryptionFailed,
    /// Resource is busy
    ResourceBusy,
    /// Out of storage space
    OutOfStorageSpace,
    /// Quota exceeded
    QuotaExceeded,
    /// Authentication failed
    AuthenticationFailed,
    /// Key not found
    KeyNotFound,
    /// Key has no default value
    KeyDefaultNotFound,
    /// Serialization failed
    SerializationFailed(String),
    /// Deserialization failed
    DeserializationFailed(String),
    /// Invalid snapshot ID
    InvalidSnapshotId,
    /// Invalid instance ID
    InvalidInstanceId,
    /// Conversion failed
    ConversionFailed,
    /// Mutex failed
    MutexLockFailed,
    /// Instance parameters mismatch
    InstanceParametersMismatch,
    /// No backend is registered under the name
    UnknownBackend,
    /// A backend is already registered under the name
    BackendAlreadyRegistered,
    /// The backend parameters are malformed
    InvalidBackendParameters,
}

/// `std::io::Error`, carried as an opaque value.
#[verifier::external_type_specification]
#[verifier::external_body]
pub struct ExIoError(std::io::Error);

/// `std::string::FromUtf8Error`, carried as an opaque value.
#[verifier::external_type_specification]
#[verifier::external_body]
pub struct ExFromUtf8Error(std::string::FromUtf8Error);

/// `core::array::TryFromSliceError`, carried as an opaque value.
#[verifier::external_type_specification]
#[verifier::external_body]
pub struct ExTryFromSliceError(core::array::TryFromSliceError);

/// Whether the kind of an I/O error is `std::io::ErrorKind::NotFound`.
pub uninterp spec fn io_error_is_not_found(cause: std::io::Error) -> bool;

/// `std::io::Error::kind`, compared with `ErrorKind::NotFound`: the result is a function of the
/// error alone, named by `io_error_is_not_found`.
#[verifier::external_body]
fn kind_is_not_found(cause: &std::io::Error) -> (r: bool)
    ensures
        r == io_error_is_not_found(*cause),
{
    matches!(cause.kind(), std::io::ErrorKind::NotFound)
}

impl From<std::io::Error> for ErrorCode {
    /// A missing file is `FileNotFound`; every other I/O error is `UnmappedError`.
    fn from(cause: std::io::Error) -> (r: Self) {
        if kind_is_not_found(&cause) {
            ErrorCode::FileNotFound
        } else {
            ErrorCode::UnmappedError
        }
    }
}

impl FromSpecImpl<std::io::Error> for ErrorCode {
    open spec fn obeys_from_spec() -> bool {
        true
    }

    open spec fn from_spec(cause: std::io::Error) -> Self {
        if io_error_is_not_found(cause) {
            ErrorCode::FileNotFound
        } else {
            ErrorCode::UnmappedError
        }
    }
}

impl From<std::string::FromUtf8Error> for ErrorCode {
    /// Bytes that are no UTF-8 are a failed conversion.
    fn from(cause: std::string::FromUtf8Error) -> (r: Self) {
        ErrorCode::ConversionFailed
    }
}

impl FromSpecImpl<std::string::FromUtf8Error> for ErrorCode {
    open spec fn obeys_from_spec() -> bool {
        true
    }

    open spec fn from_spec(cause: std::string::FromUtf8Error) -> Self {
        ErrorCode::ConversionFailed
    }
}

impl From<core::array::TryFromSliceError> for ErrorCode {
    /// A slice of the wrong length is a failed conversion.
    fn from(cause: core::array::TryFromSliceError) -> (r: Self) {
        ErrorCode::ConversionFailed
    }
}

impl FromSpecImpl<core::array::TryFromSliceError> for ErrorCode {
    open spec fn obeys_from_spec() -> bool {
        true
    }

    open spec fn from_spec(cause: core::array::TryFromSliceError) -> Self {
        ErrorCode::ConversionFailed
    }
}

impl From<Vec<u8>> for ErrorCode {
    /// Bytes handed back by a failed conversion are a failed conversion.
    fn from(cause: Vec<u8>) -> (r: Self) {
        ErrorCode::ConversionFailed
    }
}

impl FromSpecImpl<Vec<u8>> for ErrorCode {
    open spec fn obeys_from_spec() -> bool {
        true
    }

    open spec fn from_spec(cause: Vec<u8>) -> Self {
        ErrorCode::ConversionFailed
    }
}

impl ErrorCode {
    /// The text that names the error in diagnostics.
    pub open spec fn spec_describe(self) -> Seq<char> {
        match self {
            ErrorCode::UnmappedError => "ErrorCode::UnmappedError"@,
            ErrorCode::FileNotFound => "ErrorCode::FileNotFound"@,
            ErrorCode::KvsFileReadError => "ErrorCode::KvsFileReadError"@,
            ErrorCode::KvsHashFileReadError => "ErrorCode::KvsHashFileReadError"@,
            ErrorCode::JsonParserError => "ErrorCode::JsonParserError"@,
            ErrorCode::JsonGeneratorError => "ErrorCode::JsonGeneratorError"@,
            ErrorCode::PhysicalStorageFailure => "ErrorCode::PhysicalStorageFailure"@,
            ErrorCode::IntegrityCorrupted => "ErrorCode::IntegrityCorrupted"@,
            ErrorCode::ValidationFailed => "ErrorCode::ValidationFailed"@,
            ErrorCode::EncryptionFailed => "ErrorCode::EncryptionFailed"@,
            ErrorCode::ResourceBusy => "ErrorCode::ResourceBusy"@,
            ErrorCode::OutOfStorageSpace => "ErrorCode::OutOfStorageSpace"@,
            ErrorCode::QuotaExceeded => "ErrorCode::QuotaExceeded"@,
            ErrorCode::AuthenticationFailed => "ErrorCode::AuthenticationFailed"@,
            ErrorCode::KeyNotFound => "ErrorCode::KeyNotFound"@,
            ErrorCode::KeyDefaultNotFound => "ErrorCode::KeyDefaultNotFound"@,
            ErrorCode::SerializationFailed(msg) => "ErrorCode::SerializationFailed("@ + msg@
                + ")"@,
            ErrorCode::DeserializationFailed(msg) => "ErrorCode::DeserializationFailed("@ + msg@
                + ")"@,
            ErrorCode::InvalidSnapshotId => "ErrorCode::InvalidSnapshotId"@,
            ErrorCode::InvalidInstanceId => "ErrorCode::InvalidInstanceId"@,
            ErrorCode::ConversionFailed => "ErrorCode::ConversionFailed"@,
            ErrorCode::MutexLockFailed => "ErrorCode::MutexLockFailed"@,
            ErrorCode::InstanceParametersMismatch => "ErrorCode::InstanceParametersMismatch"@,
            ErrorCode::UnknownBackend => "ErrorCode::UnknownBackend"@,
            ErrorCode::BackendAlreadyRegistered => "ErrorCode::BackendAlreadyRegistered"@,
            ErrorCode::InvalidBackendParameters => "ErrorCode::InvalidBackendParameters"@,
        }
    }

    /// The text that names the error in diagnostics; a message is put in brackets behind the
    /// name.
    pub fn describe(&self) -> (r: String)
        ensures
            r@ == self.spec_describe(),
    {
        match self {
            ErrorCode::UnmappedError => String::from_str("ErrorCode::UnmappedError"),
            ErrorCode::FileNotFound => String::from_str("ErrorCode::FileNotFound"),
            ErrorCode::KvsFileReadError => String::from_str("ErrorCode::KvsFileReadError"),
            ErrorCode::KvsHashFileReadError => String::from_str("ErrorCode::KvsHashFileReadError"),
            ErrorCode::JsonParserError => String::from_str("ErrorCode::JsonParserError"),
            ErrorCode::JsonGeneratorError => String::from_str("ErrorCode::JsonGeneratorError"),
            ErrorCode::PhysicalStorageFailure => String::from_str(
                "ErrorCode::PhysicalStorageFailure",
            ),
            ErrorCode::IntegrityCorrupted => String::from_str("ErrorCode::IntegrityCorrupted"),
            ErrorCode::ValidationFailed => String::from_str("ErrorCode::ValidationFailed"),
            ErrorCode::EncryptionFailed => String::from_str("ErrorCode::EncryptionFailed"),
            ErrorCode::ResourceBusy => String::from_str("ErrorCode::ResourceBusy"),
            ErrorCode::OutOfStorageSpace => String::from_str("ErrorCode::OutOfStorageSpace"),
            ErrorCode::QuotaExceeded => String::from_str("ErrorCode::QuotaExceeded"),
            ErrorCode::AuthenticationFailed => String::from_str("ErrorCode::AuthenticationFailed"),
            ErrorCode::KeyNotFound => String::from_str("ErrorCode::KeyNotFound"),
            ErrorCode::KeyDefaultNotFound => String::from_str("ErrorCode::KeyDefaultNotFound"),
            ErrorCode::SerializationFailed(msg) => {
                let mut text = String::from_str("ErrorCode::SerializationFailed(");
                text.append(msg.as_str());
                text.append(")");
                text
            },
            ErrorCode::DeserializationFailed(msg) => {
                let mut text = String::from_str("ErrorCode::DeserializationFailed(");
                text.append(msg.as_str());
                text.append(")");
                text
            },
            ErrorCode::InvalidSnapshotId => String::from_str("ErrorCode::InvalidSnapshotId"),
            ErrorCode::InvalidInstanceId => String::from_str("ErrorCode::InvalidInstanceId"),
            ErrorCode::ConversionFailed => String::from_str("ErrorCode::ConversionFailed"),
            ErrorCode::MutexLockFailed => String::from_str("ErrorCode::MutexLockFailed"),
            ErrorCode::InstanceParametersMismatch => String::from_str(
                "ErrorCode::InstanceParametersMismatch",
            ),
            ErrorCode::UnknownBackend => String::from_str("ErrorCode::UnknownBackend"),
            ErrorCode::BackendAlreadyRegistered => String::from_str(
                "ErrorCode::BackendAlreadyRegistered",
            ),
            ErrorCode::InvalidBackendParameters => String::from_str(
                "ErrorCode::InvalidBackendParameters",
            ),
        }
    }
}

} // verus!
