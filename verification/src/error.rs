//! Why a request is refused, and the status that a reply carries.

use vstd::prelude::*;

verus! {

/// A request that breaks the tus protocol.
#[derive(Debug, PartialEq, Eq)]
pub enum ProtocolError {
    /// A header field that the request must have is absent or unreadable.
    MissingHeader(&'static str),
    /// A header field that must hold an unsigned integer holds something else.
    InvalidInt(&'static str),
    /// The client speaks another version of the protocol.
    UnsupportedTusVersion(String),
    /// The body of a write is not declared as an offset octet stream.
    InvalidContentType,
    /// The declared upload length contradicts what is known of the upload.
    InvalidLength,
    /// The metadata field does not follow its grammar.
    InvalidMetadata,
    /// The upload is larger than it may be.
    ErrMaxSizeExceeded,
    /// The store cannot be told the length of an upload after its creation.
    UnsupportedCreationDeferLengthExtension,
    /// The store cannot remove uploads.
    UnsupportedTerminationExtension,
}

/// Something that the server got wrong itself.
#[derive(Debug, PartialEq, Eq)]
pub enum InternalError {
    /// The store does not know how much of an upload it holds.
    OffsetMissing,
    /// The store does not know where the content of an upload is.
    StorageMissing,
    /// The content of an upload is kept in a storage of this other type.
    UnsupportedStorage(String),
    /// The body that a hook asked for could not be written.
    ResponseBody,
}

/// Why a request is not served.
#[derive(Debug, PartialEq, Eq)]
pub enum TusError {
    Protocol(ProtocolError),
    /// The write starts somewhere else than where the upload ends, or nobody
    /// knows where the upload ends.
    InvalidOffset,
    /// The upload has expired.
    FileNoLongerExists,
    Internal(InternalError),
}

/// The status of a reply.
#[derive(Debug, PartialEq, Eq)]
pub enum Status {
    /// A status code, chosen here or handed over by the store, the locker or a
    /// hook.
    Code(u16),
    /// The status code that stands for this error.
    Failure(TusError),
}

/// `200 OK`.
pub const STATUS_OK: u16 = 200;

/// `204 No Content`.
pub const STATUS_NO_CONTENT: u16 = 204;

/// `403 Forbidden`.
pub const STATUS_FORBIDDEN: u16 = 403;

impl InternalError {
    pub open spec fn spec_message(&self) -> Seq<char> {
        match *self {
            InternalError::OffsetMissing => "Upload file's offset value not found!"@,
            InternalError::StorageMissing => "upload storage info missing"@,
            InternalError::UnsupportedStorage(name) => "unsupported storage type: "@ + name@,
            InternalError::ResponseBody => "failed to write response body"@,
        }
    }

    /// A sentence for the logs.
    pub fn message(&self) -> (text: String)
        ensures
            text@ == self.spec_message(),
    {
        match self {
            InternalError::OffsetMissing => "Upload file's offset value not found!".to_owned(),
            InternalError::StorageMissing => "upload storage info missing".to_owned(),
            InternalError::UnsupportedStorage(name) => {
                let text = "unsupported storage type: ".to_owned();
                text.concat(name.as_str())
            },
            InternalError::ResponseBody => "failed to write response body".to_owned(),
        }
    }
}

/// The sentence on a storage that cannot be read names the storage.
pub proof fn lemma_message_names_storage(name: String)
    ensures
        InternalError::UnsupportedStorage(name).spec_message() == "unsupported storage type: "@
            + name@,
{
}

} // verus!
