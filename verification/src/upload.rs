//! What a store knows of an upload, and what it can do.

use vstd::prelude::*;

use crate::expiration::ExpirationPolicy;
use crate::metadata::Metadata;

verus! {

/// Where the content of an upload is.
#[derive(Debug)]
pub struct StorageInfo {
    /// What sort of storage it is.
    pub kind: String,
    pub path: String,
}

/// What a store knows of an upload.
#[derive(Debug)]
pub struct UploadInfo {
    pub id: String,
    /// How long the upload will be, where that is known.
    pub size: Option<u64>,
    /// How much of the upload is there, where that is known.
    pub offset: Option<u64>,
    pub metadata: Option<Metadata>,
    pub storage: Option<StorageInfo>,
    /// When the upload was created, in the format of RFC 3339.
    pub creation_date: String,
}

/// What a store can do.
#[derive(Clone, Copy, Debug, PartialEq, Eq, Structural)]
pub struct StoreCapabilities {
    /// Whether it can be told the length of an upload after its creation.
    pub creation_defer_length: bool,
    /// Whether it can remove uploads.
    pub termination: bool,
    pub expiration: ExpirationPolicy,
}

/// Why a request cannot be answered at all.
#[derive(Clone, Copy, Debug, PartialEq, Eq, Structural)]
pub enum Fault {
    /// The moment at which the upload expires cannot be told.
    ExpirationOverflow,
    /// The upload would end beyond what can be counted.
    OffsetOverflow,
    /// A value of the metadata is too long for a header field.
    MetadataTooLong,
    /// A key of the metadata cannot stand in a header field.
    MetadataUnprintable,
}

} // verus!
