use vstd::prelude::*;

verus! {

/// Why a request was refused.
///
/// `Unauthenticated`: missing or unknown bearer credential; rejected before
/// any storage access. `InvalidUpload`: missing or unparseable content type;
/// rejected before any storage access. `NotFound`: no record matches the
/// deletion ticket and owner id (whether it never existed, belongs to another
/// owner, or was already consumed). `StorageUnavailable`: the record store or
/// the filesystem failed; surfaced as a server error, never retried here.
#[derive(Clone, Copy, Debug, PartialEq, Eq, Structural)]
pub enum ServiceError {
    Unauthenticated,
    InvalidUpload,
    NotFound,
    StorageUnavailable,
}

} // verus!
