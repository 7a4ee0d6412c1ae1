//! Error classification for the server core.
//!
//! The reactor and the filesystem report failures as an [`IoErrorKind`],
//! the library's own image of the platform error kinds the server cares
//! about. The request pipeline converts every failure into a
//! [`ServeError`], which picks the status line of the HTTP response.

use vstd::prelude::*;

verus! {

/// The platform error kinds the server distinguishes. Everything else
/// is `Other`.
#[derive(Clone, Copy, PartialEq, Eq, Structural, Debug)]
pub enum IoErrorKind {
    Interrupted,
    WouldBlock,
    PermissionDenied,
    NotFound,
    Other,
}

/// How a failed request is answered: each variant stands for one HTTP
/// error status. A malformed request is `Protocol` (400); a traversal
/// attempt caught by the root-prefix check is `Permission` (403) — no
/// other failure takes that class; a missing path is `NotFound` (404);
/// every other filesystem failure is `Unclassified` (500).
#[derive(Clone, Copy, PartialEq, Eq, Structural, Debug)]
pub enum ServeError {
    Protocol,
    Permission,
    NotFound,
    Unclassified,
}

/// True when the error means a blocking wait was interrupted by a signal:
/// the operation is retried, never surfaced.
pub fn interrupted(kind: &IoErrorKind) -> (r: bool)
    ensures
        r == (kind is Interrupted),
{
    *kind == IoErrorKind::Interrupted
}

/// True when the error means a non-blocking operation has nothing to do
/// yet: the reactor waits for the next readiness event.
pub fn would_block(kind: &IoErrorKind) -> (r: bool)
    ensures
        r == (kind is WouldBlock),
{
    *kind == IoErrorKind::WouldBlock
}

/// True when the error reports a permission failure.
pub fn permission_denied(kind: &IoErrorKind) -> (r: bool)
    ensures
        r == (kind is PermissionDenied),
{
    *kind == IoErrorKind::PermissionDenied
}

/// True when the error reports a missing path.
pub fn not_found(kind: &IoErrorKind) -> (r: bool)
    ensures
        r == (kind is NotFound),
{
    *kind == IoErrorKind::NotFound
}

/// The response class of a failed filesystem operation — a
/// canonicalization, stat, read or directory enumeration: a missing
/// path answers 404, anything else 500. No filesystem failure is ever
/// a 403: that class belongs to the traversal check alone.
pub open spec fn spec_classify_fs_error(kind: IoErrorKind) -> ServeError {
    match kind {
        IoErrorKind::NotFound => ServeError::NotFound,
        _ => ServeError::Unclassified,
    }
}

/// Classifies a failed filesystem operation.
pub fn classify_fs_error(kind: &IoErrorKind) -> (r: ServeError)
    ensures
        r == spec_classify_fs_error(*kind),
{
    if not_found(kind) {
        ServeError::NotFound
    } else {
        ServeError::Unclassified
    }
}

} // verus!
