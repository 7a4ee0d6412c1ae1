//! The request handling pipeline.
//!
//! A request is served in stages: parse the path, canonicalize the
//! base directory and the joined path, confine the result to the base,
//! consult the cache, load the file or synthesize a directory listing,
//! record the page in the cache, and answer. The filesystem itself
//! stays outside the library, so the pipeline runs as a step machine:
//! each step either finishes with the response bytes or asks the
//! caller for one filesystem operation, naming the state to resume
//! from. [`handle_request_start`] takes the raw request, and
//! [`handle_request`] consumes one filesystem outcome at a time; both
//! say exactly which response or which next question every input
//! produces, and that only a successful load ever adds a cache entry.

use vstd::prelude::*;
use vstd::slice::slice_to_vec;
use crate::cache::Cache;
use crate::cache::CacheTable;
use crate::cache::get_content_from_cache;
use crate::cache::spec_cache_lookup;
use crate::errors::IoErrorKind;
use crate::errors::ServeError;
use crate::errors::classify_fs_error;
use crate::errors::spec_classify_fs_error;
use crate::html::directory_listing_html;
use crate::html::spec_directory_listing_html;
use crate::parse::parse_request;
use crate::parse::spec_has_request_path;
use crate::parse::spec_request_path;
use crate::resolve::join_path;
use crate::resolve::prevent_directory_transversal;
use crate::resolve::sanitize_request_path;
use crate::resolve::spec_is_path_prefix;
use crate::resolve::spec_join_path;
use crate::resolve::spec_sanitize_request_path;
use crate::response::error_response;
use crate::response::ok_response;
use crate::response::spec_error_response;
use crate::response::spec_ok_response;

verus! {

/// One filesystem operation the pipeline asks its caller to perform.
pub enum FsAction {
    /// Canonicalize a path.
    Canonicalize { path: Vec<u8> },
    /// Read a path's modification timestamp, in seconds since the epoch.
    Stat { path: Vec<u8> },
    /// Test whether a path exists.
    Exists { path: Vec<u8> },
    /// Test whether a path is a regular file.
    IsFile { path: Vec<u8> },
    /// Read a regular file's bytes.
    ReadFile { path: Vec<u8> },
    /// Enumerate a directory's entry names, dropping names that are
    /// not UTF-8.
    ListDir { path: Vec<u8> },
}

/// What the filesystem answered.
pub enum FsOutcome {
    /// The canonicalized path, or why there is none.
    Path(Result<Vec<u8>, IoErrorKind>),
    /// The modification timestamp, or why the stat failed.
    Timestamp(Result<u64, IoErrorKind>),
    /// Whether the path exists.
    Presence(bool),
    /// Whether the path is a regular file.
    FileKind(bool),
    /// The file's bytes, or why the read failed.
    FileContent(Result<Vec<u8>, IoErrorKind>),
    /// The directory's entry names, or why the enumeration failed.
    DirEntries(Result<Vec<Vec<u8>>, IoErrorKind>),
}

/// Where the pipeline stands while it waits for a filesystem answer.
pub enum HandlerState {
    /// Waiting for the canonicalized base directory.
    ResolvingBase { request_path: Vec<u8> },
    /// Waiting for the canonicalized full path.
    ResolvingFull { base: Vec<u8>, request_path: Vec<u8> },
    /// Waiting for the fresh timestamp that validates a cache entry.
    CheckingCache { full_path: Vec<u8>, request_path: Vec<u8> },
    /// Waiting to learn whether the path exists.
    CheckingPresence { full_path: Vec<u8>, request_path: Vec<u8> },
    /// Waiting to learn whether the path is a regular file.
    CheckingKind { full_path: Vec<u8>, request_path: Vec<u8> },
    /// Waiting for the file's bytes.
    ReadingFile { full_path: Vec<u8> },
    /// Waiting for the directory's entry names.
    ListingDir { full_path: Vec<u8>, request_path: Vec<u8> },
    /// Waiting for the timestamp recorded with the freshly loaded body.
    StoringEntry { full_path: Vec<u8>, body: Vec<u8> },
}

/// One step's result: the finished response, or the next filesystem
/// question together with the state to resume from.
pub enum Step {
    Ask { action: FsAction, state: HandlerState },
    Done { response: Vec<u8> },
}

/// True when the outcome answers the question the state is waiting
/// for; the reactor hands back exactly what was asked.
pub open spec fn spec_expected_outcome(state: HandlerState, outcome: FsOutcome) -> bool {
    match state {
        HandlerState::ResolvingBase { .. } => outcome is Path,
        HandlerState::ResolvingFull { .. } => outcome is Path,
        HandlerState::CheckingCache { .. } => outcome is Timestamp,
        HandlerState::CheckingPresence { .. } => outcome is Presence,
        HandlerState::CheckingKind { .. } => outcome is FileKind,
        HandlerState::ReadingFile { .. } => outcome is FileContent,
        HandlerState::ListingDir { .. } => outcome is DirEntries,
        HandlerState::StoringEntry { .. } => outcome is Timestamp,
    }
}

/// The transition relation of the pipeline: given the waiting state,
/// the filesystem's answer and the cache before the step, it fixes the
/// step's result and the cache after it.
pub open spec fn spec_step(
    state: HandlerState,
    outcome: FsOutcome,
    m0: Map<Seq<u8>, (Seq<u8>, u64)>,
    r: Step,
    m1: Map<Seq<u8>, (Seq<u8>, u64)>,
) -> bool {
    match (state, outcome) {
        (HandlerState::ResolvingBase { request_path }, FsOutcome::Path(res)) => {
            &&& m1 == m0
            &&& match res {
                Ok(base) => r matches Step::Ask {
                    action: FsAction::Canonicalize { path },
                    state: HandlerState::ResolvingFull { base: b, request_path: q },
                } && path@ == spec_join_path(base@, spec_sanitize_request_path(request_path@))
                    && b@ == base@ && q@ == request_path@,
                Err(kind) => r matches Step::Done { response } && response@ == spec_error_response(
                    spec_classify_fs_error(kind),
                ),
            }
        },
        (HandlerState::ResolvingFull { base, request_path }, FsOutcome::Path(res)) => {
            &&& m1 == m0
            &&& match res {
                Ok(full) => {
                    if spec_is_path_prefix(base@, full@) {
                        if m0.contains_key(full@) {
                            r matches Step::Ask {
                                action: FsAction::Stat { path },
                                state: HandlerState::CheckingCache { full_path, request_path: q },
                            } && path@ == full@ && full_path@ == full@ && q@ == request_path@
                        } else {
                            r matches Step::Ask {
                                action: FsAction::Exists { path },
                                state: HandlerState::CheckingPresence {
                                    full_path,
                                    request_path: q,
                                },
                            } && path@ == full@ && full_path@ == full@ && q@ == request_path@
                        }
                    } else {
                        r matches Step::Done { response } && response@ == spec_error_response(
                            ServeError::Permission,
                        )
                    }
                },
                Err(kind) => r matches Step::Done { response } && response@ == spec_error_response(
                    spec_classify_fs_error(kind),
                ),
            }
        },
        (HandlerState::CheckingCache { full_path, request_path }, FsOutcome::Timestamp(res)) => {
            let looked = spec_cache_lookup(m0, full_path@, res);
            &&& m1 == looked.1
            &&& match looked.0 {
                Ok(hit) => match hit {
                    Some(body) => r matches Step::Done { response } && response@
                        == spec_ok_response(body),
                    None => r matches Step::Ask {
                        action: FsAction::Exists { path },
                        state: HandlerState::CheckingPresence { full_path: f, request_path: q },
                    } && path@ == full_path@ && f@ == full_path@ && q@ == request_path@,
                },
                Err(e) => r matches Step::Done { response } && response@ == spec_error_response(e),
            }
        },
        (HandlerState::CheckingPresence { full_path, request_path }, FsOutcome::Presence(
            there,
        )) => {
            &&& m1 == m0
            &&& if there {
                r matches Step::Ask {
                    action: FsAction::IsFile { path },
                    state: HandlerState::CheckingKind { full_path: f, request_path: q },
                } && path@ == full_path@ && f@ == full_path@ && q@ == request_path@
            } else {
                r matches Step::Done { response } && response@ == spec_error_response(
                    ServeError::NotFound,
                )
            }
        },
        (HandlerState::CheckingKind { full_path, request_path }, FsOutcome::FileKind(regular)) => {
            &&& m1 == m0
            &&& if regular {
                r matches Step::Ask {
                    action: FsAction::ReadFile { path },
                    state: HandlerState::ReadingFile { full_path: f },
                } && path@ == full_path@ && f@ == full_path@
            } else {
                r matches Step::Ask {
                    action: FsAction::ListDir { path },
                    state: HandlerState::ListingDir { full_path: f, request_path: q },
                } && path@ == full_path@ && f@ == full_path@ && q@ == request_path@
            }
        },
        (HandlerState::ReadingFile { full_path }, FsOutcome::FileContent(res)) => {
            &&& m1 == m0
            &&& match res {
                Ok(bytes) => r matches Step::Ask {
                    action: FsAction::Stat { path },
                    state: HandlerState::StoringEntry { full_path: f, body },
                } && path@ == full_path@ && f@ == full_path@ && body@ == bytes@,
                Err(kind) => r matches Step::Done { response } && response@ == spec_error_response(
                    spec_classify_fs_error(kind),
                ),
            }
        },
        (HandlerState::ListingDir { full_path, request_path }, FsOutcome::DirEntries(res)) => {
            &&& m1 == m0
            &&& match res {
                Ok(names) => r matches Step::Ask {
                    action: FsAction::Stat { path },
                    state: HandlerState::StoringEntry { full_path: f, body },
                } && path@ == full_path@ && f@ == full_path@ && body@
                    == spec_directory_listing_html(request_path@, names@),
                Err(kind) => r matches Step::Done { response } && response@ == spec_error_response(
                    spec_classify_fs_error(kind),
                ),
            }
        },
        (HandlerState::StoringEntry { full_path, body }, FsOutcome::Timestamp(res)) => {
            match res {
                Ok(ts) => {
                    &&& m1 == m0.insert(full_path@, (body@, ts))
                    &&& r matches Step::Done { response } && response@ == spec_ok_response(body@)
                },
                Err(kind) => {
                    &&& m1 == m0
                    &&& r matches Step::Done { response } && response@ == spec_error_response(
                        spec_classify_fs_error(kind),
                    )
                },
            }
        },
        _ => false,
    }
}

/// Begins a request: a well-formed request asks for the canonicalized
/// base directory; anything else is answered 400 at once. The cache is
/// not involved.
pub fn handle_request_start(data: Vec<u8>, base_dir: Vec<u8>) -> (r: Step)
    ensures
        spec_has_request_path(data@) ==> (r matches Step::Ask {
            action: FsAction::Canonicalize { path },
            state: HandlerState::ResolvingBase { request_path },
        } && path@ == base_dir@ && request_path@ == spec_request_path(data@)),
        !spec_has_request_path(data@) ==> (r matches Step::Done { response } && response@
            == spec_error_response(ServeError::Protocol)),
{
    match parse_request(data) {
        Ok(request_path) => Step::Ask {
            action: FsAction::Canonicalize { path: base_dir },
            state: HandlerState::ResolvingBase { request_path },
        },
        Err(e) => Step::Done { response: error_response(&e) },
    }
}

/// Drives the pipeline one step: consumes the filesystem's answer to
/// the question the state was waiting for, and produces the response
/// or the next question. Only a successful load changes the cache —
/// by inserting the loaded body under the resolved path — except that
/// a cache validation finding the file gone evicts its entry.
pub fn handle_request(state: HandlerState, outcome: FsOutcome, caches: &mut CacheTable) -> (r:
    Step)
    requires
        spec_expected_outcome(state, outcome),
    ensures
        spec_step(state, outcome, old(caches)@, r, final(caches)@),
{
    match (state, outcome) {
        (HandlerState::ResolvingBase { request_path }, FsOutcome::Path(res)) => match res {
            Ok(base) => {
                let rel = sanitize_request_path(&request_path);
                let joined = join_path(&base, &rel);
                Step::Ask {
                    action: FsAction::Canonicalize { path: joined },
                    state: HandlerState::ResolvingFull { base, request_path },
                }
            },
            Err(kind) => Step::Done { response: error_response(&classify_fs_error(&kind)) },
        },
        (HandlerState::ResolvingFull { base, request_path }, FsOutcome::Path(res)) => match res {
            Ok(full) => {
                match prevent_directory_transversal(&base, &full) {
                    Ok(full_path) => {
                        if caches.contains(&full_path) {
                            let path = slice_to_vec(full_path.as_slice());
                            Step::Ask {
                                action: FsAction::Stat { path },
                                state: HandlerState::CheckingCache { full_path, request_path },
                            }
                        } else {
                            let path = slice_to_vec(full_path.as_slice());
                            Step::Ask {
                                action: FsAction::Exists { path },
                                state: HandlerState::CheckingPresence { full_path, request_path },
                            }
                        }
                    },
                    Err(e) => Step::Done { response: error_response(&e) },
                }
            },
            Err(kind) => Step::Done { response: error_response(&classify_fs_error(&kind)) },
        },
        (HandlerState::CheckingCache { full_path, request_path }, FsOutcome::Timestamp(res)) => {
            match get_content_from_cache(caches, &full_path, res) {
                Ok(Some(body)) => Step::Done { response: ok_response(body) },
                Ok(None) => {
                    let path = slice_to_vec(full_path.as_slice());
                    Step::Ask {
                        action: FsAction::Exists { path },
                        state: HandlerState::CheckingPresence { full_path, request_path },
                    }
                },
                Err(e) => Step::Done { response: error_response(&e) },
            }
        },
        (HandlerState::CheckingPresence { full_path, request_path }, FsOutcome::Presence(
            there,
        )) => {
            if there {
                let path = slice_to_vec(full_path.as_slice());
                Step::Ask {
                    action: FsAction::IsFile { path },
                    state: HandlerState::CheckingKind { full_path, request_path },
                }
            } else {
                Step::Done { response: error_response(&ServeError::NotFound) }
            }
        },
        (HandlerState::CheckingKind { full_path, request_path }, FsOutcome::FileKind(regular)) => {
            if regular {
                let path = slice_to_vec(full_path.as_slice());
                Step::Ask {
                    action: FsAction::ReadFile { path },
                    state: HandlerState::ReadingFile { full_path },
                }
            } else {
                let path = slice_to_vec(full_path.as_slice());
                Step::Ask {
                    action: FsAction::ListDir { path },
                    state: HandlerState::ListingDir { full_path, request_path },
                }
            }
        },
        (HandlerState::ReadingFile { full_path }, FsOutcome::FileContent(res)) => match res {
            Ok(bytes) => {
                let path = slice_to_vec(full_path.as_slice());
                Step::Ask {
                    action: FsAction::Stat { path },
                    state: HandlerState::StoringEntry { full_path, body: bytes },
                }
            },
            Err(kind) => Step::Done { response: error_response(&classify_fs_error(&kind)) },
        },
        (HandlerState::ListingDir { full_path, request_path }, FsOutcome::DirEntries(res)) => {
            match res {
                Ok(names) => {
                    let body = directory_listing_html(&request_path, &names);
                    let path = slice_to_vec(full_path.as_slice());
                    Step::Ask {
                        action: FsAction::Stat { path },
                        state: HandlerState::StoringEntry { full_path, body },
                    }
                },
                Err(kind) => Step::Done {
                    response: error_response(&classify_fs_error(&kind)),
                },
            }
        },
        (HandlerState::StoringEntry { full_path, body }, FsOutcome::Timestamp(res)) => match res {
            Ok(ts) => {
                let content = slice_to_vec(body.as_slice());
                caches.insert(full_path, Cache { content, modified_timestamp: ts });
                Step::Done { response: ok_response(body) }
            },
            Err(kind) => Step::Done { response: error_response(&classify_fs_error(&kind)) },
        },
        _ => {
            proof {
                assert(false);
            }
            Step::Done { response: Vec::new() }
        },
    }
}

} // verus!
