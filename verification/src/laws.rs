//! Server-wide guarantees, proved over the pipeline's transition
//! relation.
//!
//! Each lemma here states one promise of the server as a whole —
//! across several pipeline steps where need be — in terms of the same
//! spec functions the pipeline's contracts use.

use vstd::prelude::*;
use vstd::utf8::encode_utf8;
use vstd::utf8::is_ascii_chars;
use vstd::utf8::is_ascii_chars_encode_utf8;
use crate::errors::ServeError;
use crate::handler::FsAction;
use crate::handler::FsOutcome;
use crate::handler::HandlerState;
use crate::handler::Step;
use crate::handler::spec_step;
use crate::html::spec_directory_listing_html;
use crate::html::spec_html_boilerplate;
use crate::resolve::spec_is_path_prefix;
use crate::response::spec_error_response;
use crate::response::spec_ok_response;

verus! {

/// A request whose resolved path escapes the base directory is
/// answered with the 403 response — with that response's exact bytes,
/// so never a 200 and never a 500 — and the cache is untouched.
pub proof fn lemma_traversal_rejected(
    base: Vec<u8>,
    request_path: Vec<u8>,
    full: Vec<u8>,
    m0: Map<Seq<u8>, (Seq<u8>, u64)>,
    r: Step,
    m1: Map<Seq<u8>, (Seq<u8>, u64)>,
)
    requires
        !spec_is_path_prefix(base@, full@),
        spec_step(
            HandlerState::ResolvingFull { base, request_path },
            FsOutcome::Path(Ok(full)),
            m0,
            r,
            m1,
        ),
    ensures
        r matches Step::Done { response } && response@ == spec_error_response(
            ServeError::Permission,
        ),
        forall|body: Seq<u8>| spec_error_response(ServeError::Permission) != spec_ok_response(body),
        spec_error_response(ServeError::Permission) != spec_error_response(
            ServeError::Unclassified,
        ),
        m1 == m0,
{
    assert forall|body: Seq<u8>|
        spec_error_response(ServeError::Permission) != spec_ok_response(body) by {
        lemma_forbidden_status_byte(body);
    }
    lemma_forbidden_status_byte(Seq::empty());
}

/// The 403 response's bytes differ from every 200 response's and from
/// the 500 response's: the first byte after the protocol prefix reads
/// `4`, theirs `2` and `5`.
proof fn lemma_forbidden_status_byte(body: Seq<u8>)
    ensures
        spec_error_response(ServeError::Permission) != spec_ok_response(body),
        spec_error_response(ServeError::Permission) != spec_error_response(
            ServeError::Unclassified,
        ),
{
    reveal_strlit("HTTP/1.0 ");
    reveal_strlit("403 Forbidden");
    reveal_strlit("200 OK");
    reveal_strlit("500 Internal Server Error");
    assert(is_ascii_chars("HTTP/1.0 "@));
    assert(is_ascii_chars("403 Forbidden"@));
    assert(is_ascii_chars("200 OK"@));
    assert(is_ascii_chars("500 Internal Server Error"@));
    is_ascii_chars_encode_utf8("HTTP/1.0 "@);
    is_ascii_chars_encode_utf8("403 Forbidden"@);
    is_ascii_chars_encode_utf8("200 OK"@);
    is_ascii_chars_encode_utf8("500 Internal Server Error"@);
    assert(encode_utf8("HTTP/1.0 "@).len() == 9);
    assert(spec_error_response(ServeError::Permission)[9] == 52u8);
    assert(spec_ok_response(body)[9] == 50u8);
    assert(spec_error_response(ServeError::Unclassified)[9] == 53u8);
}

/// Serving a loaded body stores it in the cache, and a second request
/// that finds the file's timestamp unchanged is answered from the
/// cache: the same body, byte for byte, directly — no reload is asked
/// for — and the cache does not change again.
pub proof fn lemma_second_request_served_from_cache(
    full_path: Vec<u8>,
    body: Vec<u8>,
    ts: u64,
    revisited: Vec<u8>,
    request_path: Vec<u8>,
    m0: Map<Seq<u8>, (Seq<u8>, u64)>,
    r1: Step,
    m1: Map<Seq<u8>, (Seq<u8>, u64)>,
    r2: Step,
    m2: Map<Seq<u8>, (Seq<u8>, u64)>,
)
    requires
        revisited@ == full_path@,
        spec_step(
            HandlerState::StoringEntry { full_path, body },
            FsOutcome::Timestamp(Ok(ts)),
            m0,
            r1,
            m1,
        ),
        spec_step(
            HandlerState::CheckingCache { full_path: revisited, request_path },
            FsOutcome::Timestamp(Ok(ts)),
            m1,
            r2,
            m2,
        ),
    ensures
        r1 matches Step::Done { response } && response@ == spec_ok_response(body@),
        r2 matches Step::Done { response } && response@ == spec_ok_response(body@),
        m2 == m1,
{
    assert(m1.contains_key(revisited@));
    assert(m1[revisited@] == (body@, ts));
}

/// A cache entry whose file changed on disk is not served: the
/// validation with the new timestamp asks for a reload instead, and
/// once the reload stores the new body, the response carries exactly
/// that new content.
pub proof fn lemma_changed_file_served_fresh(
    full_path: Vec<u8>,
    request_path: Vec<u8>,
    new_ts: u64,
    reloaded: Vec<u8>,
    new_body: Vec<u8>,
    store_ts: u64,
    m0: Map<Seq<u8>, (Seq<u8>, u64)>,
    r1: Step,
    m1: Map<Seq<u8>, (Seq<u8>, u64)>,
    r2: Step,
    m2: Map<Seq<u8>, (Seq<u8>, u64)>,
)
    requires
        m0.contains_key(full_path@),
        m0[full_path@].1 != new_ts,
        reloaded@ == full_path@,
        spec_step(
            HandlerState::CheckingCache { full_path, request_path },
            FsOutcome::Timestamp(Ok(new_ts)),
            m0,
            r1,
            m1,
        ),
        spec_step(
            HandlerState::StoringEntry { full_path: reloaded, body: new_body },
            FsOutcome::Timestamp(Ok(store_ts)),
            m1,
            r2,
            m2,
        ),
    ensures
        m1 == m0,
        r1 matches Step::Ask { action: FsAction::Exists { path }, .. } && path@ == full_path@,
        r2 matches Step::Done { response } && response@ == spec_ok_response(new_body@),
        m2 == m0.insert(full_path@, (new_body@, store_ts)),
{
}

/// A request for a missing path is answered with the 404 response and
/// creates no cache entry.
pub proof fn lemma_missing_path_leaves_cache(
    full_path: Vec<u8>,
    request_path: Vec<u8>,
    m0: Map<Seq<u8>, (Seq<u8>, u64)>,
    r: Step,
    m1: Map<Seq<u8>, (Seq<u8>, u64)>,
)
    requires
        spec_step(
            HandlerState::CheckingPresence { full_path, request_path },
            FsOutcome::Presence(false),
            m0,
            r,
            m1,
        ),
    ensures
        r matches Step::Done { response } && response@ == spec_error_response(
            ServeError::NotFound,
        ),
        m1 == m0,
{
}

/// Listing a directory without entries yields the page around the
/// empty-directory placeholder, not a page around an empty list.
pub proof fn lemma_empty_directory_placeholder(path: Seq<u8>, entries: Seq<Vec<u8>>)
    requires
        entries.len() == 0,
    ensures
        spec_directory_listing_html(path, entries) == spec_html_boilerplate(
            encode_utf8("Index of: "@) + path,
            encode_utf8("<p>It's empty.</p>"@),
        ),
{
}

} // verus!
