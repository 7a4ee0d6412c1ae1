//! Path sandboxing.
//!
//! The request path is trimmed of leading separators (an empty path
//! defaults to `index.html`), joined onto the canonicalized base
//! directory, and — after the joined path has been canonicalized by the
//! caller — kept only when the base is still a component-wise prefix of
//! it. Paths are byte strings as the platform hands them out; the
//! prefix test models `Path::starts_with` on canonicalized absolute
//! paths, which never carry a trailing separator except the root.

use vstd::prelude::*;
use vstd::slice::slice_to_vec;
use vstd::utf8::encode_utf8;
use crate::errors::ServeError;
use crate::text::append_bytes;
use crate::text::append_str;

verus! {

/// The path separator byte, `/`.
pub open spec fn sep() -> u8 {
    47u8
}

/// `path` without its leading separator bytes.
pub open spec fn spec_strip_leading_slashes(path: Seq<u8>) -> Seq<u8>
    decreases path.len(),
{
    if path.len() > 0 && path[0] == sep() {
        spec_strip_leading_slashes(path.drop_first())
    } else {
        path
    }
}

/// The request path as it is looked up under the base directory:
/// leading separators go, and an empty remainder defaults to
/// `index.html`.
pub open spec fn spec_sanitize_request_path(path: Seq<u8>) -> Seq<u8> {
    let stripped = spec_strip_leading_slashes(path);
    if stripped.len() == 0 {
        encode_utf8("index.html"@)
    } else {
        stripped
    }
}

proof fn lemma_strip_skip(s: Seq<u8>, i: int)
    requires
        0 <= i <= s.len(),
        forall|j: int| 0 <= j < i ==> s[j] == sep(),
    ensures
        spec_strip_leading_slashes(s) == spec_strip_leading_slashes(s.skip(i)),
    decreases i,
{
    if i > 0 {
        assert(s.drop_first() =~= s.skip(1));
        lemma_strip_skip(s.skip(1), i - 1);
        assert(s.skip(1).skip(i - 1) =~= s.skip(i));
    } else {
        assert(s.skip(0) =~= s);
    }
}

/// Trims leading separators from the request path and substitutes
/// `index.html` when nothing is left.
pub fn sanitize_request_path(path: &Vec<u8>) -> (r: Vec<u8>)
    ensures
        r@ == spec_sanitize_request_path(path@),
{
    let mut i: usize = 0;
    while i < path.len() && path[i] == 47u8
        invariant
            i <= path@.len(),
            forall|j: int| 0 <= j < i ==> path@[j] == sep(),
        decreases path@.len() - i,
    {
        i = i + 1;
    }
    proof {
        lemma_strip_skip(path@, i as int);
    }
    if i == path.len() {
        proof {
            assert(path@.skip(i as int) =~= Seq::<u8>::empty());
        }
        let mut fallback: Vec<u8> = Vec::new();
        append_str(&mut fallback, "index.html");
        fallback
    } else {
        let tail = slice_to_vec(vstd::slice::slice_subrange(path.as_slice(), i, path.len()));
        proof {
            assert(tail@ == spec_strip_leading_slashes(path@));
        }
        tail
    }
}

/// The joined path: the base, one separator unless the base already
/// ends in one, then the relative path. Models `Path::join` for a
/// non-empty absolute base and a relative remainder.
pub open spec fn spec_join_path(base: Seq<u8>, rel: Seq<u8>) -> Seq<u8> {
    if base.len() > 0 && base.last() == sep() {
        base + rel
    } else {
        base + encode_utf8("/"@) + rel
    }
}

/// Joins a sanitized request path onto the canonicalized base directory.
pub fn join_path(base: &Vec<u8>, rel: &Vec<u8>) -> (r: Vec<u8>)
    ensures
        r@ == spec_join_path(base@, rel@),
{
    let mut out = slice_to_vec(base.as_slice());
    if base.len() == 0 || base[base.len() - 1] != 47u8 {
        append_str(&mut out, "/");
    }
    append_bytes(&mut out, rel);
    proof {
        assert(out@ =~= spec_join_path(base@, rel@));
    }
    out
}

/// True when `base` names the same directory as, or an ancestor of,
/// `full`: `base` is a byte prefix and the next byte of `full`, if any,
/// starts a new component. Models `Path::starts_with` on canonicalized
/// absolute paths.
pub open spec fn spec_is_path_prefix(base: Seq<u8>, full: Seq<u8>) -> bool {
    &&& base.len() <= full.len()
    &&& full.subrange(0, base.len() as int) == base
    &&& {
        ||| full.len() == base.len()
        ||| (base.len() > 0 && base.last() == sep())
        ||| full[base.len() as int] == sep()
    }
}

/// Decides whether `base` is a component-wise prefix of `full`.
pub fn is_path_prefix(base: &Vec<u8>, full: &Vec<u8>) -> (r: bool)
    ensures
        r == spec_is_path_prefix(base@, full@),
{
    if base.len() > full.len() {
        return false;
    }
    let mut i: usize = 0;
    while i < base.len()
        invariant
            i <= base@.len() <= full@.len(),
            forall|j: int| 0 <= j < i ==> full@[j] == base@[j],
        decreases base@.len() - i,
    {
        if full[i] != base[i] {
            proof {
                assert(full@.subrange(0, base@.len() as int)[i as int] != base@[i as int]);
            }
            return false;
        }
        i = i + 1;
    }
    proof {
        assert(full@.subrange(0, base@.len() as int) =~= base@);
    }
    if full.len() == base.len() {
        true
    } else if base.len() > 0 && base[base.len() - 1] == 47u8 {
        true
    } else {
        full[base.len()] == 47u8
    }
}

/// Confines a resolved path to the base directory: the canonicalized
/// full path passes through unchanged when the canonicalized base is
/// still a prefix of it, and a directory-traversal attempt is answered
/// with the permission error, never anything else.
pub fn prevent_directory_transversal(base: &Vec<u8>, full_path: &Vec<u8>) -> (r: Result<
    Vec<u8>,
    ServeError,
>)
    ensures
        spec_is_path_prefix(base@, full_path@) ==> (r matches Ok(p) && p@ == full_path@),
        !spec_is_path_prefix(base@, full_path@) ==> r == Result::<Vec<u8>, ServeError>::Err(
            ServeError::Permission,
        ),
{
    if is_path_prefix(base, full_path) {
        Ok(slice_to_vec(full_path.as_slice()))
    } else {
        Err(ServeError::Permission)
    }
}

} // verus!
