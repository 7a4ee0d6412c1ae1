//! Byte-level text helpers.
//!
//! The server speaks HTTP/1.0 on the wire and serves arbitrary file
//! contents, so every piece of text the library assembles is a byte
//! vector holding UTF-8. This module appends string literals to such
//! vectors; their byte image is pinned by `vstd`'s UTF-8 encoding model.

use vstd::prelude::*;
use vstd::string::StrSliceExecFns;
use vstd::string::StringSliceAdditionalSpecFns;

verus! {

/// Appends the UTF-8 bytes of `s` to `out`.
pub fn append_str(out: &mut Vec<u8>, s: &str)
    ensures
        final(out)@ == old(out)@ + s.spec_bytes(),
{
    let mut b = s.as_bytes_vec();
    out.append(&mut b);
}

/// Compares two byte vectors for equality of their contents.
pub fn bytes_eq(a: &Vec<u8>, b: &Vec<u8>) -> (r: bool)
    ensures
        r == (a@ == b@),
{
    let r = a == b;
    proof {
        if r {
            assert(a@ =~= b@);
        } else {
            if a@ == b@ {
                assert(vstd::std_specs::cmp::PartialEqSpec::eq_spec(a, b));
            }
        }
    }
    r
}

/// Appends a copy of the bytes of `piece` to `out`.
pub fn append_bytes(out: &mut Vec<u8>, piece: &Vec<u8>)
    ensures
        final(out)@ == old(out)@ + piece@,
{
    out.extend_from_slice(piece.as_slice());
}

} // verus!
