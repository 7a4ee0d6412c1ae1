//! Request parsing.
//!
//! A request is good when its bytes decode as UTF-8 and the first line
//! holds a space-delimited second token, the request path; everything
//! else is a protocol error answered with 400. The UTF-8 check is
//! verified against `vstd`'s encoding model, and the line and token
//! bounds are pinned down over the raw bytes.

use vstd::prelude::*;
use vstd::slice::slice_subrange;
use vstd::slice::slice_to_vec;
use vstd::utf8::*;
use crate::errors::ServeError;

verus! {

/// The space byte that delimits request-line tokens.
pub open spec fn sp() -> u8 {
    32u8
}

/// The line feed byte that ends the request line.
pub open spec fn lf() -> u8 {
    10u8
}

/// The carriage return byte stripped from a line feed's left.
pub open spec fn cr() -> u8 {
    13u8
}

proof fn lemma_w1_valid(s: Seq<u8>)
    requires
        s.len() >= 1,
        s[0] < 0x80,
    ensures
        valid_first_scalar(s),
        length_of_first_scalar(s) == 1,
{
    let b0 = s[0];
    assert((b0 & 0x7f) as u32 <= 0x7f) by (bit_vector);
}

proof fn lemma_bad_leader_low(s: Seq<u8>)
    requires
        s.len() >= 1,
        0x80 <= s[0] < 0xc2,
    ensures
        !valid_first_scalar(s),
{
    let b0 = s[0];
    if valid_leading_and_continuation_bytes_first_codepoint(s) {
        assert(is_leading_byte_width_2(b0));
        let b1 = s[1];
        let cp = decode_first_codepoint(s);
        assert(cp == (((b0 & 0x1f) as u32) << 6) | ((b1 & 0x3f) as u32));
        assert((((b0 & 0x1f) as u32) << 6) | ((b1 & 0x3f) as u32) < 0x80) by (bit_vector)
            requires
                0xc0 <= b0 < 0xc2,
        ;
        assert(!not_overlong_encoding(cp, length_of_first_codepoint(s)));
    }
}

proof fn lemma_w2_valid(s: Seq<u8>)
    requires
        s.len() >= 2,
        0xc2 <= s[0] <= 0xdf,
        0x80 <= s[1] <= 0xbf,
    ensures
        valid_first_scalar(s),
        length_of_first_scalar(s) == 2,
{
    let b0 = s[0];
    let b1 = s[1];
    assert(valid_leading_and_continuation_bytes_first_codepoint(s));
    let cp = decode_first_codepoint(s);
    assert(cp == (((b0 & 0x1f) as u32) << 6) | ((b1 & 0x3f) as u32));
    assert(0x80 <= ((((b0 & 0x1f) as u32) << 6) | ((b1 & 0x3f) as u32)) < 0xd800) by (bit_vector)
        requires
            0xc2 <= b0 <= 0xdf && 0x80 <= b1 <= 0xbf,
    ;
}

proof fn lemma_w2_invalid(s: Seq<u8>)
    requires
        s.len() >= 1,
        0xc2 <= s[0] <= 0xdf,
        !(s.len() >= 2 && 0x80 <= s[1] <= 0xbf),
    ensures
        !valid_first_scalar(s),
{
}

proof fn lemma_w3_valid(s: Seq<u8>)
    requires
        s.len() >= 3,
        0xe0 <= s[0] <= 0xef,
        0x80 <= s[1] <= 0xbf,
        0x80 <= s[2] <= 0xbf,
        s[0] == 0xe0 ==> s[1] >= 0xa0,
        s[0] == 0xed ==> s[1] < 0xa0,
    ensures
        valid_first_scalar(s),
        length_of_first_scalar(s) == 3,
{
    let b0 = s[0];
    let b1 = s[1];
    let b2 = s[2];
    assert(valid_leading_and_continuation_bytes_first_codepoint(s));
    let cp = decode_first_codepoint(s);
    assert(cp == ((((b0 & 0x0f) as u32) << 12) | (((b1 & 0x3f) as u32) << 6)) | ((b2
        & 0x3f) as u32));
    assert({
        let v = ((((b0 & 0x0f) as u32) << 12) | (((b1 & 0x3f) as u32) << 6)) | ((b2
            & 0x3f) as u32);
        0x800 <= v && !(0xd800 <= v <= 0xdfff)
    }) by (bit_vector)
        requires
            0xe0 <= b0 <= 0xef && 0x80 <= b1 <= 0xbf && 0x80 <= b2 <= 0xbf && (b0 == 0xe0 ==> b1
                >= 0xa0) && (b0 == 0xed ==> b1 < 0xa0),
    ;
}

proof fn lemma_w3_invalid(s: Seq<u8>)
    requires
        s.len() >= 1,
        0xe0 <= s[0] <= 0xef,
        !(s.len() >= 3 && 0x80 <= s[1] <= 0xbf && 0x80 <= s[2] <= 0xbf && (s[0] == 0xe0 ==> s[1]
            >= 0xa0) && (s[0] == 0xed ==> s[1] < 0xa0)),
    ensures
        !valid_first_scalar(s),
{
    if valid_leading_and_continuation_bytes_first_codepoint(s) {
        let b0 = s[0];
        let b1 = s[1];
        let b2 = s[2];
        assert(s.len() >= 3 && is_continuation_byte(b1) && is_continuation_byte(b2));
        let cp = decode_first_codepoint(s);
        assert(cp == ((((b0 & 0x0f) as u32) << 12) | (((b1 & 0x3f) as u32) << 6)) | ((b2
            & 0x3f) as u32));
        if b0 == 0xe0 && b1 < 0xa0 {
            assert(((((b0 & 0x0f) as u32) << 12) | (((b1 & 0x3f) as u32) << 6)) | ((b2
                & 0x3f) as u32) < 0x800) by (bit_vector)
                requires
                    b0 == 0xe0 && 0x80 <= b1 < 0xa0 && 0x80 <= b2 <= 0xbf,
            ;
            assert(!not_overlong_encoding(cp, length_of_first_codepoint(s)));
        } else {
            assert(b0 == 0xed && b1 >= 0xa0);
            assert(0xd800 <= (((((b0 & 0x0f) as u32) << 12) | (((b1 & 0x3f) as u32) << 6)) | ((b2
                & 0x3f) as u32)) <= 0xdfff) by (bit_vector)
                requires
                    b0 == 0xed && 0xa0 <= b1 <= 0xbf && 0x80 <= b2 <= 0xbf,
            ;
            assert(!not_surrogate(cp));
        }
    }
}

proof fn lemma_w4_valid(s: Seq<u8>)
    requires
        s.len() >= 4,
        0xf0 <= s[0] <= 0xf4,
        0x80 <= s[1] <= 0xbf,
        0x80 <= s[2] <= 0xbf,
        0x80 <= s[3] <= 0xbf,
        s[0] == 0xf0 ==> s[1] >= 0x90,
        s[0] == 0xf4 ==> s[1] < 0x90,
    ensures
        valid_first_scalar(s),
        length_of_first_scalar(s) == 4,
{
    let b0 = s[0];
    let b1 = s[1];
    let b2 = s[2];
    let b3 = s[3];
    assert(valid_leading_and_continuation_bytes_first_codepoint(s));
    let cp = decode_first_codepoint(s);
    assert(cp == (((((b0 & 0x07) as u32) << 18) | (((b1 & 0x3f) as u32) << 12)) | (((b2
        & 0x3f) as u32) << 6)) | ((b3 & 0x3f) as u32));
    assert({
        let v = (((((b0 & 0x07) as u32) << 18) | (((b1 & 0x3f) as u32) << 12)) | (((b2
            & 0x3f) as u32) << 6)) | ((b3 & 0x3f) as u32);
        0x10000 <= v <= 0x10ffff
    }) by (bit_vector)
        requires
            0xf0 <= b0 <= 0xf4 && 0x80 <= b1 <= 0xbf && 0x80 <= b2 <= 0xbf && 0x80 <= b3 <= 0xbf
                && (b0 == 0xf0 ==> b1 >= 0x90) && (b0 == 0xf4 ==> b1 < 0x90),
    ;
}

proof fn lemma_w4_invalid(s: Seq<u8>)
    requires
        s.len() >= 1,
        0xf0 <= s[0] <= 0xf4,
        !(s.len() >= 4 && 0x80 <= s[1] <= 0xbf && 0x80 <= s[2] <= 0xbf && 0x80 <= s[3] <= 0xbf && (
        s[0] == 0xf0 ==> s[1] >= 0x90) && (s[0] == 0xf4 ==> s[1] < 0x90)),
    ensures
        !valid_first_scalar(s),
{
    if valid_leading_and_continuation_bytes_first_codepoint(s) {
        let b0 = s[0];
        let b1 = s[1];
        let b2 = s[2];
        let b3 = s[3];
        assert(s.len() >= 4 && is_continuation_byte(b1) && is_continuation_byte(b2)
            && is_continuation_byte(b3));
        let cp = decode_first_codepoint(s);
        assert(cp == (((((b0 & 0x07) as u32) << 18) | (((b1 & 0x3f) as u32) << 12)) | (((b2
            & 0x3f) as u32) << 6)) | ((b3 & 0x3f) as u32));
        if b0 == 0xf0 && b1 < 0x90 {
            assert((((((b0 & 0x07) as u32) << 18) | (((b1 & 0x3f) as u32) << 12)) | (((b2
                & 0x3f) as u32) << 6)) | ((b3 & 0x3f) as u32) < 0x10000) by (bit_vector)
                requires
                    b0 == 0xf0 && 0x80 <= b1 < 0x90 && 0x80 <= b2 <= 0xbf && 0x80 <= b3 <= 0xbf,
            ;
            assert(!not_overlong_encoding(cp, length_of_first_codepoint(s)));
        } else {
            assert(b0 == 0xf4 && b1 >= 0x90);
            assert((((((b0 & 0x07) as u32) << 18) | (((b1 & 0x3f) as u32) << 12)) | (((b2
                & 0x3f) as u32) << 6)) | ((b3 & 0x3f) as u32) > 0x10ffff) by (bit_vector)
                requires
                    b0 == 0xf4 && 0x90 <= b1 <= 0xbf && 0x80 <= b2 <= 0xbf && 0x80 <= b3 <= 0xbf,
            ;
            assert(!not_overlong_encoding(cp, length_of_first_codepoint(s)));
        }
    }
}

proof fn lemma_bad_leader_high(s: Seq<u8>)
    requires
        s.len() >= 1,
        s[0] > 0xf4,
    ensures
        !valid_first_scalar(s),
{
    if valid_leading_and_continuation_bytes_first_codepoint(s) {
        let b0 = s[0];
        assert(is_leading_byte_width_4(b0));
        let b1 = s[1];
        let b2 = s[2];
        let b3 = s[3];
        let cp = decode_first_codepoint(s);
        assert(cp == (((((b0 & 0x07) as u32) << 18) | (((b1 & 0x3f) as u32) << 12)) | (((b2
            & 0x3f) as u32) << 6)) | ((b3 & 0x3f) as u32));
        assert((((((b0 & 0x07) as u32) << 18) | (((b1 & 0x3f) as u32) << 12)) | (((b2
            & 0x3f) as u32) << 6)) | ((b3 & 0x3f) as u32) > 0x10ffff) by (bit_vector)
            requires
                0xf5 <= b0 <= 0xf7,
        ;
        assert(!not_overlong_encoding(cp, length_of_first_codepoint(s)));
    }
}

proof fn lemma_invalid_suffix(bytes: Seq<u8>, i: int)
    requires
        partial_valid_utf8(bytes, i),
        0 <= i < bytes.len(),
        !valid_first_scalar(bytes.subrange(i, bytes.len() as int)),
    ensures
        !valid_utf8(bytes),
{
    let suffix = bytes.subrange(i, bytes.len() as int);
    assert(suffix.len() > 0);
    assert(!valid_utf8(suffix));
    partial_valid_partial_invalid_utf8(bytes, i);
}

/// Decides whether `data` is a valid UTF-8 encoding, in one pass over
/// the bytes.
pub fn is_valid_utf8(data: &Vec<u8>) -> (r: bool)
    ensures
        r == valid_utf8(data@),
{
    let n = data.len();
    let mut i: usize = 0;
    while i < n
        invariant
            i <= n,
            n == data@.len(),
            partial_valid_utf8(data@, i as int),
        decreases n - i,
    {
        let ghost suffix = data@.subrange(i as int, n as int);
        let b0 = data[i];
        proof {
            assert(suffix[0] == b0);
        }
        if b0 < 0x80 {
            proof {
                lemma_w1_valid(suffix);
                partial_valid_utf8_extend(data@, i as int);
            }
            i = i + 1;
        } else if b0 < 0xc2 {
            proof {
                lemma_bad_leader_low(suffix);
                lemma_invalid_suffix(data@, i as int);
            }
            return false;
        } else if b0 < 0xe0 {
            if n - i < 2 || !(data[i + 1] >= 0x80 && data[i + 1] < 0xc0) {
                proof {
                    if suffix.len() >= 2 {
                        assert(suffix[1] == data@[i + 1]);
                    }
                    lemma_w2_invalid(suffix);
                    lemma_invalid_suffix(data@, i as int);
                }
                return false;
            }
            proof {
                assert(suffix[1] == data@[i + 1]);
                lemma_w2_valid(suffix);
                partial_valid_utf8_extend(data@, i as int);
            }
            i = i + 2;
        } else if b0 < 0xf0 {
            let ok = if n - i < 3 {
                false
            } else {
                let b1 = data[i + 1];
                let b2 = data[i + 2];
                b1 >= 0x80 && b1 < 0xc0 && b2 >= 0x80 && b2 < 0xc0 && !(b0 == 0xe0 && b1 < 0xa0)
                    && !(b0 == 0xed && b1 >= 0xa0)
            };
            proof {
                if suffix.len() >= 2 {
                    assert(suffix[1] == data@[i + 1]);
                }
                if suffix.len() >= 3 {
                    assert(suffix[2] == data@[i + 2]);
                }
            }
            if ok {
                proof {
                    lemma_w3_valid(suffix);
                    partial_valid_utf8_extend(data@, i as int);
                }
                i = i + 3;
            } else {
                proof {
                    lemma_w3_invalid(suffix);
                    lemma_invalid_suffix(data@, i as int);
                }
                return false;
            }
        } else if b0 < 0xf5 {
            let ok = if n - i < 4 {
                false
            } else {
                let b1 = data[i + 1];
                let b2 = data[i + 2];
                let b3 = data[i + 3];
                b1 >= 0x80 && b1 < 0xc0 && b2 >= 0x80 && b2 < 0xc0 && b3 >= 0x80 && b3 < 0xc0 && !(
                b0 == 0xf0 && b1 < 0x90) && !(b0 == 0xf4 && b1 >= 0x90)
            };
            proof {
                if suffix.len() >= 2 {
                    assert(suffix[1] == data@[i + 1]);
                }
                if suffix.len() >= 3 {
                    assert(suffix[2] == data@[i + 2]);
                }
                if suffix.len() >= 4 {
                    assert(suffix[3] == data@[i + 3]);
                }
            }
            if ok {
                proof {
                    lemma_w4_valid(suffix);
                    partial_valid_utf8_extend(data@, i as int);
                }
                i = i + 4;
            } else {
                proof {
                    lemma_w4_invalid(suffix);
                    lemma_invalid_suffix(data@, i as int);
                }
                return false;
            }
        } else {
            proof {
                lemma_bad_leader_high(suffix);
                lemma_invalid_suffix(data@, i as int);
            }
            return false;
        }
    }
    proof {
        assert(data@.subrange(0, n as int) =~= data@);
    }
    true
}

/// Where the request line ends: the index of the first line feed, or
/// the end of the data.
pub open spec fn spec_line_limit(d: Seq<u8>) -> int {
    match d.index_of_first(lf()) {
        Some(i) => i,
        None => d.len() as int,
    }
}

/// The first line of the request, as text lines are split: everything
/// before the first line feed, less a carriage return directly in
/// front of that line feed.
pub open spec fn spec_request_line(d: Seq<u8>) -> Seq<u8> {
    let raw = d.subrange(0, spec_line_limit(d));
    if d.index_of_first(lf()) is Some && raw.len() > 0 && raw.last() == cr() {
        raw.drop_last()
    } else {
        raw
    }
}

/// True when the request is well-formed: valid UTF-8, and a first line
/// with a space-delimited second token.
pub open spec fn spec_has_request_path(d: Seq<u8>) -> bool {
    valid_utf8(d) && spec_request_line(d).contains(sp())
}

/// The request path: the second space-delimited token of the first
/// line, everything between the first space and the next space or the
/// line's end.
pub open spec fn spec_request_path(d: Seq<u8>) -> Seq<u8> {
    let line = spec_request_line(d);
    let rest = line.subrange(line.index_of_first(sp())->Some_0 + 1, line.len() as int);
    match rest.index_of_first(sp()) {
        Some(j) => rest.subrange(0, j),
        None => rest,
    }
}

proof fn lemma_index_of_first_is(s: Seq<u8>, t: u8, k: int)
    requires
        0 <= k < s.len(),
        s[k] == t,
        forall|j: int| 0 <= j < k ==> s[j] != t,
    ensures
        s.index_of_first(t) == Some(k),
{
    s.index_of_first_ensures(t);
    assert(s.contains(t));
}

proof fn lemma_index_of_first_none(s: Seq<u8>, t: u8)
    requires
        forall|j: int| 0 <= j < s.len() ==> s[j] != t,
    ensures
        s.index_of_first(t) is None,
{
    s.index_of_first_ensures(t);
    if s.contains(t) {
        let k = choose|k: int| 0 <= k < s.len() && s[k] == t;
        assert(false);
    }
}

/// The index of the first `target` byte in `data[from..to]`, scanning
/// left to right.
fn find_byte(data: &Vec<u8>, target: u8, from: usize, to: usize) -> (r: Option<usize>)
    requires
        from <= to <= data@.len(),
    ensures
        match r {
            Some(k) => from <= k < to && data@[k as int] == target && (forall|j: int|
                from <= j < k ==> data@[j] != target),
            None => forall|j: int| from <= j < to ==> data@[j] != target,
        },
{
    let mut k = from;
    while k < to
        invariant
            from <= k <= to <= data@.len(),
            forall|j: int| from <= j < k ==> data@[j] != target,
        decreases to - k,
    {
        if data[k] == target {
            return Some(k);
        }
        k = k + 1;
    }
    None
}

/// Extracts the request path from the raw request bytes: the second
/// token of the first line when the request is well-formed, and the
/// protocol error, answered with 400, otherwise.
pub fn parse_request(data: Vec<u8>) -> (r: Result<Vec<u8>, ServeError>)
    ensures
        spec_has_request_path(data@) ==> (r matches Ok(p) && p@ == spec_request_path(data@)),
        !spec_has_request_path(data@) ==> r == Result::<Vec<u8>, ServeError>::Err(
            ServeError::Protocol,
        ),
{
    if !is_valid_utf8(&data) {
        return Err(ServeError::Protocol);
    }
    let n = data.len();
    let line_end: usize;
    let had_newline: bool;
    match find_byte(&data, 10, 0, n) {
        Some(k) => {
            line_end = k;
            had_newline = true;
            proof {
                lemma_index_of_first_is(data@, lf(), k as int);
            }
        },
        None => {
            line_end = n;
            had_newline = false;
            proof {
                lemma_index_of_first_none(data@, lf());
            }
        },
    }
    let mut line_len = line_end;
    if had_newline && line_len > 0 && data[line_len - 1] == 13 {
        line_len = line_len - 1;
    }
    let ghost line = spec_request_line(data@);
    proof {
        assert(line =~= data@.subrange(0, line_len as int));
    }
    let first_space: usize;
    match find_byte(&data, 32, 0, line_len) {
        Some(k) => {
            first_space = k;
            proof {
                assert(line[k as int] == data@[k as int]);
                lemma_index_of_first_is(line, sp(), k as int);
            }
        },
        None => {
            proof {
                lemma_index_of_first_none(line, sp());
                line.index_of_first_ensures(sp());
            }
            return Err(ServeError::Protocol);
        },
    }
    proof {
        assert(line.contains(sp()));
    }
    let token_end: usize;
    let ghost rest = line.subrange(first_space + 1, line.len() as int);
    match find_byte(&data, 32, first_space + 1, line_len) {
        Some(k) => {
            token_end = k;
            proof {
                assert(rest[k - first_space - 1] == data@[k as int]);
                assert forall|j: int| 0 <= j < k - first_space - 1 implies rest[j] != sp() by {
                    assert(rest[j] == data@[j + first_space + 1]);
                }
                lemma_index_of_first_is(rest, sp(), k - first_space - 1);
            }
        },
        None => {
            token_end = line_len;
            proof {
                assert forall|j: int| 0 <= j < rest.len() implies rest[j] != sp() by {
                    assert(rest[j] == data@[j + first_space + 1]);
                }
                lemma_index_of_first_none(rest, sp());
            }
        },
    }
    let path = slice_to_vec(slice_subrange(data.as_slice(), first_space + 1, token_end));
    proof {
        assert(path@ =~= spec_request_path(data@));
    }
    Ok(path)
}

} // verus!
