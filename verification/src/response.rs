//! HTTP/1.0 response assembly.
//!
//! A response is `HTTP/1.0 <status>\r\n`, one `name: value\r\n` line per
//! header, the fixed server identification header, a blank line, and the
//! body. The spec functions pin the exact wire bytes.

use vstd::prelude::*;
use vstd::utf8::encode_utf8;
use crate::errors::ServeError;
use crate::html::spec_bad_request_html;
use crate::html::spec_forbidden_html;
use crate::html::spec_internal_server_error_html;
use crate::html::spec_not_found_html;
use crate::html::bad_request_html;
use crate::html::forbidden_html;
use crate::html::internal_server_error_html;
use crate::html::not_found_html;
use crate::text::append_bytes;
use crate::text::append_str;

verus! {

/// The byte views of a list of header pairs.
pub open spec fn spec_header_views(headers: Seq<(Vec<u8>, Vec<u8>)>) -> Seq<(Seq<u8>, Seq<u8>)> {
    headers.map_values(|p: (Vec<u8>, Vec<u8>)| (p.0@, p.1@))
}

/// The bytes of the header lines, one `name: value\r\n` per pair, in order.
pub open spec fn spec_header_block(headers: Seq<(Seq<u8>, Seq<u8>)>) -> Seq<u8>
    decreases headers.len(),
{
    if headers.len() == 0 {
        Seq::empty()
    } else {
        spec_header_block(headers.drop_last()) + headers.last().0 + encode_utf8(": "@)
            + headers.last().1 + encode_utf8("\r\n"@)
    }
}

/// The bytes of a whole response in wire order: status line, headers,
/// server identification, blank line, body.
pub open spec fn spec_build_response(
    status: Seq<u8>,
    headers: Seq<(Seq<u8>, Seq<u8>)>,
    body: Seq<u8>,
) -> Seq<u8> {
    encode_utf8("HTTP/1.0 "@) + status + encode_utf8("\r\n"@) + spec_header_block(headers)
        + encode_utf8("Server: Jasmin\r\n"@) + encode_utf8("\r\n"@) + body
}

/// Serializes a status line, headers and a body into response bytes.
pub fn build_response(status: &Vec<u8>, headers: &Vec<(Vec<u8>, Vec<u8>)>, body: Vec<u8>) -> (r:
    Vec<u8>)
    ensures
        r@ == spec_build_response(status@, spec_header_views(headers@), body@),
{
    let ghost header_views = spec_header_views(headers@);
    let mut out: Vec<u8> = Vec::new();
    append_str(&mut out, "HTTP/1.0 ");
    append_bytes(&mut out, status);
    append_str(&mut out, "\r\n");
    let ghost prefix = out@;
    let mut i: usize = 0;
    while i < headers.len()
        invariant
            i <= headers.len(),
            header_views == spec_header_views(headers@),
            prefix == encode_utf8("HTTP/1.0 "@) + status@ + encode_utf8("\r\n"@),
            out@ == prefix + spec_header_block(header_views.subrange(0, i as int)),
        decreases headers.len() - i,
    {
        let pair = &headers[i];
        append_bytes(&mut out, &pair.0);
        append_str(&mut out, ": ");
        append_bytes(&mut out, &pair.1);
        append_str(&mut out, "\r\n");
        proof {
            let done = header_views.subrange(0, i + 1);
            assert(done.drop_last() =~= header_views.subrange(0, i as int));
            assert(out@ =~= prefix + spec_header_block(done));
        }
        i = i + 1;
    }
    proof {
        assert(header_views.subrange(0, headers@.len() as int) =~= header_views);
    }
    append_str(&mut out, "Server: Jasmin\r\n");
    append_str(&mut out, "\r\n");
    append_bytes(&mut out, &body);
    proof {
        assert(out@ =~= spec_build_response(status@, spec_header_views(headers@), body@));
    }
    out
}

/// The bytes of a successful response: a 200 status and no headers
/// beyond the fixed server identification.
pub open spec fn spec_ok_response(body: Seq<u8>) -> Seq<u8> {
    spec_build_response(encode_utf8("200 OK"@), Seq::empty(), body)
}

/// Wraps a body in a 200 response.
pub fn ok_response(body: Vec<u8>) -> (r: Vec<u8>)
    ensures
        r@ == spec_ok_response(body@),
{
    let headers: Vec<(Vec<u8>, Vec<u8>)> = Vec::new();
    let mut status: Vec<u8> = Vec::new();
    append_str(&mut status, "200 OK");
    let r = build_response(&status, &headers, body);
    proof {
        assert(spec_header_views(headers@) =~= Seq::<(Seq<u8>, Seq<u8>)>::empty());
    }
    r
}

/// The one header every error response carries.
pub open spec fn spec_html_content_type() -> Seq<(Seq<u8>, Seq<u8>)> {
    seq![(encode_utf8("Content-Type"@), encode_utf8("text/html"@))]
}

/// The status line bytes of an error class.
pub open spec fn spec_error_status(e: ServeError) -> Seq<u8> {
    match e {
        ServeError::Protocol => encode_utf8("400 Bad Request"@),
        ServeError::Permission => encode_utf8("403 Forbidden"@),
        ServeError::NotFound => encode_utf8("404 Not Found"@),
        ServeError::Unclassified => encode_utf8("500 Internal Server Error"@),
    }
}

/// The HTML body of an error class.
pub open spec fn spec_error_body(e: ServeError) -> Seq<u8> {
    match e {
        ServeError::Protocol => spec_bad_request_html(),
        ServeError::Permission => spec_forbidden_html(),
        ServeError::NotFound => spec_not_found_html(),
        ServeError::Unclassified => spec_internal_server_error_html(),
    }
}

/// The bytes of a whole error response: the matching status line, a
/// `Content-Type: text/html` header, and the matching boilerplate body.
pub open spec fn spec_error_response(e: ServeError) -> Seq<u8> {
    spec_build_response(spec_error_status(e), spec_html_content_type(), spec_error_body(e))
}

/// Builds the full response for a failed request.
pub fn error_response(e: &ServeError) -> (r: Vec<u8>)
    ensures
        r@ == spec_error_response(*e),
{
    let mut status: Vec<u8> = Vec::new();
    match e {
        ServeError::Protocol => append_str(&mut status, "400 Bad Request"),
        ServeError::Permission => append_str(&mut status, "403 Forbidden"),
        ServeError::NotFound => append_str(&mut status, "404 Not Found"),
        ServeError::Unclassified => append_str(&mut status, "500 Internal Server Error"),
    }
    let body: Vec<u8> = match e {
        ServeError::Protocol => bad_request_html(),
        ServeError::Permission => forbidden_html(),
        ServeError::NotFound => not_found_html(),
        ServeError::Unclassified => internal_server_error_html(),
    };
    let mut name: Vec<u8> = Vec::new();
    append_str(&mut name, "Content-Type");
    let mut value: Vec<u8> = Vec::new();
    append_str(&mut value, "text/html");
    let mut headers: Vec<(Vec<u8>, Vec<u8>)> = Vec::new();
    headers.push((name, value));
    let r = build_response(&status, &headers, body);
    proof {
        assert(spec_header_views(headers@) =~= spec_html_content_type());
    }
    r
}

} // verus!
