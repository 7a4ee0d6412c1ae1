//! HTML page synthesis.
//!
//! Every page the server generates itself — the four error pages and the
//! directory listing — is the fixed skeleton of [`html_boilerplate`]
//! around a title and a content fragment. The spec functions give the
//! exact bytes of each page through `vstd`'s UTF-8 encoding model.

use vstd::prelude::*;
use vstd::utf8::encode_utf8;
use crate::text::append_bytes;
use crate::text::append_str;

verus! {

/// The bytes of the page skeleton before the title.
pub open spec fn spec_page_head() -> Seq<u8> {
    encode_utf8("<!DOCTYPE html>\n<html lang=\"en\">\n\t<head>\n\t\t<title>"@)
}

/// The bytes of the page skeleton between the title and the content.
pub open spec fn spec_page_mid() -> Seq<u8> {
    encode_utf8(
        "</title>\n\n\t\t<meta charset=\"UTF-8\"/>\n\t\t<meta name=\"robots\" content=\"noindex\"/>\n\t\t<meta http-equiv=\"X-UA-Compatible\" content=\"IE=edge\"/>\n\t\t<meta name=\"viewport\" content=\"width=device-width, initial-scale=1.0\">\n\t</head>\n\t<body>\n\t\t<main>\n\t\t\t"@,
    )
}

/// The bytes of the page skeleton after the content.
pub open spec fn spec_page_tail() -> Seq<u8> {
    encode_utf8("\n\t\t</main>\n\t</body>\n</html>"@)
}

/// The bytes of a whole page: skeleton, title, skeleton, content, skeleton.
pub open spec fn spec_html_boilerplate(title: Seq<u8>, content: Seq<u8>) -> Seq<u8> {
    spec_page_head() + title + spec_page_mid() + content + spec_page_tail()
}

/// Wraps a title and a content fragment in the fixed page skeleton.
pub fn html_boilerplate(title: &Vec<u8>, content: &Vec<u8>) -> (r: Vec<u8>)
    ensures
        r@ == spec_html_boilerplate(title@, content@),
{
    let mut out: Vec<u8> = Vec::new();
    append_str(&mut out, "<!DOCTYPE html>\n<html lang=\"en\">\n\t<head>\n\t\t<title>");
    append_bytes(&mut out, title);
    append_str(
        &mut out,
        "</title>\n\n\t\t<meta charset=\"UTF-8\"/>\n\t\t<meta name=\"robots\" content=\"noindex\"/>\n\t\t<meta http-equiv=\"X-UA-Compatible\" content=\"IE=edge\"/>\n\t\t<meta name=\"viewport\" content=\"width=device-width, initial-scale=1.0\">\n\t</head>\n\t<body>\n\t\t<main>\n\t\t\t",
    );
    append_bytes(&mut out, content);
    append_str(&mut out, "\n\t\t</main>\n\t</body>\n</html>");
    proof {
        assert(out@ =~= spec_html_boilerplate(title@, content@));
    }
    out
}

/// The separator between two directory-listing links.
pub open spec fn spec_listing_sep() -> Seq<u8> {
    encode_utf8("\n\n\t\t\t<br/>\n\n\t\t\t"@)
}

/// One directory-listing link: the entry name anchored at
/// `request-path/entry-name`.
pub open spec fn spec_listing_link(path: Seq<u8>, name: Seq<u8>) -> Seq<u8> {
    encode_utf8("<a href=\""@) + path + encode_utf8("/"@) + name + encode_utf8("\">"@) + name
        + encode_utf8("</a>"@)
}

/// The links for all entries, in enumeration order, separated.
pub open spec fn spec_listing_tags(path: Seq<u8>, entries: Seq<Vec<u8>>) -> Seq<u8>
    decreases entries.len(),
{
    if entries.len() == 0 {
        Seq::empty()
    } else if entries.len() == 1 {
        spec_listing_link(path, entries[0]@)
    } else {
        spec_listing_tags(path, entries.drop_last()) + spec_listing_sep() + spec_listing_link(
            path,
            entries.last()@,
        )
    }
}

/// The listing's content fragment: the links, or the empty-directory
/// placeholder when there is no entry.
pub open spec fn spec_listing_body(path: Seq<u8>, entries: Seq<Vec<u8>>) -> Seq<u8> {
    if entries.len() == 0 {
        encode_utf8("<p>It's empty.</p>"@)
    } else {
        spec_listing_tags(path, entries)
    }
}

/// The bytes of a whole directory-listing page for a request path.
pub open spec fn spec_directory_listing_html(path: Seq<u8>, entries: Seq<Vec<u8>>) -> Seq<u8> {
    spec_html_boilerplate(encode_utf8("Index of: "@) + path, spec_listing_body(path, entries))
}

/// Synthesizes the listing page for a directory: one link per entry
/// name, in the order the entries were enumerated, or the
/// empty-directory placeholder instead of an empty list.
pub fn directory_listing_html(request_path: &Vec<u8>, entries: &Vec<Vec<u8>>) -> (r: Vec<u8>)
    ensures
        r@ == spec_directory_listing_html(request_path@, entries@),
{
    let mut title: Vec<u8> = Vec::new();
    append_str(&mut title, "Index of: ");
    append_bytes(&mut title, request_path);
    let mut tags: Vec<u8> = Vec::new();
    if entries.len() == 0 {
        append_str(&mut tags, "<p>It's empty.</p>");
    } else {
        let mut i: usize = 0;
        while i < entries.len()
            invariant
                i <= entries@.len(),
                tags@ == spec_listing_tags(request_path@, entries@.subrange(0, i as int)),
            decreases entries@.len() - i,
        {
            if i > 0 {
                append_str(&mut tags, "\n\n\t\t\t<br/>\n\n\t\t\t");
            }
            append_str(&mut tags, "<a href=\"");
            append_bytes(&mut tags, request_path);
            append_str(&mut tags, "/");
            append_bytes(&mut tags, &entries[i]);
            append_str(&mut tags, "\">");
            append_bytes(&mut tags, &entries[i]);
            append_str(&mut tags, "</a>");
            proof {
                let done = entries@.subrange(0, i + 1);
                assert(done.drop_last() =~= entries@.subrange(0, i as int));
                assert(done.last() == entries@[i as int]);
                assert(tags@ =~= spec_listing_tags(request_path@, done));
            }
            i = i + 1;
        }
        proof {
            assert(entries@.subrange(0, entries@.len() as int) =~= entries@);
        }
    }
    html_boilerplate(&title, &tags)
}

/// The body of a 400 response.
pub open spec fn spec_bad_request_html() -> Seq<u8> {
    spec_html_boilerplate(encode_utf8("Bad Request"@), encode_utf8("<h1>Bad Request</h1>"@))
}

/// The body of a 403 response.
pub open spec fn spec_forbidden_html() -> Seq<u8> {
    spec_html_boilerplate(encode_utf8("Forbidden"@), encode_utf8("<h1>Forbidden</h1>"@))
}

/// The body of a 404 response.
pub open spec fn spec_not_found_html() -> Seq<u8> {
    spec_html_boilerplate(encode_utf8("Not Found"@), encode_utf8("<h1>Not Found</h1>"@))
}

/// The body of a 500 response.
pub open spec fn spec_internal_server_error_html() -> Seq<u8> {
    spec_html_boilerplate(
        encode_utf8("Internal Server Error"@),
        encode_utf8("<h1>Internal Server Error</h1>"@),
    )
}

/// Builds the body of a 400 response.
pub fn bad_request_html() -> (r: Vec<u8>)
    ensures
        r@ == spec_bad_request_html(),
{
    let mut title: Vec<u8> = Vec::new();
    append_str(&mut title, "Bad Request");
    let mut content: Vec<u8> = Vec::new();
    append_str(&mut content, "<h1>Bad Request</h1>");
    html_boilerplate(&title, &content)
}

/// Builds the body of a 403 response.
pub fn forbidden_html() -> (r: Vec<u8>)
    ensures
        r@ == spec_forbidden_html(),
{
    let mut title: Vec<u8> = Vec::new();
    append_str(&mut title, "Forbidden");
    let mut content: Vec<u8> = Vec::new();
    append_str(&mut content, "<h1>Forbidden</h1>");
    html_boilerplate(&title, &content)
}

/// Builds the body of a 404 response.
pub fn not_found_html() -> (r: Vec<u8>)
    ensures
        r@ == spec_not_found_html(),
{
    let mut title: Vec<u8> = Vec::new();
    append_str(&mut title, "Not Found");
    let mut content: Vec<u8> = Vec::new();
    append_str(&mut content, "<h1>Not Found</h1>");
    html_boilerplate(&title, &content)
}

/// Builds the body of a 500 response.
pub fn internal_server_error_html() -> (r: Vec<u8>)
    ensures
        r@ == spec_internal_server_error_html(),
{
    let mut title: Vec<u8> = Vec::new();
    append_str(&mut title, "Internal Server Error");
    let mut content: Vec<u8> = Vec::new();
    append_str(&mut content, "<h1>Internal Server Error</h1>");
    html_boilerplate(&title, &content)
}

} // verus!
