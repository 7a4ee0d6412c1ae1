use jasmin::cache::Cache;
use jasmin::cache::CacheTable;
use jasmin::cache::get_content_from_cache;
use jasmin::errors::IoErrorKind;
use jasmin::errors::ServeError;
use jasmin::errors::classify_fs_error;
use jasmin::errors::interrupted;
use jasmin::errors::not_found;
use jasmin::errors::permission_denied;
use jasmin::errors::would_block;
use jasmin::html::bad_request_html;
use jasmin::html::directory_listing_html;
use jasmin::html::forbidden_html;
use jasmin::html::html_boilerplate;
use jasmin::html::internal_server_error_html;
use jasmin::html::not_found_html;
use jasmin::parse::is_valid_utf8;
use jasmin::parse::parse_request;
use jasmin::resolve::is_path_prefix;
use jasmin::resolve::join_path;
use jasmin::resolve::prevent_directory_transversal;
use jasmin::resolve::sanitize_request_path;
use jasmin::response::build_response;
use jasmin::response::error_response;
use jasmin::response::ok_response;
use jasmin::session::request_received;
use jasmin::session::ReadStep;
use jasmin::session::Session;
use jasmin::session::SessionPhase;
use jasmin::session::classify_read;

fn boilerplate(title: &str, content: &str) -> String {
    format!(
        "<!DOCTYPE html>\n<html lang=\"en\">\n\t<head>\n\t\t<title>{}</title>\n\n\t\t<meta charset=\"UTF-8\"/>\n\t\t<meta name=\"robots\" content=\"noindex\"/>\n\t\t<meta http-equiv=\"X-UA-Compatible\" content=\"IE=edge\"/>\n\t\t<meta name=\"viewport\" content=\"width=device-width, initial-scale=1.0\">\n\t</head>\n\t<body>\n\t\t<main>\n\t\t\t{}\n\t\t</main>\n\t</body>\n</html>",
        title, content
    )
}

#[test]
fn error_kind_predicates() {
    assert!(interrupted(&IoErrorKind::Interrupted));
    assert!(!interrupted(&IoErrorKind::WouldBlock));
    assert!(would_block(&IoErrorKind::WouldBlock));
    assert!(!would_block(&IoErrorKind::Other));
    assert!(permission_denied(&IoErrorKind::PermissionDenied));
    assert!(!permission_denied(&IoErrorKind::NotFound));
    assert!(not_found(&IoErrorKind::NotFound));
    assert!(!not_found(&IoErrorKind::PermissionDenied));
}

#[test]
fn error_classification() {
    assert_eq!(
        classify_fs_error(&IoErrorKind::NotFound),
        ServeError::NotFound
    );
    assert_eq!(
        classify_fs_error(&IoErrorKind::Other),
        ServeError::Unclassified
    );
    // a permission failure from the filesystem is unclassified (500):
    // the 403 class belongs to the traversal check alone
    assert_eq!(
        classify_fs_error(&IoErrorKind::PermissionDenied),
        ServeError::Unclassified
    );
}

#[test]
fn parse_request_extracts_path() {
    let r = parse_request(b"GET /abc HTTP/1.0\r\nHost: x\r\n\r\n".to_vec());
    assert_eq!(r.unwrap(), b"/abc".to_vec());
}

#[test]
fn parse_request_without_newline() {
    let r = parse_request(b"GET /abc HTTP/1.0".to_vec());
    assert_eq!(r.unwrap(), b"/abc".to_vec());
}

#[test]
fn parse_request_token_at_line_end() {
    let r = parse_request(b"GET /abc\r\nrest".to_vec());
    assert_eq!(r.unwrap(), b"/abc".to_vec());
}

#[test]
fn parse_request_no_token_fails() {
    assert_eq!(
        parse_request(b"GARBAGE\r\n".to_vec()),
        Err(ServeError::Protocol)
    );
    assert_eq!(parse_request(b"".to_vec()), Err(ServeError::Protocol));
    assert_eq!(parse_request(b"\r\n\r\n".to_vec()), Err(ServeError::Protocol));
}

#[test]
fn parse_request_invalid_utf8_fails() {
    assert_eq!(
        parse_request(b"GET / HTTP/1.0\r\n\xc0\x80".to_vec()),
        Err(ServeError::Protocol)
    );
}

#[test]
fn parse_request_double_space_gives_empty_path() {
    // split on single spaces: the second token between two adjacent
    // spaces is empty
    let r = parse_request(b"GET  /abc HTTP/1.0\r\n".to_vec());
    assert_eq!(r.unwrap(), b"".to_vec());
}

#[test]
fn utf8_validation_accepts_and_rejects() {
    assert!(is_valid_utf8(&b"plain ascii".to_vec()));
    assert!(is_valid_utf8(&"héllo wörld".as_bytes().to_vec()));
    assert!(is_valid_utf8(&"\u{45F}\u{FFFD}\u{10348}".as_bytes().to_vec()));
    assert!(is_valid_utf8(&b"".to_vec()));
    // overlong two-byte encoding of NUL
    assert!(!is_valid_utf8(&b"\xc0\x80".to_vec()));
    // bare continuation byte
    assert!(!is_valid_utf8(&b"\x80".to_vec()));
    // surrogate half
    assert!(!is_valid_utf8(&b"\xed\xa0\x80".to_vec()));
    // truncated three-byte sequence
    assert!(!is_valid_utf8(&b"\xe2\x82".to_vec()));
    // leader above the last Unicode plane
    assert!(!is_valid_utf8(&b"\xf5\x80\x80\x80".to_vec()));
    // overlong four-byte encoding
    assert!(!is_valid_utf8(&b"\xf0\x80\x80\x80".to_vec()));
}

#[test]
fn sanitize_strips_slashes_and_defaults() {
    assert_eq!(sanitize_request_path(&b"/abc".to_vec()), b"abc".to_vec());
    assert_eq!(sanitize_request_path(&b"///x/y".to_vec()), b"x/y".to_vec());
    assert_eq!(sanitize_request_path(&b"abc".to_vec()), b"abc".to_vec());
    assert_eq!(
        sanitize_request_path(&b"/".to_vec()),
        b"index.html".to_vec()
    );
    assert_eq!(sanitize_request_path(&b"".to_vec()), b"index.html".to_vec());
}

#[test]
fn join_path_inserts_separator() {
    assert_eq!(
        join_path(&b"/srv/static".to_vec(), &b"x".to_vec()),
        b"/srv/static/x".to_vec()
    );
    assert_eq!(join_path(&b"/".to_vec(), &b"x".to_vec()), b"/x".to_vec());
}

#[test]
fn path_prefix_is_component_wise() {
    assert!(is_path_prefix(&b"/srv".to_vec(), &b"/srv".to_vec()));
    assert!(is_path_prefix(&b"/srv".to_vec(), &b"/srv/x".to_vec()));
    assert!(!is_path_prefix(&b"/srv".to_vec(), &b"/srvx".to_vec()));
    assert!(is_path_prefix(&b"/".to_vec(), &b"/etc".to_vec()));
    assert!(!is_path_prefix(&b"/srv/static".to_vec(), &b"/srv".to_vec()));
}

#[test]
fn prevent_directory_transversal_verdicts() {
    let r = prevent_directory_transversal(&b"/srv".to_vec(), &b"/srv/a/b".to_vec());
    assert_eq!(r.unwrap(), b"/srv/a/b".to_vec());
    let r = prevent_directory_transversal(&b"/srv".to_vec(), &b"/etc/passwd".to_vec());
    assert_eq!(r, Err(ServeError::Permission));
}

#[test]
fn boilerplate_matches_template() {
    let page = html_boilerplate(&b"A Title".to_vec(), &b"<h1>Body</h1>".to_vec());
    assert_eq!(page, boilerplate("A Title", "<h1>Body</h1>").into_bytes());
}

#[test]
fn error_pages_match_template() {
    assert_eq!(
        bad_request_html(),
        boilerplate("Bad Request", "<h1>Bad Request</h1>").into_bytes()
    );
    assert_eq!(
        forbidden_html(),
        boilerplate("Forbidden", "<h1>Forbidden</h1>").into_bytes()
    );
    assert_eq!(
        not_found_html(),
        boilerplate("Not Found", "<h1>Not Found</h1>").into_bytes()
    );
    assert_eq!(
        internal_server_error_html(),
        boilerplate("Internal Server Error", "<h1>Internal Server Error</h1>").into_bytes()
    );
}

#[test]
fn listing_page_links_and_placeholder() {
    let page = directory_listing_html(
        &b"/d".to_vec(),
        &vec![b"one".to_vec(), b"two".to_vec(), b"three".to_vec()],
    );
    let tags = "<a href=\"/d/one\">one</a>\n\n\t\t\t<br/>\n\n\t\t\t<a href=\"/d/two\">two</a>\n\n\t\t\t<br/>\n\n\t\t\t<a href=\"/d/three\">three</a>";
    assert_eq!(page, boilerplate("Index of: /d", tags).into_bytes());
    let empty = directory_listing_html(&b"/d".to_vec(), &vec![]);
    assert_eq!(
        empty,
        boilerplate("Index of: /d", "<p>It's empty.</p>").into_bytes()
    );
}

#[test]
fn build_response_wire_format() {
    let headers = vec![(b"Content-Type".to_vec(), b"text/html".to_vec())];
    let r = build_response(&b"404 Not Found".to_vec(), &headers, b"oops".to_vec());
    assert_eq!(
        r,
        b"HTTP/1.0 404 Not Found\r\nContent-Type: text/html\r\nServer: Jasmin\r\n\r\noops".to_vec()
    );
    let no_headers: Vec<(Vec<u8>, Vec<u8>)> = vec![];
    let r = build_response(&b"200 OK".to_vec(), &no_headers, b"body".to_vec());
    assert_eq!(r, b"HTTP/1.0 200 OK\r\nServer: Jasmin\r\n\r\nbody".to_vec());
}

#[test]
fn ok_and_error_responses() {
    assert_eq!(
        ok_response(b"hi".to_vec()),
        b"HTTP/1.0 200 OK\r\nServer: Jasmin\r\n\r\nhi".to_vec()
    );
    let r = error_response(&ServeError::Unclassified);
    assert!(String::from_utf8_lossy(&r).starts_with("HTTP/1.0 500 Internal Server Error\r\n"));
    let r = error_response(&ServeError::Protocol);
    assert!(String::from_utf8_lossy(&r).starts_with("HTTP/1.0 400 Bad Request\r\n"));
}

#[test]
fn cache_hit_miss_and_eviction() {
    let mut caches = CacheTable::new();
    let path = b"/srv/a".to_vec();
    // nothing cached: a miss, whatever the stat says
    let r = get_content_from_cache(&mut caches, &path, Ok(1));
    assert_eq!(r, Ok(None));
    caches.insert(
        path.clone(),
        Cache { content: b"bytes".to_vec(), modified_timestamp: 7 },
    );
    assert!(caches.contains(&path));
    // matching timestamp: a hit
    let r = get_content_from_cache(&mut caches, &path, Ok(7));
    assert_eq!(r, Ok(Some(b"bytes".to_vec())));
    // changed timestamp: a miss, the entry stays
    let r = get_content_from_cache(&mut caches, &path, Ok(8));
    assert_eq!(r, Ok(None));
    assert!(caches.contains(&path));
    // failed stat, not a disappearance: error, the entry stays
    let r = get_content_from_cache(&mut caches, &path, Err(IoErrorKind::Other));
    assert_eq!(r, Err(ServeError::Unclassified));
    assert!(caches.contains(&path));
    // the file is gone: error, the entry is evicted
    let r = get_content_from_cache(&mut caches, &path, Err(IoErrorKind::NotFound));
    assert_eq!(r, Err(ServeError::NotFound));
    assert!(!caches.contains(&path));
}

#[test]
fn cache_insert_overwrites() {
    let mut caches = CacheTable::new();
    let path = b"/srv/a".to_vec();
    caches.insert(
        path.clone(),
        Cache { content: b"first".to_vec(), modified_timestamp: 1 },
    );
    caches.insert(
        path.clone(),
        Cache { content: b"second".to_vec(), modified_timestamp: 2 },
    );
    let r = get_content_from_cache(&mut caches, &path, Ok(2));
    assert_eq!(r, Ok(Some(b"second".to_vec())));
    caches.remove(&path);
    assert!(!caches.contains(&path));
}

#[test]
fn session_lifecycle() {
    let mut s = Session::new();
    assert_eq!(s.phase, SessionPhase::AwaitingRequest);
    assert!(s.response.is_none());
    s.store_response(b"resp".to_vec());
    assert_eq!(s.phase, SessionPhase::AwaitingWrite);
    assert_eq!(s.response, Some(b"resp".to_vec()));
}

#[test]
fn read_classification() {
    assert_eq!(classify_read(&Ok(0)), ReadStep::Complete);
    assert_eq!(classify_read(&Ok(17)), ReadStep::Grew);
    assert_eq!(classify_read(&Err(IoErrorKind::Interrupted)), ReadStep::Retry);
    assert_eq!(classify_read(&Err(IoErrorKind::WouldBlock)), ReadStep::Complete);
    assert_eq!(classify_read(&Err(IoErrorKind::Other)), ReadStep::Abort);
    assert_eq!(
        classify_read(&Err(IoErrorKind::PermissionDenied)),
        ReadStep::Abort
    );
}

#[test]
fn zero_total_bytes_is_a_connection_error() {
    assert!(!request_received(0));
    assert!(request_received(1));
    assert!(request_received(1024));
}
