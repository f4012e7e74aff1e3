use hw_http_rs::conn::{Connection, ConnAction};
use hw_http_rs::framing::not_found_response;
use hw_http_rs::listing::ListEntry;
use hw_http_rs::mime::get_mime_type;
use hw_http_rs::request::{parse_request, is_get, RecvOutcome};
use hw_http_rs::responder::{
    join_path, format_index, plan_for, response_file_head, response_file_bytes,
    response_listing, FsNode, Plan,
};
use hw_http_rs::stream::split_chunks;

fn bytes(s: &str) -> Vec<u8> {
    s.as_bytes().to_vec()
}

#[test]
fn mime_known_extensions() {
    assert_eq!(get_mime_type(&bytes("/a.txt")), "text/plain");
    assert_eq!(get_mime_type(&bytes("/dir/page.html")), "text/html");
    assert_eq!(get_mime_type(&bytes("/p.htm")), "text/html");
    assert_eq!(get_mime_type(&bytes("/s.css")), "text/css");
    assert_eq!(get_mime_type(&bytes("/s.js")), "application/javascript");
    assert_eq!(get_mime_type(&bytes("/i.png")), "image/png");
    assert_eq!(get_mime_type(&bytes("/i.jpg")), "image/jpeg");
    assert_eq!(get_mime_type(&bytes("/i.jpeg")), "image/jpeg");
    assert_eq!(get_mime_type(&bytes("/i.gif")), "image/gif");
    assert_eq!(get_mime_type(&bytes("/d.pdf")), "application/pdf");
}

#[test]
fn mime_unknown_or_missing_extension() {
    assert_eq!(get_mime_type(&bytes("/a.bin")), "application/octet-stream");
    assert_eq!(get_mime_type(&bytes("/noext")), "application/octet-stream");
    assert_eq!(get_mime_type(&bytes("")), "application/octet-stream");
    assert_eq!(get_mime_type(&bytes("html")), "application/octet-stream");
}

#[test]
fn parse_complete_request() {
    let buf = bytes("GET /a.txt HTTP/1.1\r\n\r\n");
    match parse_request(&buf) {
        RecvOutcome::Complete { req, consumed } => {
            assert_eq!(req.method, bytes("GET"));
            assert_eq!(req.path, bytes("/a.txt"));
            assert_eq!(consumed, buf.len());
        }
        _ => panic!("expected a complete request"),
    }
}

#[test]
fn parse_skips_header_lines() {
    let buf = bytes("GET / HTTP/1.1\r\nHost: localhost\r\nAccept: */*\r\n\r\n");
    match parse_request(&buf) {
        RecvOutcome::Complete { req, consumed } => {
            assert_eq!(req.method, bytes("GET"));
            assert_eq!(req.path, bytes("/"));
            assert_eq!(consumed, buf.len());
        }
        _ => panic!("expected a complete request"),
    }
}

#[test]
fn parse_incomplete_head() {
    let buf = bytes("GET /a.txt HTTP/1.1\r\n");
    assert!(matches!(parse_request(&buf), RecvOutcome::Incomplete));
    let buf = bytes("GET /a.txt HT");
    assert!(matches!(parse_request(&buf), RecvOutcome::Incomplete));
    let buf = bytes("");
    assert!(matches!(parse_request(&buf), RecvOutcome::Incomplete));
}

#[test]
fn parse_malformed_request_line() {
    let buf = bytes("NONSENSE\r\n\r\n");
    assert!(matches!(parse_request(&buf), RecvOutcome::Malformed));
    let buf = bytes("GET\r\n\r\n");
    assert!(matches!(parse_request(&buf), RecvOutcome::Malformed));
    let buf = bytes("GET /x\r\n\r\n");
    assert!(matches!(parse_request(&buf), RecvOutcome::Malformed));
    let buf = bytes(" / HTTP/1.1\r\n\r\n");
    assert!(matches!(parse_request(&buf), RecvOutcome::Malformed));
}

#[test]
fn method_check() {
    assert!(is_get(&bytes("GET")));
    assert!(!is_get(&bytes("POST")));
    assert!(!is_get(&bytes("get")));
    assert!(!is_get(&bytes("")));
}

#[test]
fn exact_file_response() {
    let root = bytes("/srv");
    let raw = bytes("/a.txt");
    let path = join_path(&root, &raw);
    assert_eq!(path, bytes("/srv/a.txt"));
    let body = bytes("hi");
    let resp = response_file_bytes(&path, &body);
    assert_eq!(
        resp,
        bytes("HTTP/1.1 200 OK\r\nContent-Type: text/plain\r\nContent-Length: 2\r\n\r\nhi")
    );
}

#[test]
fn exact_not_found_response() {
    let resp = not_found_response();
    assert_eq!(resp, bytes("HTTP/1.1 404 Not Found\r\n\r\n"));
}

#[test]
fn plan_outcomes() {
    let path = bytes("./www/d");
    assert!(matches!(plan_for(&path, &FsNode::Missing), Plan::NotFound));
    assert!(matches!(plan_for(&path, &FsNode::OtherKind), Plan::Ignore));
    assert!(matches!(plan_for(&path, &FsNode::Error), Plan::Ignore));
    match plan_for(&path, &FsNode::File) {
        Plan::ServeFile { path: p } => assert_eq!(p, path),
        _ => panic!("expected a file plan"),
    }
    match plan_for(&path, &FsNode::Dir) {
        Plan::CheckIndex { index_path } => assert_eq!(index_path, bytes("./www/d/index.html")),
        _ => panic!("expected an index check"),
    }
}

#[test]
fn directory_with_index_matches_direct_get() {
    let root = bytes("/srv");
    let raw_dir = bytes("/d");
    let dir = join_path(&root, &raw_dir);
    let index = match plan_for(&dir, &FsNode::Dir) {
        Plan::CheckIndex { index_path } => index_path,
        _ => panic!("expected an index check"),
    };
    let direct = join_path(&root, &bytes("/d/index.html"));
    assert_eq!(index, direct);
    let body = bytes("<html>home</html>");
    assert_eq!(
        response_file_bytes(&index, &body),
        response_file_bytes(&direct, &body)
    );
    let resp = response_file_bytes(&index, &body);
    let expect_head = "HTTP/1.1 200 OK\r\nContent-Type: text/html\r\nContent-Length: 17\r\n\r\n";
    assert_eq!(&resp[..expect_head.len()], expect_head.as_bytes());
}

#[test]
fn listing_links_every_entry() {
    let dir = bytes("./d");
    let entries = vec![
        ListEntry { path: bytes("./d/a.txt"), name: bytes("a.txt") },
        ListEntry { path: bytes("./d/sub"), name: bytes("sub") },
    ];
    let resp = response_listing(&dir, &entries);
    let text = String::from_utf8(resp).unwrap();
    let (head, body) = text.split_once("\r\n\r\n").unwrap();
    assert!(head.starts_with("HTTP/1.1 200 OK\r\n"));
    assert!(head.contains("Content-Type: text/html\r\n"));
    assert!(head.contains(&format!("Content-Length: {}", body.as_bytes().len())));
    assert!(body.contains("<a href=\"./d/../\">..</a>"));
    assert!(body.contains("<a href=\"./d\">.</a>"));
    assert!(body.contains("<a href=\"./d/a.txt\">a.txt</a>"));
    assert!(body.contains("<a href=\"./d/sub\">sub</a>"));
}

#[test]
fn listing_exact_document() {
    let dir = bytes("./d");
    let entries = vec![ListEntry { path: bytes("./d/x"), name: bytes("x") }];
    let resp = response_listing(&dir, &entries);
    let text = String::from_utf8(resp).unwrap();
    let (_, body) = text.split_once("\r\n\r\n").unwrap();
    let mut expect = String::new();
    expect.push_str("<!DOCTYPE html>\n<html>\n<head>\n<meta charset=\"UTF-8\">\n</head>\n<body>\n");
    expect.push_str("<a href=\"./d/../\">..</a>\n");
    expect.push_str("<a href=\"./d\">.</a>\n");
    expect.push_str("<a href=\"./d/x\">x</a>\n");
    expect.push_str("\n</body>\n</html>\n");
    assert_eq!(body, expect);
}

#[test]
fn content_length_matches_streamed_bytes() {
    let body: Vec<u8> = (0..3000u32).map(|i| (i % 251) as u8).collect();
    let head = response_file_head(&bytes("/big.bin"), body.len() as u64);
    let head_text = String::from_utf8(head).unwrap();
    assert!(head_text.contains("Content-Length: 3000\r\n"));
    let chunks = split_chunks(&body);
    assert_eq!(chunks.len(), 3);
    assert_eq!(chunks[0].len(), 1024);
    assert_eq!(chunks[1].len(), 1024);
    assert_eq!(chunks[2].len(), 952);
    let written: usize = chunks.iter().map(|c| c.len()).sum();
    assert_eq!(written, 3000);
    let mut joined = Vec::new();
    for c in &chunks {
        joined.extend_from_slice(c);
    }
    assert_eq!(joined, body);
}

#[test]
fn empty_body_declares_zero() {
    let head = response_file_head(&bytes("/empty.txt"), 0);
    let head_text = String::from_utf8(head).unwrap();
    assert!(head_text.contains("Content-Length: 0\r\n"));
    assert!(split_chunks(&Vec::new()).is_empty());
}

#[test]
fn connection_serves_two_sequential_requests() {
    let mut conn = Connection::new();
    conn.feed(b"GET /a.txt HTTP/1.1\r\n\r\nGET /b.txt HTTP/1.1\r\n\r\n");
    match conn.next_action() {
        ConnAction::HandleGet { req } => assert_eq!(req.path, bytes("/a.txt")),
        _ => panic!("expected the first request"),
    }
    match conn.next_action() {
        ConnAction::HandleGet { req } => assert_eq!(req.path, bytes("/b.txt")),
        _ => panic!("expected the second request"),
    }
    assert!(matches!(conn.next_action(), ConnAction::ReadMore));
}

#[test]
fn connection_waits_for_bytes() {
    let mut conn = Connection::new();
    conn.feed(b"GET /a.txt HT");
    assert!(matches!(conn.next_action(), ConnAction::ReadMore));
    conn.feed(b"TP/1.1\r\n\r\n");
    match conn.next_action() {
        ConnAction::HandleGet { req } => {
            assert_eq!(req.method, bytes("GET"));
            assert_eq!(req.path, bytes("/a.txt"));
        }
        _ => panic!("expected a complete request"),
    }
}

#[test]
fn connection_closes_on_malformed_line() {
    let mut conn = Connection::new();
    conn.feed(b"NONSENSE\r\n\r\n");
    assert!(matches!(conn.next_action(), ConnAction::CloseConn));
}

#[test]
fn connection_ignores_other_methods() {
    let mut conn = Connection::new();
    conn.feed(b"POST /x HTTP/1.1\r\n\r\nGET /y HTTP/1.1\r\n\r\n");
    assert!(matches!(conn.next_action(), ConnAction::IgnoreRequest));
    match conn.next_action() {
        ConnAction::HandleGet { req } => assert_eq!(req.path, bytes("/y")),
        _ => panic!("expected the GET after the ignored request"),
    }
}

#[test]
fn two_clients_get_independent_responses() {
    let mut first = Connection::new();
    let mut second = Connection::new();
    first.feed(b"GET /a.txt");
    second.feed(b"GET /b.txt");
    first.feed(b" HTTP/1.1\r\n\r\n");
    second.feed(b" HTTP/1.1\r\n\r\n");
    let first_path = match first.next_action() {
        ConnAction::HandleGet { req } => req.path,
        _ => panic!("expected a request on the first connection"),
    };
    let second_path = match second.next_action() {
        ConnAction::HandleGet { req } => req.path,
        _ => panic!("expected a request on the second connection"),
    };
    let first_resp = response_file_bytes(&join_path(&bytes("/srv"), &first_path), &bytes("aa"));
    let second_resp = response_file_bytes(&join_path(&bytes("/srv"), &second_path), &bytes("bbb"));
    assert_eq!(
        first_resp,
        bytes("HTTP/1.1 200 OK\r\nContent-Type: text/plain\r\nContent-Length: 2\r\n\r\naa")
    );
    assert_eq!(
        second_resp,
        bytes("HTTP/1.1 200 OK\r\nContent-Type: text/plain\r\nContent-Length: 3\r\n\r\nbbb")
    );
}

#[test]
fn format_index_appends_document_name() {
    assert_eq!(format_index(&bytes("./www")), bytes("./www/index.html"));
}
