//! HTTP: connections, requests, routes and answers.

use lmu_pitwall::http_server::{
    accepted_port, after_read, classify_connection, classify_preview, content_length, cut_body,
    file_path, file_response, handle_http, length_in_headers, mime_type, network_info_response,
    parse_path, port_moved_response, port_not_stored_response, port_refused_response,
    preflight_response, refused_response, request_body, request_method, route, route_request,
    shutdown_response, too_large_response, version_response, Connection, Plan, ReadStep, Response,
    Route, MAX_REQUEST,
};
use lmu_pitwall::paths::{extension_of, has_extension};

fn bytes(s: &str) -> Vec<u8> {
    s.as_bytes().to_vec()
}

fn text(v: &[u8]) -> String {
    String::from_utf8(v.to_vec()).unwrap()
}

#[test]
fn a_path_is_what_stands_between_the_first_spaces() {
    assert_eq!(parse_path("GET /a/b?x=1 HTTP/1.1\r\nHost: x\r\n"), "/a/b");
    assert_eq!(parse_path("GET /a/b"), "/a/b");
    assert_eq!(parse_path("GET"), "/");
    assert_eq!(parse_path(""), "/");
    assert_eq!(parse_path("GET  HTTP/1.1"), "");
    assert_eq!(parse_path("GET ?q HTTP/1.1"), "");
}

#[test]
fn a_method_is_the_first_word_in_upper_case() {
    assert_eq!(request_method("get / HTTP/1.1\r\n"), "GET");
    assert_eq!(request_method("  options /"), "OPTIONS");
    assert_eq!(request_method("\r\nGET /"), "");
    assert_eq!(request_method(""), "");
}

#[test]
fn upgrades_are_told_apart_by_path() {
    let agent = bytes("GET /Uplink?x HTTP/1.1\r\nUPGRADE: WebSocket\r\n\r\n");
    let viewer = bytes("GET /?format=json HTTP/1.1\r\nUpgrade: websocket\r\n\r\n");
    let page = bytes("GET /uplink HTTP/1.1\r\nHost: x\r\n\r\n");
    assert_eq!(classify_connection(&agent, true), Connection::Agent);
    assert_eq!(classify_connection(&agent, false), Connection::Viewer);
    assert_eq!(classify_connection(&viewer, true), Connection::Viewer);
    assert_eq!(classify_connection(&page, true), Connection::Http);
    // In lower case already.
    assert_eq!(
        classify_preview("get /uplink http/1.1\r\nupgrade: websocket\r\n", true),
        Connection::Agent
    );
    assert_eq!(classify_preview("GET / HTTP/1.1\r\nUpgrade: websocket\r\n", true), Connection::Http);
    // Bytes that are no text do no harm.
    assert_eq!(classify_connection(&vec![0xff, 0xfe, 0x00], true), Connection::Http);
}

#[test]
fn a_request_is_read_up_to_its_blank_line() {
    let mut request = Vec::new();
    assert_eq!(after_read(&mut request, &bytes("GET / HTTP/1.1\r\n")), ReadStep::More);
    assert_eq!(after_read(&mut request, &bytes("\r")), ReadStep::More);
    assert_eq!(after_read(&mut request, &bytes("\nbody")), ReadStep::Complete);
    assert_eq!(text(&request), "GET / HTTP/1.1\r\n\r\nbody");

    let mut request = Vec::new();
    assert_eq!(after_read(&mut request, &Vec::new()), ReadStep::Complete);

    let mut request = Vec::new();
    assert_eq!(after_read(&mut request, &vec![b'x'; MAX_REQUEST]), ReadStep::More);
    assert_eq!(after_read(&mut request, &bytes("x")), ReadStep::TooLarge);
}

#[test]
fn routes_follow_method_and_path() {
    assert_eq!(route("OPTIONS", "/api/shutdown", false), Route::Preflight);
    assert_eq!(route("GET", "/api/network-info", false), Route::NetworkInfo);
    assert_eq!(route("POST", "/api/version", true), Route::Version);
    assert_eq!(route("POST", "/api/shutdown", false), Route::Shutdown);
    assert_eq!(route("GET", "/api/shutdown", false), Route::File);
    assert_eq!(route("POST", "/api/set-port", false), Route::SetPort);
    assert_eq!(route("GET", "/", false), Route::File);
    // On a public relay neither control route exists.
    assert_eq!(route("POST", "/api/shutdown", true), Route::Refused);
    assert_eq!(route("GET", "/api/set-port", true), Route::Refused);

    let (r, path) = route_request(&bytes("post /api/version?x HTTP/1.1\r\n\r\n"), false);
    assert_eq!((r, path.as_str()), (Route::Version, "/api/version"));
}

#[test]
fn the_length_is_that_of_the_first_such_header() {
    assert_eq!(content_length("POST / HTTP/1.1\r\nContent-Length: 13\r\n\r\n"), 13);
    assert_eq!(content_length("POST /\r\nCONTENT-LENGTH:7\r\ncontent-length: 9\r\n"), 7);
    assert_eq!(content_length("POST /\r\nContent-Length: 12:3\r\n"), 12);
    assert_eq!(content_length("POST /\r\nContent-Length: x\r\n"), 0);
    assert_eq!(content_length("POST /\r\nContent-Length: -1\r\n"), 0);
    assert_eq!(content_length("POST /\r\nX-Content-Length: 4\r\n"), 0);
    assert_eq!(content_length("POST /\r\nContent-Length: 99999999999999999999999\r\n"), 0);

    let lines = vec!["A: 1".chars().collect(), "Content-Length: 5".chars().collect()];
    let lowered = vec!["a: 1".to_string(), "content-length: 5".to_string()];
    assert_eq!(length_in_headers(&lines, &lowered), 5);
}

#[test]
fn the_body_is_cut_out_of_the_request() {
    let request = bytes("POST / HTTP/1.1\r\nContent-Length: 4\r\n\r\nabcdef");
    assert_eq!(request_body(&request), Some(bytes("abcd")));
    // Less came than was announced.
    let request = bytes("POST / HTTP/1.1\r\nContent-Length: 40\r\n\r\nabc");
    assert_eq!(request_body(&request), Some(bytes("abc")));
    // No blank line, no body.
    let request = bytes("POST / HTTP/1.1\r\nContent-Length: 4\r\n");
    assert_eq!(request_body(&request), Some(Vec::new()));
    // Where replaced bytes push the blank line past the end, there is none.
    let mut request = vec![0xffu8; 40];
    request.extend_from_slice(b"\r\n\r\n");
    assert_eq!(request_body(&request), None);
    // Given the text and the length.
    assert_eq!(cut_body(&bytes("h\r\n\r\nxyz"), "h\r\n\r\nxyz", 2), bytes("xy"));
}

#[test]
fn a_port_is_accepted_from_1024_on() {
    assert_eq!(accepted_port(Some(1024)), Some(1024));
    assert_eq!(accepted_port(Some(65535)), Some(65535));
    assert_eq!(accepted_port(Some(1023)), None);
    assert_eq!(accepted_port(None), None);
}

#[test]
fn an_answer_is_written_out() {
    let r = Response {
        status: 200,
        content_type: "text/plain".to_string(),
        body: bytes("hi"),
        headers: vec![("A".to_string(), "b".to_string()), ("C".to_string(), "d".to_string())],
    };
    assert_eq!(
        text(&r.to_bytes()),
        "HTTP/1.1 200 OK\r\nContent-Type: text/plain\r\nContent-Length: 2\r\n\
         Connection: close\r\nA: b\r\nC: d\r\n\r\nhi"
    );
    for (status, words) in [
        (204, "No Content"),
        (404, "Not Found"),
        (413, "Request Entity Too Large"),
        (400, "Unknown"),
        (500, "Unknown"),
    ] {
        let r = Response {
            status,
            content_type: String::new(),
            body: Vec::new(),
            headers: Vec::new(),
        };
        assert_eq!(
            r.head(),
            format!(
                "HTTP/1.1 {} {}\r\nContent-Type: \r\nContent-Length: 0\r\nConnection: close\r\n\r\n",
                status, words
            )
        );
    }
}

#[test]
fn the_fixed_answers_say_what_they_should() {
    let r = preflight_response();
    assert_eq!((r.status, r.body.len(), r.headers.len()), (204, 0, 3));
    assert_eq!(r.headers[1].1, "GET, POST, OPTIONS");
    let r = network_info_response(Some("10.0.0.2".to_string()), 9000);
    assert_eq!(text(&r.body), r#"{"ip":"10.0.0.2","port":9000}"#);
    assert_eq!(text(&network_info_response(None, 1).body), r#"{"ip":"unknown","port":1}"#);
    assert_eq!(text(&version_response("1.2.3").body), r#"{"version":"1.2.3"}"#);
    let r = refused_response();
    assert_eq!((r.status, text(&r.body).as_str(), r.headers.len()), (404, "Not Found", 1));
    let r = too_large_response();
    assert_eq!((r.status, text(&r.body).as_str(), r.headers.len()), (413, "Request Too Large", 0));
    assert_eq!(text(&shutdown_response().body), r#"{"ok":true}"#);
    assert_eq!(text(&port_moved_response(9001).body), r#"{"ok":true,"port":9001}"#);
    let r = port_not_stored_response("disk full");
    assert_eq!((r.status, text(&r.body).as_str()), (500, r#"{"ok":false,"error":"disk full"}"#));
    let r = port_refused_response();
    assert_eq!(r.status, 400);
    assert_eq!(text(&r.body), r#"{"ok":false,"error":"port must be 1024-65535"}"#);
    assert_eq!(r.headers[1].1, "POST, OPTIONS");
}

#[test]
fn files_are_served_with_their_type_and_cache() {
    assert_eq!(file_path("/"), "index.html");
    assert_eq!(file_path("//assets/a.js"), "assets/a.js");
    assert_eq!(file_path(""), "");
    let r = file_response("/assets/a.js", Some(bytes("x")), None);
    assert_eq!(r.content_type, "application/javascript; charset=utf-8");
    assert_eq!(r.headers[2].1, "public, max-age=31536000, immutable");
    let r = file_response("/", Some(bytes("x")), None);
    assert_eq!(r.content_type, "text/html; charset=utf-8");
    assert_eq!(r.headers[2].1, "no-cache");
    // An unknown path is the client's to route.
    let r = file_response("/race/3", None, Some(bytes("index")));
    assert_eq!((r.status, text(&r.body).as_str()), (200, "index"));
    assert_eq!(r.content_type, "text/html; charset=utf-8");
    let r = file_response("/race/3", None, None);
    assert_eq!((r.status, r.headers.len()), (404, 2));
}

#[test]
fn media_types_go_by_extension() {
    for (path, mime) in [
        ("a.html", "text/html; charset=utf-8"),
        ("a.htm", "text/html; charset=utf-8"),
        ("a.js", "application/javascript; charset=utf-8"),
        ("a.mjs", "application/javascript; charset=utf-8"),
        ("a.css", "text/css; charset=utf-8"),
        ("a.json", "application/json"),
        ("a.svg", "image/svg+xml"),
        ("a.png", "image/png"),
        ("a.jpg", "image/jpeg"),
        ("a.jpeg", "image/jpeg"),
        ("a.gif", "image/gif"),
        ("a.ico", "image/x-icon"),
        ("a.woff", "font/woff"),
        ("a.woff2", "font/woff2"),
        ("a.ttf", "font/ttf"),
        ("a.webmanifest", "application/manifest+json"),
        ("a.txt", "text/plain; charset=utf-8"),
        ("a.HTML", "application/octet-stream"),
        ("a", "application/octet-stream"),
        (".css", "application/octet-stream"),
    ] {
        assert_eq!(mime_type(path), mime, "{}", path);
    }
}

#[test]
fn extensions_are_those_of_the_last_component() {
    for path in [
        "a.b", "a.b.c", "x/a.b", "x.y/a", "a.", ".a", ".a.b", "a/", "a.b/", "a.b/.", "a.b/..",
        "", "/", "..", ".", "./", "./.", "a..b", "x/./a.b/./", "...", "..a", "a/..b",
    ] {
        let expected = std::path::Path::new(path).extension().and_then(|e| e.to_str());
        assert_eq!(extension_of(path).as_deref(), expected, "{:?}", path);
    }
    assert!(has_extension("a.xml", "xml"));
    assert!(!has_extension("a.xmlx", "xml"));
}

#[test]
fn a_request_is_answered_by_its_plan() {
    let plan = |s: &str, server| handle_http(&bytes(s), server, "1.0.0");
    assert!(matches!(plan("OPTIONS / HTTP/1.1\r\n\r\n", false), Plan::Reply(r) if r.status == 204));
    assert!(matches!(plan("GET /api/network-info HTTP/1.1\r\n\r\n", false), Plan::NetworkInfo));
    assert!(matches!(
        plan("GET /api/version HTTP/1.1\r\n\r\n", true),
        Plan::Reply(r) if text(&r.body) == r#"{"version":"1.0.0"}"#
    ));
    assert!(matches!(plan("post /api/shutdown HTTP/1.1\r\n\r\n", false), Plan::Stop(_)));
    assert!(matches!(
        plan("POST /api/shutdown HTTP/1.1\r\n\r\n", true),
        Plan::Reply(r) if r.status == 404
    ));
    let request = "POST /api/set-port HTTP/1.1\r\nContent-Length: 13\r\n\r\n{\"port\":9001}";
    assert!(matches!(
        plan(request, false),
        Plan::MovePort(Some(body)) if text(&body) == "{\"port\":9001}"
    ));
    assert!(matches!(plan("GET /x HTTP/1.1\r\n\r\n", false), Plan::File(p) if p == "/x"));
}

#[test]
fn any_origin_may_read_an_answer() {
    let answers = vec![
        preflight_response(),
        network_info_response(None, 9000),
        version_response("1.0.0"),
        refused_response(),
        shutdown_response(),
        port_moved_response(9001),
        port_not_stored_response("disk full"),
        port_refused_response(),
        file_response("/", Some(bytes("x")), None),
        file_response("/x", None, None),
    ];
    for r in answers {
        assert_eq!(r.headers[0].0, "Access-Control-Allow-Origin");
        assert_eq!(r.headers[0].1, "*");
    }
}
