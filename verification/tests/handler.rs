use bounty::handler::{Action, EntryKind, Event, Server, State};
use bounty::listing::DirectoryEntry;
use bounty::response::Response;

const PNG: [u8; 12] = [0x89, 0x50, 0x4e, 0x47, 0x0d, 0x0a, 0x1a, 0x0a, 0x00, 0x00, 0x00, 0x0d];

fn server() -> Server {
    Server::new("/srv/www".to_string())
}

fn receive(request: &[u8]) -> (State, Action) {
    server().step(Server::start(), Event::Received { bytes: request.to_vec() })
}

fn sent(action: Action) -> Response {
    match action {
        Action::Send { response } => response,
        other => panic!("no response: {:?}", other),
    }
}

#[test]
fn a_connection_starts_by_reading() {
    assert_eq!(Server::start(), State::ReadingRequest);
    assert_eq!(server().root, "/srv/www");
}

#[test]
fn get_is_dispatched_to_its_candidate_path() {
    let (state, action) = receive(b"GET /a%20b.txt HTTP/1.1\r\nHost: x\r\n\r\n");
    assert_eq!(state, State::Dispatching);
    assert_eq!(action, Action::Resolve { candidate: "/srv/www/a b.txt".to_string() });
}

#[test]
fn root_listing() {
    let server = server();
    let (state, action) = receive(b"GET / HTTP/1.1\r\n\r\n");
    assert_eq!(state, State::Dispatching);
    assert_eq!(action, Action::Resolve { candidate: "/srv/www/".to_string() });
    let (state, action) = server.step(
        state,
        Event::Resolved { path: "/srv/www".to_string(), kind: EntryKind::Directory },
    );
    assert_eq!(state, State::ListingDirectory { path: "/srv/www".to_string() });
    assert_eq!(action, Action::ListDirectory { path: "/srv/www".to_string() });
    let entries = vec![
        DirectoryEntry { name: "a.txt".to_string(), is_directory: false },
        DirectoryEntry { name: "b".to_string(), is_directory: true },
    ];
    let (state, action) = server.step(state, Event::Listed { entries });
    assert_eq!(state, State::Responded);
    let response = sent(action);
    assert_eq!(response.status, "200 OK");
    assert_eq!(response.content_type, "text/html");
    let body = String::from_utf8(response.body).unwrap();
    assert!(body.contains("<a href=\"a%2Etxt\">a.txt</a>"));
    assert!(body.contains("<a href=\"b/\">b/</a>"));
    assert!(body.contains("<h1>Directory listing for /srv/www</h1>"));
    let (state, action) = server.step(state, Event::Sent);
    assert_eq!(state, State::Responded);
    assert_eq!(action, Action::Close);
}

#[test]
fn favicon_is_never_served() {
    let (state, action) = receive(b"GET /favicon.ico HTTP/1.1\r\n\r\n");
    assert_eq!(state, State::Rejecting);
    assert_eq!(action, Action::Send { response: Response::not_found() });
    let (state, action) = server().step(state, Event::Sent);
    assert_eq!(state, State::Responded);
    assert_eq!(action, Action::Close);
}

#[test]
fn favicon_is_refused_before_the_method_is_looked_at() {
    let (state, action) = receive(b"POST /favicon.ico HTTP/1.1\r\n\r\n");
    assert_eq!(state, State::Rejecting);
    assert_eq!(sent(action).status, "404 Not Found");
}

#[test]
fn post_is_not_allowed() {
    let (state, action) = receive(b"POST / HTTP/1.1\r\n\r\n");
    assert_eq!(state, State::Rejecting);
    let response = sent(action);
    assert_eq!(response, Response::method_not_allowed());
    assert_eq!(
        response.to_bytes(),
        b"HTTP/1.1 405 Method Not Allowed\r\nContent-Type: text/html\r\nContent-Length: 18\r\n\r\nMethod Not Allowed"
            .to_vec()
    );
}

#[test]
fn method_is_matched_exactly() {
    assert_eq!(sent(receive(b"get / HTTP/1.1\r\n").1).status, "405 Method Not Allowed");
    assert_eq!(sent(receive(b"GETS / HTTP/1.1\r\n").1).status, "405 Method Not Allowed");
    assert_eq!(sent(receive(b"HEAD /a HTTP/1.1\r\n").1).status, "405 Method Not Allowed");
}

#[test]
fn empty_request_is_not_allowed() {
    assert_eq!(sent(receive(b"").1).status, "405 Method Not Allowed");
    assert_eq!(sent(receive(b"\r\n\r\n").1).status, "405 Method Not Allowed");
}

#[test]
fn get_without_target_is_not_found() {
    let (state, action) = receive(b"GET\r\n\r\n");
    assert_eq!(state, State::Rejecting);
    assert_eq!(action, Action::Send { response: Response::not_found() });
}

#[test]
fn png_file_is_served_as_it_is() {
    let server = server();
    let (state, action) = receive(b"GET /logo.png HTTP/1.1\r\n\r\n");
    assert_eq!(action, Action::Resolve { candidate: "/srv/www/logo.png".to_string() });
    let (state, action) = server.step(
        state,
        Event::Resolved { path: "/srv/www/logo.png".to_string(), kind: EntryKind::File },
    );
    assert_eq!(state, State::ServingFile { path: "/srv/www/logo.png".to_string() });
    assert_eq!(action, Action::ReadFile { path: "/srv/www/logo.png".to_string() });
    let (state, action) = server.step(state, Event::FileRead { content: PNG.to_vec() });
    assert_eq!(state, State::Responded);
    let response = sent(action);
    assert_eq!(response.status, "200 OK");
    assert_eq!(response.content_type, "image/png");
    assert_eq!(response.body, PNG.to_vec());
    let mut expected =
        b"HTTP/1.1 200 OK\r\nContent-Type: image/png\r\nContent-Length: 12\r\n\r\n".to_vec();
    expected.extend_from_slice(&PNG);
    assert_eq!(response.to_bytes(), expected);
}

#[test]
fn missing_file_is_not_found() {
    let server = server();
    let (state, action) = receive(b"GET /nothing/here.txt HTTP/1.1\r\n\r\n");
    assert_eq!(action, Action::Resolve { candidate: "/srv/www/nothing/here.txt".to_string() });
    let (state, action) = server.step(state, Event::Unresolved);
    assert_eq!(state, State::Rejecting);
    let response = sent(action);
    assert_eq!(response.status, "404 Not Found");
    assert_eq!(
        response.to_bytes(),
        b"HTTP/1.1 404 Not Found\r\nContent-Type: text/html\r\nContent-Length: 9\r\n\r\nNot Found"
            .to_vec()
    );
}

#[test]
fn traversal_is_forbidden_once_canonical() {
    let server = server();
    let (state, action) = receive(b"GET /../../etc/passwd HTTP/1.1\r\n\r\n");
    assert_eq!(state, State::Dispatching);
    assert_eq!(action, Action::Resolve { candidate: "/srv/www/../../etc/passwd".to_string() });
    let (state, action) = server.step(
        state,
        Event::Resolved { path: "/etc/passwd".to_string(), kind: EntryKind::File },
    );
    assert_eq!(state, State::Rejecting);
    assert_eq!(action, Action::Send { response: Response::forbidden() });
}

#[test]
fn encoded_traversal_is_forbidden_too() {
    let server = server();
    let (state, action) = receive(b"GET /%2e%2e/%2e%2e/etc HTTP/1.1\r\n\r\n");
    assert_eq!(action, Action::Resolve { candidate: "/srv/www/../../etc".to_string() });
    let (state, action) =
        server.step(state, Event::Resolved { path: "/etc".to_string(), kind: EntryKind::Directory });
    assert_eq!(state, State::Rejecting);
    assert_eq!(sent(action).status, "403 Forbidden");
}

#[test]
fn sibling_with_a_longer_name_is_forbidden() {
    let (state, action) = server().step(
        State::Dispatching,
        Event::Resolved { path: "/srv/www2/a.txt".to_string(), kind: EntryKind::File },
    );
    assert_eq!(state, State::Rejecting);
    assert_eq!(sent(action).status, "403 Forbidden");
}

#[test]
fn special_file_is_not_found() {
    let (state, action) = server().step(
        State::Dispatching,
        Event::Resolved { path: "/srv/www/fifo".to_string(), kind: EntryKind::Other },
    );
    assert_eq!(state, State::Rejecting);
    assert_eq!(action, Action::Send { response: Response::not_found() });
}

#[test]
fn unreadable_file_is_a_server_error() {
    let (state, action) = server().step(
        State::ServingFile { path: "/srv/www/a.txt".to_string() },
        Event::ReadFailed,
    );
    assert_eq!(state, State::Responded);
    let response = sent(action);
    assert_eq!(response, Response::internal_server_error());
    assert_eq!(
        response.to_bytes(),
        b"HTTP/1.1 500 Internal Server Error\r\nContent-Type: text/html\r\nContent-Length: 21\r\n\r\nInternal Server Error"
            .to_vec()
    );
}

#[test]
fn failed_listing_drops_the_connection() {
    let (state, action) = server().step(
        State::ListingDirectory { path: "/srv/www".to_string() },
        Event::ListingFailed,
    );
    assert_eq!(state, State::Responded);
    assert_eq!(action, Action::Close);
}

#[test]
fn text_file_without_signature_is_octet_stream() {
    let (state, action) = server().step(
        State::ServingFile { path: "/srv/www/a.txt".to_string() },
        Event::FileRead { content: b"hello".to_vec() },
    );
    assert_eq!(state, State::Responded);
    assert_eq!(
        sent(action).to_bytes(),
        b"HTTP/1.1 200 OK\r\nContent-Type: application/octet-stream\r\nContent-Length: 5\r\n\r\nhello"
            .to_vec()
    );
}

#[test]
fn events_out_of_turn_end_the_connection() {
    let server = server();
    assert_eq!(server.step(State::ReadingRequest, Event::Sent), (State::Responded, Action::Close));
    assert_eq!(
        server.step(State::Dispatching, Event::FileRead { content: vec![1] }),
        (State::Responded, Action::Close)
    );
    assert_eq!(
        server.step(State::Rejecting, Event::Received { bytes: b"GET / HTTP/1.1\r\n".to_vec() }),
        (State::Responded, Action::Close)
    );
    assert_eq!(
        server.step(State::Responded, Event::Received { bytes: b"GET / HTTP/1.1\r\n".to_vec() }),
        (State::Responded, Action::Close)
    );
    assert_eq!(
        server.step(State::ServingFile { path: "/srv/www/a".to_string() }, Event::Unresolved),
        (State::Responded, Action::Close)
    );
}

#[test]
fn same_request_twice_gives_identical_bytes() {
    let server = server();
    let mut responses: Vec<Vec<u8>> = Vec::new();
    for _ in 0..2 {
        let (state, _) = server
            .step(Server::start(), Event::Received { bytes: b"GET /sub HTTP/1.1\r\n\r\n".to_vec() });
        let (state, _) = server.step(
            state,
            Event::Resolved { path: "/srv/www/sub".to_string(), kind: EntryKind::Directory },
        );
        let entries = vec![
            DirectoryEntry { name: "x y".to_string(), is_directory: false },
            DirectoryEntry { name: "z".to_string(), is_directory: true },
        ];
        let (_, action) = server.step(state, Event::Listed { entries });
        responses.push(sent(action).to_bytes());
    }
    assert_eq!(responses[0], responses[1]);
    assert_eq!(server.root, "/srv/www");
}

#[test]
fn requests_that_differ_only_after_the_first_line_are_answered_alike() {
    let first = receive(b"GET /a HTTP/1.1\r\nHost: one\r\n\r\n");
    let second = receive(b"GET /a HTTP/1.0\r\nUser-Agent: two\r\n\r\nbody");
    assert_eq!(first, second);
}

#[test]
fn route_and_dispatch_are_the_two_decisions() {
    let server = server();
    let request = bounty::request::parse_request(b"GET /x HTTP/1.1\r\n");
    assert_eq!(
        server.route(&request),
        (State::Dispatching, Action::Resolve { candidate: "/srv/www/x".to_string() })
    );
    assert_eq!(
        server.dispatch(Some("/srv/www/x"), EntryKind::File),
        (
            State::ServingFile { path: "/srv/www/x".to_string() },
            Action::ReadFile { path: "/srv/www/x".to_string() }
        )
    );
    assert_eq!(
        server.dispatch(Some("/srv/x"), EntryKind::File),
        (State::Rejecting, Action::Send { response: Response::forbidden() })
    );
    assert_eq!(
        server.dispatch(None, EntryKind::File),
        (State::Rejecting, Action::Send { response: Response::not_found() })
    );
}
