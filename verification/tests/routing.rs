use matrix_rust_p2p_client::message::Target;
use matrix_rust_p2p_client::route::{find_route, Route};
use matrix_rust_p2p_client::text::{contains_char, same_text, split, starts_with};

fn route(path: &str) -> Option<Route> {
    find_route(&split(path, '/'))
}

fn target(path: &str, query: Option<&str>) -> Target {
    Target {
        scheme: None,
        authority: None,
        path: path.to_string(),
        query: query.map(|q| q.to_string()),
    }
}

#[test]
fn split_gives_the_pieces_between_separators() {
    assert_eq!(split("/a/bc", '/'), vec!["", "a", "bc"]);
    assert_eq!(split("", '/'), vec![""]);
    assert_eq!(split("/", '/'), vec!["", ""]);
    assert_eq!(split("a//b/", '/'), vec!["a", "", "b", ""]);
    assert_eq!(split("no separator", '/'), vec!["no separator"]);
    assert_eq!(split("\u{e4}/\u{1f600}", '/'), vec!["\u{e4}", "\u{1f600}"]);
}

#[test]
fn split_agrees_with_std() {
    for text in ["", "/", "a/b", "//", "/_matrix/client/r0/login", "x/\u{e4}/"] {
        let expected: Vec<String> = text.split('/').map(|p| p.to_string()).collect();
        assert_eq!(split(text, '/'), expected);
    }
}

#[test]
fn join_undoes_split() {
    for text in ["", "/", "a/b", "//", "/_matrix/client/r0/login"] {
        assert_eq!(split(text, '/').join("/"), text);
    }
}

#[test]
fn split_undoes_join() {
    let pieces = vec!["".to_string(), "a".to_string(), "".to_string(), "b c".to_string()];
    assert_eq!(split(&pieces.join("/"), '/'), pieces);
}

#[test]
fn text_questions() {
    assert!(same_text("join", "join"));
    assert!(!same_text("join", "Join"));
    assert!(starts_with("%21room", "%21"));
    assert!(starts_with("%21", "%21"));
    assert!(!starts_with("%2", "%21"));
    assert!(!starts_with("!room", "%21"));
    assert!(starts_with("anything", ""));
    assert!(contains_char("a?b", '?'));
    assert!(!contains_char("ab", '?'));
    assert!(!contains_char("", '?'));
}

#[test]
fn target_is_written_with_all_its_parts() {
    let full = Target {
        scheme: Some("https".to_string()),
        authority: Some("localhost:8448".to_string()),
        path: "/_matrix/client/r0/sync".to_string(),
        query: Some("since=1".to_string()),
    };
    assert_eq!(full.text(), "https://localhost:8448/_matrix/client/r0/sync?since=1");
    assert_eq!(target("/login", None).text(), "/login");
}

#[test]
fn an_empty_query_is_written_as_a_question_mark() {
    assert_eq!(
        target("/_matrix/client/r0/register", Some("")).text(),
        "/_matrix/client/r0/register?"
    );
}

#[test]
fn target_is_written_as_http_writes_it() {
    for text in [
        "/_matrix/client/r0/register?",
        "/_matrix/client/r0/login",
        "https://localhost/_matrix/client/r0/sync?since=a/b",
        "http://example.com",
        "*",
        "example.com",
    ] {
        let uri: http::Uri = text.parse().unwrap();
        let parts = Target {
            scheme: uri.scheme_str().map(|s| s.to_string()),
            authority: uri.authority().map(|a| a.to_string()),
            path: uri.path().to_string(),
            query: uri.query().map(|q| q.to_string()),
        };
        assert_eq!(parts.text(), uri.to_string());
    }
}

#[test]
fn join_room_is_routed() {
    assert_eq!(
        route("/_matrix/client/r0/rooms/%21room%3Ap2p.com/join"),
        Some(Route::JoinRoom { room_id: "%21room%3Ap2p.com".to_string() })
    );
}

#[test]
fn send_event_is_routed() {
    assert_eq!(
        route("/_matrix/client/r0/rooms/%21r/send/m.room.message/txn1"),
        Some(Route::SendEvent {
            room_id: "%21r".to_string(),
            event_type: "m.room.message".to_string(),
            txn_id: "txn1".to_string(),
        })
    );
}

#[test]
fn endpoints_without_parameters_are_routed() {
    assert_eq!(route("/_matrix/client/r0/register?"), Some(Route::Register));
    assert_eq!(route("/_matrix/client/r0/sync?"), Some(Route::Sync));
    assert_eq!(route("/_matrix/client/r0/createRoom"), Some(Route::CreateRoom));
    assert_eq!(route("/_matrix/client/r0/login"), Some(Route::Login));
}

#[test]
fn a_question_mark_belongs_to_register_and_sync_only() {
    assert_eq!(route("/_matrix/client/r0/register"), None);
    assert_eq!(route("/_matrix/client/r0/sync"), None);
    assert_eq!(route("/_matrix/client/r0/sync?since=s72"), None);
    assert_eq!(route("/_matrix/client/r0/createRoom?"), None);
    assert_eq!(route("/_matrix/client/r0/login?"), None);
}

#[test]
fn a_room_id_begins_with_an_encoded_exclamation_mark() {
    assert_eq!(route("/_matrix/client/r0/rooms/!room/join"), None);
    assert_eq!(route("/_matrix/client/r0/rooms/%23alias/join"), None);
    assert_eq!(route("/_matrix/client/r0/rooms/!room/send/t/1"), None);
    assert_eq!(
        route("/_matrix/client/r0/rooms/%21/join"),
        Some(Route::JoinRoom { room_id: "%21".to_string() })
    );
}

#[test]
fn other_paths_lead_nowhere() {
    for path in [
        "",
        "/",
        "_matrix/client/r0/login",
        "/_matrix/client/r1/login",
        "/_matrix/client/r0",
        "/_matrix/client/r0/logout",
        "/_matrix/client/r0/login/",
        "/_matrix/client/r0/rooms/%21r/leave",
        "/_matrix/client/r0/rooms/%21r/send/t",
        "/_matrix/client/r0/rooms/%21r/send/t/1/2",
        "/_matrix/client/r0/spaces/%21r/join",
        "https://localhost/_matrix/client/r0/login",
    ] {
        assert_eq!(route(path), None, "{}", path);
    }
}

#[test]
fn a_written_path_leads_back() {
    let parts = ["", "_matrix", "client", "r0", "rooms", "%21a b", "send", "", "7"];
    assert_eq!(
        route(&parts.join("/")),
        Some(Route::SendEvent {
            room_id: "%21a b".to_string(),
            event_type: "".to_string(),
            txn_id: "7".to_string(),
        })
    );
}
