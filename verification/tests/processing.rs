use matrix_rust_p2p_client::endpoint::{decode, TypedRequest};
use matrix_rust_p2p_client::message::{HttpRequest, HttpResponse, Target};
use matrix_rust_p2p_client::process::{
    answer_challenge, begin, process_request, resume, AccountKind, CallBody, DirectAuth, Halt,
    HomeserverCall, Pending, Registration, Reply, Step,
};
use matrix_rust_p2p_client::report::halt_reason;
use matrix_rust_p2p_client::route::Route;

fn text(s: &str) -> Option<String> {
    Some(s.to_string())
}

fn request(method: &str, path: &str, query: Option<&str>, body: &str) -> HttpRequest {
    HttpRequest {
        method: method.to_string(),
        target: Target {
            scheme: None,
            authority: None,
            path: path.to_string(),
            query: query.map(|q| q.to_string()),
        },
        headers: vec![],
        body: body.as_bytes().to_vec(),
    }
}

fn response(body: &str) -> HttpResponse {
    HttpResponse {
        status: 200,
        headers: vec![("content-type".to_string(), b"application/json".to_vec())],
        body: body.as_bytes().to_vec(),
    }
}

fn process(ev: &HttpRequest) -> Step {
    process_request(ev, text("@test:localhost"), text("p2p_device"))
}

fn call(step: Step) -> (HomeserverCall, Pending) {
    match step {
        Step::Call(call, pending) => (call, pending),
        other => panic!("no call: {:?}", other),
    }
}

fn halt(step: Step) -> Halt {
    match step {
        Step::Halt(halt) => halt,
        other => panic!("no halt: {:?}", other),
    }
}

fn done(step: Step) -> Result<HttpResponse, String> {
    match step {
        Step::Done(result) => result,
        other => panic!("not done: {:?}", other),
    }
}

fn registering() -> Pending {
    Pending::Registration { user_id: text("@test:localhost"), device_id: text("p2p_device") }
}

fn challenge(flows: Vec<Vec<&str>>) -> Reply {
    Reply::Challenged {
        flows: flows
            .into_iter()
            .map(|flow| flow.into_iter().map(|stage| stage.to_string()).collect())
            .collect(),
        reason: "User-Interactive Authentication required.".to_string(),
        debug: "Uiaa".to_string(),
    }
}

fn failure(reason: &str) -> Reply {
    Reply::Failed { reason: reason.to_string(), debug: format!("BadRequest({:?})", reason) }
}

#[test]
fn join_room_is_called() {
    let ev = request("POST", "/_matrix/client/r0/rooms/%21room%3Ap2p.com/join", None, "{}");
    let (call, pending) = call(process(&ev));
    assert!(matches!(pending, Pending::Answer));
    assert_eq!(call.json_body, text("{}"));
    assert_eq!(call.user_id, text("@test:localhost"));
    assert_eq!(call.device_id, text("p2p_device"));
    match call.body {
        CallBody::Routed { route, request: TypedRequest::JoinRoom(request) } => {
            assert_eq!(route, Route::JoinRoom { room_id: "%21room%3Ap2p.com".to_string() });
            assert_eq!(request.room_id.as_str(), "!room:p2p.com");
            assert!(request.third_party_signed.is_none());
        }
        other => panic!("{:?}", other),
    }
}

#[test]
fn send_event_is_called() {
    let ev = request(
        "PUT",
        "/_matrix/client/r0/rooms/%21room%3Ap2p.com/send/m%2Eroom%2Emessage/42",
        None,
        " {\"body\": \"hi\"} ",
    );
    let (call, pending) = call(process(&ev));
    assert!(matches!(pending, Pending::Answer));
    assert_eq!(call.json_body, text("{\"body\": \"hi\"}"));
    match call.body {
        CallBody::Routed { route, request: TypedRequest::SendEvent(request) } => {
            assert_eq!(
                route,
                Route::SendEvent {
                    room_id: "%21room%3Ap2p.com".to_string(),
                    event_type: "m%2Eroom%2Emessage".to_string(),
                    txn_id: "42".to_string(),
                }
            );
            assert_eq!(request.room_id.as_str(), "!room:p2p.com");
            assert_eq!(request.event_type.to_string(), "m.room.message");
            assert_eq!(request.txn_id, "42");
            assert_eq!(request.data.get(), "{\"body\": \"hi\"}");
        }
        other => panic!("{:?}", other),
    }
}

#[test]
fn register_is_called() {
    let body = "{\"username\":\"test\",\"password\":\"password\",\"device_id\":\"p2p_device\"}";
    let ev = request("POST", "/_matrix/client/r0/register", Some(""), body);
    let (call, pending) = call(process(&ev));
    match pending {
        Pending::Registration { user_id, device_id } => {
            assert_eq!(user_id, text("@test:localhost"));
            assert_eq!(device_id, text("p2p_device"));
        }
        other => panic!("{:?}", other),
    }
    assert_eq!(call.json_body, text(body));
    match call.body {
        CallBody::Routed { route: Route::Register, request: TypedRequest::Register(request) } => {
            assert_eq!(request.username, text("test"));
            assert_eq!(request.password, text("password"));
            assert!(request.auth.is_none());
            assert!(request.kind.is_none());
            assert!(!request.inhibit_login);
        }
        other => panic!("{:?}", other),
    }
}

#[test]
fn sync_is_called_with_an_empty_body() {
    let ev = request("GET", "/_matrix/client/r0/sync", Some(""), "");
    let (call, pending) = call(process(&ev));
    assert!(matches!(pending, Pending::Answer));
    assert_eq!(call.json_body, None);
    match call.body {
        CallBody::Routed { route: Route::Sync, request: TypedRequest::Sync(request) } => {
            assert!(request.since.is_none());
            assert!(!request.full_state);
        }
        other => panic!("{:?}", other),
    }
}

#[test]
fn sync_is_called_whatever_the_body_is() {
    let ev = request("GET", "/_matrix/client/r0/sync", Some(""), "not json");
    let (call, _) = call(process(&ev));
    assert_eq!(call.json_body, None);
    assert!(matches!(call.body, CallBody::Routed { route: Route::Sync, .. }));
}

#[test]
fn create_room_is_called() {
    let ev = request("POST", "/_matrix/client/r0/createRoom", None, "{\"name\":\"test\"}");
    let (call, _) = call(process(&ev));
    match call.body {
        CallBody::Routed {
            route: Route::CreateRoom,
            request: TypedRequest::CreateRoom(request),
        } => assert_eq!(request.name, text("test")),
        other => panic!("{:?}", other),
    }
}

#[test]
fn login_is_called() {
    let body = "{\"identifier\":{\"type\":\"m.id.user\",\"user\":\"test\"},\
                \"type\":\"m.login.password\",\"password\":\"secret\",\"device_id\":\"d\"}";
    let ev = request("POST", "/_matrix/client/r0/login", None, body);
    let (call, _) = call(process(&ev));
    match call.body {
        CallBody::Routed { route: Route::Login, request: TypedRequest::Login(request) } => {
            assert_eq!(request.device_id.map(|d| d.as_str().to_string()), text("d"));
        }
        other => panic!("{:?}", other),
    }
}

#[test]
fn a_call_is_made_without_a_user_where_there_is_none() {
    let ev = request("POST", "/_matrix/client/r0/createRoom", None, "{}");
    let (call, _) = call(process_request(&ev, None, None));
    assert_eq!(call.user_id, None);
    assert_eq!(call.device_id, None);
}

#[test]
fn an_unknown_path_halts_with_its_segments() {
    let ev = request("GET", "/_matrix/client/r0/whoami", None, "");
    let halt = halt(process(&ev));
    let segments: Vec<String> =
        ["", "_matrix", "client", "r0", "whoami"].iter().map(|s| s.to_string()).collect();
    assert_eq!(
        halt_reason(&halt),
        "not implemented: [\"\", \"_matrix\", \"client\", \"r0\", \"whoami\"]"
    );
    assert_eq!(halt, Halt::Unrouted { segments });
}

#[test]
fn an_absolute_uri_is_not_routed() {
    let mut ev = request("POST", "/_matrix/client/r0/login", None, "{}");
    ev.target.scheme = text("https");
    ev.target.authority = text("localhost");
    assert!(matches!(halt(process(&ev)), Halt::Unrouted { .. }));
}

#[test]
fn a_body_that_does_not_decode_halts() {
    let ev = request("POST", "/_matrix/client/r0/login", None, "{}");
    assert_eq!(halt(process(&ev)), Halt::Undecodable);
    let ev = request("POST", "/_matrix/client/r0/createRoom", None, "not json");
    assert_eq!(halt(process(&ev)), Halt::Undecodable);
}

#[test]
fn a_room_id_that_does_not_decode_halts() {
    let ev = request("POST", "/_matrix/client/r0/rooms/%21/join", None, "{}");
    assert_eq!(halt(process(&ev)), Halt::Undecodable);
}

#[test]
fn a_query_inside_an_event_path_halts() {
    let ev = request("PUT", "/_matrix/client/r0/rooms/%21r", Some("x/send/t/1"), "{}");
    assert_eq!(halt(process(&ev)), Halt::Undecodable);
    let ev = request("PUT", "/_matrix/client/r0/rooms/%21r%3Ax.y/send/t", Some("x/1"), "{}");
    assert_eq!(halt(process(&ev)), Halt::Undecodable);
}

#[test]
fn a_query_behind_a_transaction_id_belongs_to_it() {
    let ev = request("PUT", "/_matrix/client/r0/rooms/%21r%3Ax.y/send/t/1", Some("a"), "{}");
    let (call, _) = call(process(&ev));
    match call.body {
        CallBody::Routed { route: Route::SendEvent { txn_id, .. }, .. } => {
            assert_eq!(txn_id, "1?a");
        }
        other => panic!("{:?}", other),
    }
}

#[test]
fn decoding_needs_a_uri() {
    let route = Route::SendEvent {
        room_id: "%21a b".to_string(),
        event_type: "t".to_string(),
        txn_id: "1".to_string(),
    };
    let target = "/_matrix/client/r0/rooms/%21a b/send/t/1";
    assert!(decode(&route, target, &b"{}".to_vec()).is_none());
}

#[test]
fn beginning_depends_on_what_was_found() {
    let step = begin(vec!["x".to_string()], None, None, None, None);
    assert_eq!(halt(step), Halt::Unrouted { segments: vec!["x".to_string()] });
    let step = begin(vec![], Some((Route::Login, None)), text("{}"), None, None);
    assert_eq!(halt(step), Halt::Undecodable);
}

#[test]
fn an_answer_is_handed_on() {
    for pending in [Pending::Answer, registering(), Pending::ChallengedRegistration] {
        let result = done(resume(pending, Reply::Answered(Ok(response("{}")))));
        assert_eq!(result, Ok(response("{}")));
    }
    let result = done(resume(Pending::Answer, Reply::Answered(Err("broken".to_string()))));
    assert_eq!(result, Err("broken".to_string()));
}

#[test]
fn a_failure_is_the_error() {
    assert_eq!(done(resume(Pending::Answer, failure("M_FORBIDDEN"))), Err("M_FORBIDDEN".to_string()));
    let result = done(resume(Pending::Answer, challenge(vec![vec!["m.login.dummy"]])));
    assert_eq!(result, Err("User-Interactive Authentication required.".to_string()));
}

#[test]
fn a_challenged_registration_is_repeated_with_the_dummy_stage() {
    let reply = challenge(vec![vec!["m.login.dummy", "m.login.email"], vec!["m.login.sso"]]);
    let (call, pending) = call(resume(registering(), reply));
    assert!(matches!(pending, Pending::ChallengedRegistration));
    assert_eq!(call.user_id, text("@test:localhost"));
    assert_eq!(call.device_id, text("p2p_device"));
    assert_eq!(
        call.json_body,
        text("{\"auth\":{\"type\":\"m.login.dummy\"},\"device_id\":\"p2p_device\"}")
    );
    match call.body {
        CallBody::Registration(registration) => assert_eq!(
            registration,
            Registration {
                password: None,
                username: None,
                device_id: text("p2p_device"),
                initial_device_display_name: None,
                auth: Some(DirectAuth {
                    kind: "m.login.dummy".to_string(),
                    session: None,
                    parameters: vec![],
                }),
                kind: Some(AccountKind::User),
                inhibit_login: false,
            }
        ),
        other => panic!("{:?}", other),
    }
}

#[test]
fn a_registration_without_a_device_says_so() {
    let pending = Pending::Registration { user_id: None, device_id: None };
    let (call, _) = call(resume(pending, challenge(vec![vec!["m.login.dummy"]])));
    assert_eq!(
        call.json_body,
        text("{\"auth\":{\"type\":\"m.login.dummy\"},\"device_id\":null}")
    );
    assert_eq!(call.user_id, None);
}

#[test]
fn a_device_is_escaped_in_json() {
    let pending = Pending::Registration { user_id: None, device_id: text("a\"b\\c\n") };
    let (call, _) = call(resume(pending, challenge(vec![vec!["m.login.dummy"]])));
    assert_eq!(
        call.json_body,
        text("{\"auth\":{\"type\":\"m.login.dummy\"},\"device_id\":\"a\\\"b\\\\c\\n\"}")
    );
    assert_eq!(call.device_id, text("a\"b\\c\n"));
}

#[test]
fn control_characters_of_a_device_are_escaped_in_json() {
    let device = "\u{0}\u{8}\t\u{b}\u{c}\r\u{1f}\u{7f}/\u{e9}";
    let (call, _) = call(answer_challenge(None, text(device)));
    assert_eq!(
        call.json_body,
        text(
            "{\"auth\":{\"type\":\"m.login.dummy\"},\"device_id\":\
             \"\\u0000\\b\\t\\u000b\\f\\r\\u001f\u{7f}/\u{e9}\"}"
        )
    );
    assert_eq!(call.device_id, text(device));
    assert_eq!(call.user_id, None);
}

#[test]
fn a_registration_halts_on_anything_else() {
    let step = resume(registering(), challenge(vec![]));
    assert_eq!(halt(step), Halt::NoStage);
    let step = resume(registering(), challenge(vec![vec![], vec!["m.login.dummy"]]));
    assert_eq!(halt(step), Halt::NoStage);
    let step = resume(registering(), challenge(vec![vec!["m.login.sso", "m.login.dummy"]]));
    assert_eq!(halt(step), Halt::OtherStage);
    let step = resume(registering(), failure("no"));
    assert_eq!(halt(step), Halt::NotChallenged);
}

#[test]
fn a_registration_is_not_repeated_twice() {
    let step = resume(Pending::ChallengedRegistration, challenge(vec![vec!["m.login.dummy"]]));
    assert_eq!(halt(step), Halt::ChallengeFailed { debug: "Uiaa".to_string() });
    let halt = halt(resume(Pending::ChallengedRegistration, failure("no")));
    assert_eq!(halt, Halt::ChallengeFailed { debug: "BadRequest(\"no\")".to_string() });
    assert_eq!(
        halt_reason(&halt),
        "called `Result::unwrap()` on an `Err` value: BadRequest(\"no\")"
    );
}

#[test]
fn halts_have_their_reasons() {
    assert_eq!(halt_reason(&Halt::OtherStage), "conduit only uses 'm.login.dummy'");
    assert_eq!(halt_reason(&Halt::NotChallenged), "did not find UIAA error");
    assert_eq!(
        halt_reason(&Halt::NoStage),
        "index out of bounds: the len is 0 but the index is 0"
    );
    assert_eq!(
        halt_reason(&Halt::Undecodable),
        "called `Result::unwrap()` on an `Err` value"
    );
    assert_eq!(halt_reason(&Halt::Unrouted { segments: vec![] }), "not implemented: []");
}
