use matrix_rust_p2p_client::client::{
    send_turn, ClientError, P2PClient, SendAction, SendEvent, SendPhase, Session,
};
use matrix_rust_p2p_client::message::{HttpRequest, HttpResponse, Target};
use matrix_rust_p2p_client::peers::{
    announce, inject_event, peer_turn, DiscoveryEvent, PeerAction, PeerEvent, PeerPhase,
    ViewChange,
};
use matrix_rust_p2p_client::report::{list, received_line, write_message_line, GossipEvent};
use matrix_rust_p2p_client::server::{
    client_turn, serves, ClientAction, ClientEvent, ClientPhase,
};

fn request(method: &str) -> HttpRequest {
    HttpRequest {
        method: method.to_string(),
        target: Target {
            scheme: None,
            authority: None,
            path: "/_matrix/client/r0/login".to_string(),
            query: None,
        },
        headers: vec![("accept".to_string(), b"*/*".to_vec())],
        body: b"{}".to_vec(),
    }
}

fn response(body: &str) -> HttpResponse {
    HttpResponse { status: 200, headers: vec![], body: body.as_bytes().to_vec() }
}

fn chat(body: &str) -> (String, Vec<u8>) {
    ("chat".to_string(), body.as_bytes().to_vec())
}

fn share(body: &str) -> ClientAction {
    ClientAction::Share { topic: "chat".to_string(), body: body.as_bytes().to_vec() }
}

fn publish(topic: &str, body: &str) -> PeerAction {
    PeerAction::Publish { topic: topic.to_string(), body: body.as_bytes().to_vec() }
}

fn strings(items: &[&str]) -> Vec<String> {
    items.iter().map(|s| s.to_string()).collect()
}

#[test]
fn four_methods_are_served() {
    for method in ["GET", "POST", "PUT", "DELETE"] {
        assert!(serves(method));
    }
    for method in ["get", "PATCH", "HEAD", "OPTIONS", "GET ", ""] {
        assert!(!serves(method));
    }
}

#[test]
fn no_request_yields() {
    let turn = client_turn(ClientPhase::Polling, ClientEvent::Polled(None));
    assert_eq!(turn, (ClientPhase::Polling, ClientAction::Yield));
}

#[test]
fn a_response_is_replied_and_shared() {
    for method in ["GET", "POST", "PUT", "DELETE"] {
        let (phase, action) =
            client_turn(ClientPhase::Polling, ClientEvent::Polled(Some(request(method))));
        assert_eq!(action, ClientAction::Process(request(method)));
        let (phase, action) = client_turn(phase, ClientEvent::Processed(Ok(response("ok"))));
        assert_eq!(action, ClientAction::Reply(Ok(response("ok"))));
        let (phase, action) = client_turn(phase, ClientEvent::Replied(Ok(())));
        assert_eq!(action, share("ok"));
        let (phase, action) = client_turn(phase, ClientEvent::Shared(Ok(())));
        assert_eq!(action, ClientAction::Poll);
        assert_eq!(phase, ClientPhase::Polling);
    }
}

#[test]
fn an_error_is_replied_and_not_shared() {
    for method in ["GET", "POST", "PUT", "DELETE"] {
        let phase = ClientPhase::Processing { method: method.to_string() };
        let (phase, action) = client_turn(phase, ClientEvent::Processed(Err("no".to_string())));
        assert_eq!(action, ClientAction::Reply(Err("no".to_string())));
        let turn = client_turn(phase, ClientEvent::Replied(Ok(())));
        assert_eq!(turn, (ClientPhase::Polling, ClientAction::Poll));
    }
}

#[test]
fn an_unserved_method_stops_after_processing() {
    let (phase, action) =
        client_turn(ClientPhase::Polling, ClientEvent::Polled(Some(request("PATCH"))));
    assert_eq!(action, ClientAction::Process(request("PATCH")));
    let turn = client_turn(phase, ClientEvent::Processed(Ok(response("ok"))));
    let reason = "Unsupported method used PATCH".to_string();
    assert_eq!(turn, (ClientPhase::Stopped, ClientAction::Stop(reason)));
}

#[test]
fn a_client_that_is_gone_stops_the_loop() {
    for method in ["GET", "DELETE"] {
        let phase = ClientPhase::Replying { method: method.to_string(), shared: None };
        let turn = client_turn(phase, ClientEvent::Replied(Err("channel closed".to_string())));
        let reason = format!("{} failed to send response back to client channel closed", method);
        assert_eq!(turn, (ClientPhase::Stopped, ClientAction::Stop(reason)));
    }
}

#[test]
fn a_peer_loop_that_is_gone_stops_the_loop() {
    let event = ClientEvent::Shared(Err("SendError { .. }".to_string()));
    let turn = client_turn(ClientPhase::Sharing, event);
    let reason = "called `Result::unwrap()` on an `Err` value: SendError { .. }".to_string();
    assert_eq!(turn, (ClientPhase::Stopped, ClientAction::Stop(reason)));
}

#[test]
fn replies_come_in_order() {
    let results: Vec<Result<HttpResponse, String>> =
        vec![Ok(response("a")), Err("b".to_string()), Ok(response("c"))];
    let mut phase = ClientPhase::Polling;
    let mut replies = vec![];
    let mut shared = vec![];
    for i in 0..results.len() {
        let given = match i {
            0 => Ok(response("a")),
            1 => Err("b".to_string()),
            _ => Ok(response("c")),
        };
        let mut event = ClientEvent::Polled(Some(request("PUT")));
        loop {
            let (next, action) = client_turn(phase, event);
            phase = next;
            event = match action {
                ClientAction::Process(_) => ClientEvent::Processed(match &given {
                    Ok(r) => Ok(response(std::str::from_utf8(&r.body).unwrap())),
                    Err(e) => Err(e.clone()),
                }),
                ClientAction::Reply(result) => {
                    replies.push(result);
                    ClientEvent::Replied(Ok(()))
                }
                ClientAction::Share { topic, body } => {
                    shared.push((topic, body));
                    ClientEvent::Shared(Ok(()))
                }
                _ => break,
            };
        }
    }
    assert_eq!(replies, results);
    assert_eq!(shared, vec![chat("a"), chat("c")]);
}

/// Runs the client loop from the start, and gives back where it stands and what it did.
fn client_run(events: Vec<ClientEvent>) -> (ClientPhase, Vec<ClientAction>) {
    let mut phase = ClientPhase::Polling;
    let mut actions = vec![];
    for event in events {
        let (next, action) = client_turn(phase, event);
        phase = next;
        actions.push(action);
    }
    (phase, actions)
}

/// Runs the peer loop from the start, and gives back where it stands and what it did.
fn peer_run(events: Vec<PeerEvent>) -> (PeerPhase, Vec<PeerAction>) {
    let mut phase = PeerPhase::Waiting;
    let mut actions = vec![];
    for event in events {
        let (next, action) = peer_turn(phase, event);
        phase = next;
        actions.push(action);
    }
    (phase, actions)
}

#[test]
fn replies_come_in_order_with_idle_polls_between() {
    let (phase, actions) = client_run(vec![
        ClientEvent::Polled(None),
        ClientEvent::Polled(Some(request("PUT"))),
        ClientEvent::Processed(Ok(response("a"))),
        ClientEvent::Replied(Ok(())),
        ClientEvent::Shared(Ok(())),
        ClientEvent::Polled(None),
        ClientEvent::Polled(None),
        ClientEvent::Polled(Some(request("GET"))),
        ClientEvent::Processed(Err("b".to_string())),
        ClientEvent::Replied(Ok(())),
        ClientEvent::Polled(Some(request("POST"))),
    ]);
    assert_eq!(phase, ClientPhase::Processing { method: "POST".to_string() });
    assert_eq!(
        actions,
        vec![
            ClientAction::Yield,
            ClientAction::Process(request("PUT")),
            ClientAction::Reply(Ok(response("a"))),
            share("a"),
            ClientAction::Poll,
            ClientAction::Yield,
            ClientAction::Yield,
            ClientAction::Process(request("GET")),
            ClientAction::Reply(Err("b".to_string())),
            ClientAction::Poll,
            ClientAction::Process(request("POST")),
        ]
    );
}

#[test]
fn a_body_is_not_shared_where_the_reply_fails() {
    let (phase, actions) = client_run(vec![
        ClientEvent::Polled(Some(request("PUT"))),
        ClientEvent::Processed(Ok(response("a"))),
        ClientEvent::Replied(Err("closed".to_string())),
    ]);
    assert_eq!(phase, ClientPhase::Stopped);
    assert!(!actions.iter().any(|action| matches!(action, ClientAction::Share { .. })));
    let reason = "PUT failed to send response back to client closed".to_string();
    assert_eq!(actions.last(), Some(&ClientAction::Stop(reason)));
}

#[test]
fn bodies_and_network_responses_are_published_in_order() {
    let (phase, actions) = peer_run(vec![
        PeerEvent::Other,
        PeerEvent::Outgoing(Some(chat("a"))),
        PeerEvent::Incoming(request("PUT")),
        PeerEvent::Processed(Ok(response("b"))),
        PeerEvent::Other,
        PeerEvent::Outgoing(Some(chat("c"))),
    ]);
    assert_eq!(phase, PeerPhase::Waiting);
    assert_eq!(
        actions,
        vec![
            PeerAction::Wait,
            publish("chat", "a"),
            PeerAction::Process(request("PUT")),
            publish("chat", "b"),
            PeerAction::Wait,
            publish("chat", "c"),
        ]
    );
}

#[test]
fn the_peer_loop_ends_with_the_error_of_a_network_request() {
    let (phase, actions) = peer_run(vec![
        PeerEvent::Outgoing(Some(chat("a"))),
        PeerEvent::Incoming(request("PUT")),
        PeerEvent::Processed(Err("no".to_string())),
    ]);
    assert_eq!(phase, PeerPhase::Ended);
    assert_eq!(actions.last(), Some(&PeerAction::End("no".to_string())));
}

#[test]
fn outgoing_bodies_are_published() {
    let event = PeerEvent::Outgoing(Some(chat("body")));
    let turn = peer_turn(PeerPhase::Waiting, event);
    assert_eq!(turn, (PeerPhase::Waiting, publish("chat", "body")));
}

#[test]
fn outgoing_bodies_are_published_under_their_own_topic() {
    let event = PeerEvent::Outgoing(Some(("news".to_string(), b"body".to_vec())));
    let turn = peer_turn(PeerPhase::Waiting, event);
    assert_eq!(turn, (PeerPhase::Waiting, publish("news", "body")));
}

#[test]
fn a_client_loop_that_is_gone_stops_the_peer_loop() {
    let turn = peer_turn(PeerPhase::Waiting, PeerEvent::Outgoing(None));
    let reason = "swarm_receiver's sender shutdown".to_string();
    assert_eq!(turn, (PeerPhase::Ended, PeerAction::Stop(reason)));
}

#[test]
fn a_network_request_is_processed_and_published() {
    let (phase, action) = peer_turn(PeerPhase::Waiting, PeerEvent::Incoming(request("PUT")));
    assert_eq!(action, PeerAction::Process(request("PUT")));
    let turn = peer_turn(phase, PeerEvent::Processed(Ok(response("ok"))));
    assert_eq!(turn, (PeerPhase::Waiting, publish("chat", "ok")));
}

#[test]
fn a_network_request_that_fails_ends_the_peer_loop() {
    let turn = peer_turn(PeerPhase::Processing, PeerEvent::Processed(Err("no".to_string())));
    assert_eq!(turn, (PeerPhase::Ended, PeerAction::End("no".to_string())));
}

#[test]
fn other_network_events_are_passed_over() {
    let turn = peer_turn(PeerPhase::Waiting, PeerEvent::Other);
    assert_eq!(turn, (PeerPhase::Waiting, PeerAction::Wait));
}

#[test]
fn addresses_are_announced_once() {
    let mut listening = false;
    assert!(announce(&mut listening, vec![]).is_empty());
    assert!(!listening);
    let first = announce(&mut listening, strings(&["/ip4/127.0.0.1/tcp/1", "/ip4/10.0.0.1/tcp/1"]));
    assert_eq!(first, strings(&["/ip4/127.0.0.1/tcp/1", "/ip4/10.0.0.1/tcp/1"]));
    assert!(listening);
    assert!(announce(&mut listening, strings(&["/ip4/127.0.0.1/tcp/1"])).is_empty());
    assert!(listening);
}

#[test]
fn discovered_peers_are_added() {
    let changes = inject_event(DiscoveryEvent::Discovered(vec![3u8, 1, 3]));
    assert_eq!(changes, vec![ViewChange::Add(3), ViewChange::Add(1), ViewChange::Add(3)]);
}

#[test]
fn expired_peers_are_removed_unless_still_known() {
    let event = DiscoveryEvent::Expired(vec![(1u8, false), (2, true), (3, false)]);
    assert_eq!(inject_event(event), vec![ViewChange::Remove(1), ViewChange::Remove(3)]);
    let event: DiscoveryEvent<u8> = DiscoveryEvent::Expired(vec![]);
    assert!(inject_event(event).is_empty());
}

#[test]
fn messages_are_reported() {
    let event = GossipEvent::Message {
        source: "PeerId(\"Qm\")".to_string(),
        data: b"say \"hi\"\n".to_vec(),
    };
    assert_eq!(
        received_line(&event),
        Some("Received: '\"say \\\"hi\\\"\\n\"' from PeerId(\"Qm\")".to_string())
    );
    let event = GossipEvent::Message { source: "p".to_string(), data: vec![b'a', 0xff] };
    assert_eq!(received_line(&event), Some("Received: '\"a\u{fffd}\"' from p".to_string()));
    assert_eq!(received_line(&GossipEvent::Membership), None);
}

#[test]
fn lines_and_lists() {
    assert_eq!(write_message_line("q", "s"), "Received: 'q' from s");
    assert_eq!(list(&vec![]), "");
    assert_eq!(list(&strings(&["a"])), "a");
    assert_eq!(list(&strings(&["a", "b", "c"])), "a, b, c");
}

#[test]
fn successive_calls_get_their_own_results() {
    let mut phase = ClientPhase::Polling;
    for (method, given) in [("PUT", "a"), ("GET", "b"), ("POST", "c")] {
        let client = P2PClient::new("@u:s".to_string(), "d".to_string(), (), ());
        let (calling, action) =
            client.send_request(false, "https://localhost", &None, method, request(method));
        let sent = match action {
            SendAction::Send(request) => request,
            other => panic!("{:?}", other),
        };
        let (calling, _) = send_turn(calling, SendEvent::Sent(Ok(())));
        let (next, _) = client_turn(phase, ClientEvent::Polled(None));
        let (next, action) = client_turn(next, ClientEvent::Polled(Some(sent)));
        assert_eq!(action, ClientAction::Process(request(method)));
        let (next, action) = client_turn(next, ClientEvent::Processed(Ok(response(given))));
        let reply = match action {
            ClientAction::Reply(result) => result,
            other => panic!("{:?}", other),
        };
        let turn = send_turn(calling, SendEvent::Received(Some(reply)));
        assert_eq!(turn, (SendPhase::Finished, SendAction::Finish(Ok(response(given)))));
        let (next, _) = client_turn(next, ClientEvent::Replied(Ok(())));
        phase = client_turn(next, ClientEvent::Shared(Ok(()))).0;
    }
    assert_eq!(phase, ClientPhase::Polling);
}

#[test]
fn a_new_client_holds_its_channels() {
    let client = P2PClient::new("@u:s".to_string(), "d".to_string(), 1u8, "rx");
    assert_eq!(*client.to_conduit(), 1);
    assert_eq!(*client.from_conduit(), "rx");
}

#[test]
fn a_request_is_sent_as_it_is() {
    let client = P2PClient::new("@u:s".to_string(), "d".to_string(), (), ());
    let session = Some(Session {
        access_token: "t".to_string(),
        user_id: "@other:s".to_string(),
        device_id: "e".to_string(),
    });
    for requires_auth in [true, false] {
        let start = client.send_request(
            requires_auth,
            "https://localhost",
            &session,
            "GET",
            request("PUT"),
        );
        assert_eq!(start, (SendPhase::Sending, SendAction::Send(request("PUT"))));
    }
}

#[test]
fn a_response_is_received() {
    let (phase, action) = send_turn(SendPhase::Sending, SendEvent::Sent(Ok(())));
    assert_eq!(action, SendAction::Receive);
    let turn = send_turn(phase, SendEvent::Received(Some(Ok(response("ok")))));
    assert_eq!(turn, (SendPhase::Finished, SendAction::Finish(Ok(response("ok")))));
}

#[test]
fn errors_are_received_as_state_store_errors() {
    let turn = send_turn(SendPhase::Sending, SendEvent::Sent(Err("channel closed".to_string())));
    let error = ClientError::StateStore("channel closed".to_string());
    assert_eq!(turn, (SendPhase::Finished, SendAction::Finish(Err(error))));
    let event = SendEvent::Received(Some(Err("M_FORBIDDEN".to_string())));
    let error = ClientError::StateStore("M_FORBIDDEN".to_string());
    let turn = send_turn(SendPhase::Receiving, event);
    assert_eq!(turn, (SendPhase::Finished, SendAction::Finish(Err(error))));
}

#[test]
fn a_node_that_is_gone_stops_the_client() {
    let turn = send_turn(SendPhase::Receiving, SendEvent::Received(None));
    let reason = "from_conduit channel shutdown".to_string();
    assert_eq!(turn, (SendPhase::Finished, SendAction::Stop(reason)));
}
