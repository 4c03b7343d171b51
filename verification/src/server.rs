//! The loop that serves the local client.

use crate::message::{HttpRequest, HttpResponse};
use crate::startup;
use crate::text;
use vstd::prelude::*;
use vstd::string::*;

verus! {

/// Where the client loop stands.
#[derive(Debug, PartialEq, Eq)]
pub enum ClientPhase {
    /// It asks for the next request.
    Polling,
    /// A request with this method is being processed.
    Processing { method: String },
    /// The result is on its way to the client, and the body is shared with the peers after that.
    Replying { method: String, shared: Option<Vec<u8>> },
    /// A body is on its way to the peers.
    Sharing,
    /// It has stopped.
    Stopped,
}

/// What the client loop is told.
#[derive(Debug, PartialEq, Eq)]
pub enum ClientEvent {
    /// There is a request, or none yet.
    Polled(Option<HttpRequest>),
    /// The request has been processed.
    Processed(Result<HttpResponse, String>),
    /// The result was handed to the client, or could not be.
    Replied(Result<(), String>),
    /// The body was handed to the peer loop, or could not be.
    Shared(Result<(), String>),
}

/// What the client loop does next.
#[derive(Debug, PartialEq, Eq)]
pub enum ClientAction {
    /// Ask for the next request.
    Poll,
    /// Let other tasks run, and ask for the next request then.
    Yield,
    /// Process this request.
    Process(HttpRequest),
    /// Hand this result to the client.
    Reply(Result<HttpResponse, String>),
    /// Hand this body to the peer loop, to publish under this topic.
    Share { topic: String, body: Vec<u8> },
    /// Stop, for this reason.
    Stop(String),
}

/// The contents of a [`ClientPhase`].
pub enum ClientPhaseView {
    Polling,
    Processing { method: Seq<char> },
    Replying { method: Seq<char>, shared: Option<Seq<u8>> },
    Sharing,
    Stopped,
}

/// The contents of a [`ClientAction`].
pub enum ClientActionView {
    Poll,
    Yield,
    Process(HttpRequest),
    Reply(Result<HttpResponse, String>),
    Share { topic: Seq<char>, body: Seq<u8> },
    Stop(Seq<char>),
}

impl View for ClientPhase {
    type V = ClientPhaseView;

    open spec fn view(&self) -> ClientPhaseView {
        match *self {
            ClientPhase::Polling => ClientPhaseView::Polling,
            ClientPhase::Processing { method } => ClientPhaseView::Processing { method: method@ },
            ClientPhase::Replying { method, shared } => ClientPhaseView::Replying {
                method: method@,
                shared: match shared {
                    Some(body) => Some(body@),
                    None => None,
                },
            },
            ClientPhase::Sharing => ClientPhaseView::Sharing,
            ClientPhase::Stopped => ClientPhaseView::Stopped,
        }
    }
}

impl View for ClientAction {
    type V = ClientActionView;

    open spec fn view(&self) -> ClientActionView {
        match *self {
            ClientAction::Poll => ClientActionView::Poll,
            ClientAction::Yield => ClientActionView::Yield,
            ClientAction::Process(request) => ClientActionView::Process(request),
            ClientAction::Reply(result) => ClientActionView::Reply(result),
            ClientAction::Share { topic, body } => ClientActionView::Share {
                topic: topic@,
                body: body@,
            },
            ClientAction::Stop(reason) => ClientActionView::Stop(reason@),
        }
    }
}

/// Whether the node serves requests with this method.
pub open spec fn is_served(method: Seq<char>) -> bool {
    method == "GET"@ || method == "POST"@ || method == "PUT"@ || method == "DELETE"@
}

/// What the peers get to see of a result: the body of a response, and nothing of an error.
pub open spec fn shared_part(result: Result<HttpResponse, String>) -> Option<Seq<u8>> {
    match result {
        Ok(response) => Some(response.body@),
        Err(_) => None,
    }
}

/// Whether the client loop expects this event now.
pub open spec fn client_expects(phase: ClientPhaseView, event: ClientEvent) -> bool {
    match phase {
        ClientPhaseView::Polling => event is Polled,
        ClientPhaseView::Processing { .. } => event is Processed,
        ClientPhaseView::Replying { .. } => event is Replied,
        ClientPhaseView::Sharing => event is Shared,
        ClientPhaseView::Stopped => false,
    }
}

/// One turn of the client loop: where it stands after an event that it expects, and what it does.
pub open spec fn client_turn_of(phase: ClientPhaseView, event: ClientEvent) -> (
    ClientPhaseView,
    ClientActionView,
) {
    match (phase, event) {
        (ClientPhaseView::Polling, ClientEvent::Polled(None)) => (
            ClientPhaseView::Polling,
            ClientActionView::Yield,
        ),
        (ClientPhaseView::Polling, ClientEvent::Polled(Some(request))) => (
            ClientPhaseView::Processing { method: request.method@ },
            ClientActionView::Process(request),
        ),
        (ClientPhaseView::Processing { method }, ClientEvent::Processed(result)) => if is_served(
            method,
        ) {
            (
                ClientPhaseView::Replying { method, shared: shared_part(result) },
                ClientActionView::Reply(result),
            )
        } else {
            (
                ClientPhaseView::Stopped,
                ClientActionView::Stop("Unsupported method used "@ + method),
            )
        },
        (ClientPhaseView::Replying { method, .. }, ClientEvent::Replied(Err(reason))) => (
            ClientPhaseView::Stopped,
            ClientActionView::Stop(method + " failed to send response back to client "@ + reason@),
        ),
        (ClientPhaseView::Replying { shared: Some(body), .. }, ClientEvent::Replied(Ok(_))) => (
            ClientPhaseView::Sharing,
            ClientActionView::Share { topic: startup::chat_topic(), body },
        ),
        (ClientPhaseView::Replying { shared: None, .. }, ClientEvent::Replied(Ok(_))) => (
            ClientPhaseView::Polling,
            ClientActionView::Poll,
        ),
        (ClientPhaseView::Sharing, ClientEvent::Shared(Ok(_))) => (
            ClientPhaseView::Polling,
            ClientActionView::Poll,
        ),
        (ClientPhaseView::Sharing, ClientEvent::Shared(Err(reason))) => (
            ClientPhaseView::Stopped,
            ClientActionView::Stop(
                "called `Result::unwrap()` on an `Err` value: "@ + reason@,
            ),
        ),
        _ => (phase, ClientActionView::Poll),
    }
}

/// Whether the node serves requests with this method.
pub fn serves(method: &str) -> (yes: bool)
    ensures
        yes == is_served(method@),
        yes == (method@ == "GET"@ || method@ == "POST"@ || method@ == "PUT"@ || method@
            == "DELETE"@),
{
    text::same_text(method, "GET") || text::same_text(method, "POST") || text::same_text(
        method,
        "PUT",
    ) || text::same_text(method, "DELETE")
}

/// One turn of the client loop.
pub fn client_turn(phase: ClientPhase, event: ClientEvent) -> (turn: (ClientPhase, ClientAction))
    requires
        client_expects(phase@, event),
    ensures
        (turn.0@, turn.1@) == client_turn_of(phase@, event),
{
    match phase {
        ClientPhase::Polling => match event {
            ClientEvent::Polled(Some(request)) => (
                ClientPhase::Processing { method: request.method.clone() },
                ClientAction::Process(request),
            ),
            _ => (ClientPhase::Polling, ClientAction::Yield),
        },
        ClientPhase::Processing { method } => match event {
            ClientEvent::Processed(result) => {
                if !serves(method.as_str()) {
                    let reason = "Unsupported method used ".to_string().concat(method.as_str());
                    return (ClientPhase::Stopped, ClientAction::Stop(reason));
                }
                let shared = match &result {
                    Ok(response) => Some(response.body.clone()),
                    Err(_) => None,
                };
                (ClientPhase::Replying { method, shared }, ClientAction::Reply(result))
            },
            _ => vstd::pervasive::unreached(),
        },
        ClientPhase::Replying { method, shared } => match event {
            ClientEvent::Replied(Ok(_)) => match shared {
                Some(body) => (
                    ClientPhase::Sharing,
                    ClientAction::Share { topic: "chat".to_string(), body },
                ),
                None => (ClientPhase::Polling, ClientAction::Poll),
            },
            ClientEvent::Replied(Err(reason)) => {
                let reason = method.concat(" failed to send response back to client ").concat(
                    reason.as_str(),
                );
                (ClientPhase::Stopped, ClientAction::Stop(reason))
            },
            _ => vstd::pervasive::unreached(),
        },
        ClientPhase::Sharing => match event {
            ClientEvent::Shared(Err(reason)) => {
                let reason = "called `Result::unwrap()` on an `Err` value: ".to_string().concat(
                    reason.as_str(),
                );
                (ClientPhase::Stopped, ClientAction::Stop(reason))
            },
            _ => (ClientPhase::Polling, ClientAction::Poll),
        },
        ClientPhase::Stopped => vstd::pervasive::unreached(),
    }
}

/// What the client loop does over a run of events, and where it stands at the end.
pub open spec fn client_run(phase: ClientPhaseView, events: Seq<ClientEvent>) -> (
    ClientPhaseView,
    Seq<ClientActionView>,
)
    decreases events.len(),
{
    if events.len() == 0 {
        (phase, Seq::empty())
    } else {
        let (before, actions) = client_run(phase, events.drop_last());
        let (after, action) = client_turn_of(before, events.last());
        (after, actions.push(action))
    }
}

/// Whether every event of a run comes when the client loop expects it.
pub open spec fn client_run_expected(phase: ClientPhaseView, events: Seq<ClientEvent>) -> bool
    decreases events.len(),
{
    events.len() == 0 || {
        &&& client_run_expected(phase, events.drop_last())
        &&& client_expects(client_run(phase, events.drop_last()).0, events.last())
    }
}

/// A request and what processing it gave.
pub struct Exchange {
    pub request: HttpRequest,
    pub result: Result<HttpResponse, String>,
}

/// The events of one exchange in which everything that is sent arrives.
pub open spec fn exchange_events(exchange: Exchange) -> Seq<ClientEvent> {
    let answered = seq![
        ClientEvent::Polled(Some(exchange.request)),
        ClientEvent::Processed(exchange.result),
        ClientEvent::Replied(Ok(())),
    ];
    if exchange.result is Ok {
        answered.push(ClientEvent::Shared(Ok(())))
    } else {
        answered
    }
}

/// What the client loop does in one exchange.
pub open spec fn exchange_actions(exchange: Exchange) -> Seq<ClientActionView> {
    let answered = seq![
        ClientActionView::Process(exchange.request),
        ClientActionView::Reply(exchange.result),
    ];
    match shared_part(exchange.result) {
        Some(body) => answered.push(
            ClientActionView::Share { topic: startup::chat_topic(), body },
        ).push(ClientActionView::Poll),
        None => answered.push(ClientActionView::Poll),
    }
}

/// The requests that the client loop takes in a run, in order.
pub open spec fn requests(events: Seq<ClientEvent>) -> Seq<HttpRequest>
    decreases events.len(),
{
    if events.len() == 0 {
        Seq::empty()
    } else {
        match events.last() {
            ClientEvent::Polled(Some(request)) => requests(events.drop_last()).push(request),
            _ => requests(events.drop_last()),
        }
    }
}

/// What processing gives in a run, in order.
pub open spec fn results(events: Seq<ClientEvent>) -> Seq<Result<HttpResponse, String>>
    decreases events.len(),
{
    if events.len() == 0 {
        Seq::empty()
    } else {
        match events.last() {
            ClientEvent::Processed(result) => results(events.drop_last()).push(result),
            _ => results(events.drop_last()),
        }
    }
}

/// Whether the last thing that happened in a run is that a request with an unserved method was
/// processed.
pub open spec fn ends_unserved(events: Seq<ClientEvent>) -> bool {
    &&& events.len() > 0
    &&& events.last() is Processed
    &&& requests(events).len() > 0
    &&& !is_served(requests(events).last().method@)
}

/// Whether the last thing that happened in a run is that something could not be sent.
pub open spec fn ends_unsent(events: Seq<ClientEvent>) -> bool {
    events.len() > 0 && match events.last() {
        ClientEvent::Replied(sent) => sent is Err,
        ClientEvent::Shared(sent) => sent is Err,
        _ => false,
    }
}

/// Whether the last result of a run has not reached the client.
pub open spec fn ends_unreplied(events: Seq<ClientEvent>) -> bool {
    events.len() > 0 && match events.last() {
        ClientEvent::Processed(_) => true,
        ClientEvent::Replied(sent) => sent is Err,
        _ => false,
    }
}

/// The results of a run that have reached the client, in order.
pub open spec fn results_replied(events: Seq<ClientEvent>) -> Seq<Result<HttpResponse, String>> {
    if ends_unreplied(events) {
        results(events).drop_last()
    } else {
        results(events)
    }
}

/// Whether event `k` of a run gives the `i`-th result, and the event right before it brought the
/// `i`-th request.
pub open spec fn answers(events: Seq<ClientEvent>, k: int, i: int) -> bool {
    &&& 1 <= k < events.len()
    &&& events[k - 1] == ClientEvent::Polled(Some(requests(events)[i]))
    &&& events[k] == ClientEvent::Processed(results(events)[i])
}

/// The requests that are processed in a run, in order.
pub open spec fn processed(actions: Seq<ClientActionView>) -> Seq<HttpRequest>
    decreases actions.len(),
{
    if actions.len() == 0 {
        Seq::empty()
    } else {
        match actions.last() {
            ClientActionView::Process(request) => processed(actions.drop_last()).push(request),
            _ => processed(actions.drop_last()),
        }
    }
}

/// The results that the client is handed in a run, in order.
pub open spec fn replies(actions: Seq<ClientActionView>) -> Seq<Result<HttpResponse, String>>
    decreases actions.len(),
{
    if actions.len() == 0 {
        Seq::empty()
    } else {
        match actions.last() {
            ClientActionView::Reply(result) => replies(actions.drop_last()).push(result),
            _ => replies(actions.drop_last()),
        }
    }
}

/// The bodies that are shared with the peers in a run, each with its topic, in order.
pub open spec fn shared_messages(actions: Seq<ClientActionView>) -> Seq<(Seq<char>, Seq<u8>)>
    decreases actions.len(),
{
    if actions.len() == 0 {
        Seq::empty()
    } else {
        match actions.last() {
            ClientActionView::Share { topic, body } => shared_messages(actions.drop_last()).push(
                (topic, body),
            ),
            _ => shared_messages(actions.drop_last()),
        }
    }
}

/// What the peers get to see of a list of results, in order: the bodies of the responses, under the
/// topic that nodes share.
pub open spec fn shared_parts(list: Seq<Result<HttpResponse, String>>) -> Seq<
    (Seq<char>, Seq<u8>),
>
    decreases list.len(),
{
    if list.len() == 0 {
        Seq::empty()
    } else {
        match shared_part(list.last()) {
            Some(body) => shared_parts(list.drop_last()).push((startup::chat_topic(), body)),
            None => shared_parts(list.drop_last()),
        }
    }
}

/// A request with a served method is processed, its result handed to the client, and then, where
/// it is a response, its body shared with the peers; the client loop asks for the next request
/// after that.
pub proof fn law_one_exchange(exchange: Exchange)
    requires
        is_served(exchange.request.method@),
    ensures
        client_run_expected(ClientPhaseView::Polling, exchange_events(exchange)),
        client_run(ClientPhaseView::Polling, exchange_events(exchange)).0
            == ClientPhaseView::Polling,
        client_run(ClientPhaseView::Polling, exchange_events(exchange)).1 == exchange_actions(
            exchange,
        ),
{
    let start = ClientPhaseView::Polling;
    let one = seq![ClientEvent::Polled(Some(exchange.request))];
    let two = one.push(ClientEvent::Processed(exchange.result));
    let three = two.push(ClientEvent::Replied(Ok(())));
    let four = three.push(ClientEvent::Shared(Ok(())));
    assert(one.drop_last() =~= Seq::empty());
    assert(two.drop_last() =~= one);
    assert(three.drop_last() =~= two);
    assert(four.drop_last() =~= three);
    assert(client_run_expected(start, Seq::<ClientEvent>::empty()));
    assert(client_run_expected(start, one));
    assert(client_run_expected(start, two));
    assert(client_run_expected(start, three));
    assert(client_run(start, one).1 =~= seq![ClientActionView::Process(exchange.request)]);
    assert(client_run(start, two).1 =~= seq![
        ClientActionView::Process(exchange.request),
        ClientActionView::Reply(exchange.result),
    ]);
    if exchange.result is Ok {
        assert(exchange_events(exchange) =~= four);
        assert(client_run(start, three).0 == ClientPhaseView::Sharing);
        assert(client_run(start, four).1 =~= exchange_actions(exchange));
    } else {
        assert(exchange_events(exchange) =~= three);
        assert(client_run(start, three).1 =~= exchange_actions(exchange));
    }
}

/// In every run from the start, each result is handed to the client exactly once, in the order in
/// which the requests were taken. The one exception is the result of a request with an unserved
/// method, which is dropped as the loop stops. Every request that is taken is processed, and each
/// has its result before the next one is taken. The peers get the bodies of the responses that
/// have reached the client, in that order and under the shared topic, and nothing else.
pub proof fn law_replies_in_order(events: Seq<ClientEvent>)
    requires
        client_run_expected(ClientPhaseView::Polling, events),
    ensures
        ({
            let (phase, actions) = client_run(ClientPhaseView::Polling, events);
            &&& replies(actions) == if ends_unserved(events) {
                results(events).drop_last()
            } else {
                results(events)
            }
            &&& processed(actions) == requests(events)
            &&& requests(events).len() == results(events).len() + if phase is Processing {
                1nat
            } else {
                0
            }
            &&& shared_messages(actions) == shared_parts(results_replied(events))
        }),
{
    lemma_run_shape(events);
}

/// In every run from the start, the result in any place is that of the request in the same place:
/// it comes right after that request was taken.
pub proof fn law_result_is_of_its_request(events: Seq<ClientEvent>, i: int)
    requires
        client_run_expected(ClientPhaseView::Polling, events),
        0 <= i < results(events).len(),
    ensures
        i < requests(events).len(),
        exists|k: int| answers(events, k, i),
    decreases events.len(),
{
    let front = events.drop_last();
    lemma_run_shape(front);
    if i < results(front).len() {
        law_result_is_of_its_request(front, i);
        let k = choose|k: int| answers(front, k, i);
        assert(events[k - 1] == front[k - 1] && events[k] == front[k]);
        assert(requests(events)[i] == requests(front)[i]);
        assert(results(events)[i] == results(front)[i]);
        assert(answers(events, k, i));
    } else {
        let k = events.len() - 1;
        assert(events[k - 1] == front.last());
        assert(requests(front).last() == requests(front)[i]);
        assert(answers(events, k, i));
    }
}

/// The client loop goes on until a request with an unserved method has been processed or something
/// could not be sent: a run from the start has stopped exactly where one of these came last.
pub proof fn law_client_loop_stops_only_for_cause(events: Seq<ClientEvent>)
    requires
        client_run_expected(ClientPhaseView::Polling, events),
    ensures
        ({
            let (phase, actions) = client_run(ClientPhaseView::Polling, events);
            &&& phase is Stopped <==> ends_unserved(events) || ends_unsent(events)
            &&& phase is Stopped <==> events.len() > 0 && actions.last() is Stop
        }),
{
    lemma_run_shape(events);
}

/// A request with any other method is processed all the same; it gets no reply, and the client
/// loop stops.
pub proof fn law_unserved_method_stops(
    request: HttpRequest,
    result: Result<HttpResponse, String>,
)
    requires
        request.method@ != "GET"@,
        request.method@ != "POST"@,
        request.method@ != "PUT"@,
        request.method@ != "DELETE"@,
    ensures
        ({
            let events = seq![ClientEvent::Polled(Some(request)), ClientEvent::Processed(result)];
            let run = client_run(ClientPhaseView::Polling, events);
            &&& client_run_expected(ClientPhaseView::Polling, events)
            &&& run.0 == ClientPhaseView::Stopped
            &&& run.1 == seq![
                ClientActionView::Process(request),
                ClientActionView::Stop("Unsupported method used "@ + request.method@),
            ]
        }),
{
    let start = ClientPhaseView::Polling;
    let one = seq![ClientEvent::Polled(Some(request))];
    let two = seq![ClientEvent::Polled(Some(request)), ClientEvent::Processed(result)];
    assert(one.drop_last() =~= Seq::empty());
    assert(two.drop_last() =~= one);
    assert(client_run_expected(start, Seq::<ClientEvent>::empty()));
    assert(client_run_expected(start, one));
    assert(client_run(start, one).1 =~= seq![ClientActionView::Process(request)]);
    assert(client_run(start, two).1 =~= seq![
        ClientActionView::Process(request),
        ClientActionView::Stop("Unsupported method used "@ + request.method@),
    ]);
}

/// The served methods are treated alike: the same result is handed to the client and shared with
/// the peers, whichever of them the request used.
pub proof fn law_served_methods_alike(
    first: Seq<char>,
    second: Seq<char>,
    result: Result<HttpResponse, String>,
)
    requires
        is_served(first),
        is_served(second),
    ensures
        ({
            let one = client_turn_of(
                ClientPhaseView::Processing { method: first },
                ClientEvent::Processed(result),
            );
            let two = client_turn_of(
                ClientPhaseView::Processing { method: second },
                ClientEvent::Processed(result),
            );
            &&& one.1 == two.1
            &&& one.0->shared == two.0->shared
            &&& client_turn_of(one.0, ClientEvent::Replied(Ok(()))) == client_turn_of(
                two.0,
                ClientEvent::Replied(Ok(())),
            )
        }),
{
}

/// In every run from the start, a body is shared only right after its response has reached the
/// client: the action before it handed over the same response as the reply.
pub proof fn law_shared_after_reply(events: Seq<ClientEvent>, i: int)
    requires
        client_run_expected(ClientPhaseView::Polling, events),
        0 <= i < events.len(),
        client_run(ClientPhaseView::Polling, events).1[i] is Share,
    ensures
        ({
            let actions = client_run(ClientPhaseView::Polling, events).1;
            &&& i >= 1
            &&& actions[i - 1] matches ClientActionView::Reply(Ok(response))
                && actions[i] == (ClientActionView::Share {
                topic: startup::chat_topic(),
                body: response.body@,
            })
            &&& events[i] matches ClientEvent::Replied(Ok(_))
        }),
    decreases events.len(),
{
    lemma_run_shape(events);
    lemma_run_shape(events.drop_last());
    let before = client_run(ClientPhaseView::Polling, events.drop_last());
    let actions = client_run(ClientPhaseView::Polling, events).1;
    assert(actions.drop_last() =~= before.1);
    if i < events.len() - 1 {
        assert(actions[i] == before.1[i]);
        law_shared_after_reply(events.drop_last(), i);
        assert(actions[i - 1] == before.1[i - 1]);
    } else {
        assert(actions[i] == client_turn_of(before.0, events.last()).1);
        assert(before.0 is Replying);
        assert(actions[i - 1] == before.1.last());
    }
}

/// What the phase of a run from the start says of its events.
spec fn phase_fits(events: Seq<ClientEvent>, phase: ClientPhaseView) -> bool {
    match phase {
        ClientPhaseView::Polling => !ends_unreplied(events) && !ends_unsent(events),
        ClientPhaseView::Processing { method } => {
            &&& events.len() > 0
            &&& requests(events).len() > 0
            &&& events.last() == ClientEvent::Polled(Some(requests(events).last()))
            &&& method == requests(events).last().method@
        },
        ClientPhaseView::Replying { shared, .. } => {
            &&& events.len() > 0
            &&& results(events).len() > 0
            &&& events.last() == ClientEvent::Processed(results(events).last())
            &&& shared == shared_part(results(events).last())
            &&& !ends_unserved(events)
        },
        ClientPhaseView::Sharing => {
            &&& events.len() > 0
            &&& events.last() matches ClientEvent::Replied(Ok(_))
        },
        ClientPhaseView::Stopped => ends_unserved(events) || ends_unsent(events),
    }
}

/// What the actions of a run from the start come to.
proof fn lemma_run_shape(events: Seq<ClientEvent>)
    requires
        client_run_expected(ClientPhaseView::Polling, events),
    ensures
        ({
            let (phase, actions) = client_run(ClientPhaseView::Polling, events);
            &&& actions.len() == events.len()
            &&& phase_fits(events, phase)
            &&& phase is Stopped <==> events.len() > 0 && actions.last() is Stop
            &&& phase is Replying ==> actions.last()
                == ClientActionView::Reply(results(events).last())
            &&& requests(events).len() == results(events).len() + if phase is Processing {
                1nat
            } else {
                0
            }
            &&& processed(actions) == requests(events)
            &&& replies(actions) == if ends_unserved(events) {
                results(events).drop_last()
            } else {
                results(events)
            }
            &&& shared_messages(actions) == shared_parts(results_replied(events))
        }),
    decreases events.len(),
{
    if events.len() > 0 {
        let front = events.drop_last();
        lemma_run_shape(front);
        let before = client_run(ClientPhaseView::Polling, front);
        let actions = client_run(ClientPhaseView::Polling, events).1;
        assert(actions.drop_last() =~= before.1);
        match events.last() {
            ClientEvent::Processed(result) => {
                assert(results(events).drop_last() =~= results(front));
            },
            _ => {
                assert(results(events) == results(front));
            },
        }
    }
}

/// A request is taken up as it came, and remembered by its whole method; where there is none, other
/// tasks run before the next is asked for.
pub proof fn law_request_is_taken_up(request: HttpRequest)
    ensures
        client_turn_of(ClientPhaseView::Polling, ClientEvent::Polled(Some(request))) == (
            ClientPhaseView::Processing { method: request.method@ },
            ClientActionView::Process(request),
        ),
        client_turn_of(ClientPhaseView::Polling, ClientEvent::Polled(None)) == (
            ClientPhaseView::Polling,
            ClientActionView::Yield,
        ),
{
}

/// Every response to a GET, POST, PUT or DELETE request is handed to the client as it is, and its
/// whole body is then shared under the topic `chat`; after that the next request is asked for.
pub proof fn law_response_is_replied_and_shared(method: Seq<char>, response: HttpResponse)
    requires
        method == "GET"@ || method == "POST"@ || method == "PUT"@ || method == "DELETE"@,
    ensures
        ({
            let processing = ClientPhaseView::Processing { method };
            let (replying, reply) = client_turn_of(
                processing,
                ClientEvent::Processed(Ok(response)),
            );
            let (sharing, share) = client_turn_of(replying, ClientEvent::Replied(Ok(())));
            let (polling, poll) = client_turn_of(sharing, ClientEvent::Shared(Ok(())));
            &&& reply == ClientActionView::Reply(Ok(response))
            &&& replying == (ClientPhaseView::Replying { method, shared: Some(response.body@) })
            &&& share == (ClientActionView::Share { topic: "chat"@, body: response.body@ })
            &&& sharing is Sharing
            &&& poll is Poll
            &&& polling is Polling
        }),
{
}

/// Every error for a GET, POST, PUT or DELETE request is handed to the client word for word, and
/// nothing of it is shared; the next request is asked for right after.
pub proof fn law_error_is_replied_and_not_shared(method: Seq<char>, reason: String)
    requires
        method == "GET"@ || method == "POST"@ || method == "PUT"@ || method == "DELETE"@,
    ensures
        ({
            let processing = ClientPhaseView::Processing { method };
            let (replying, reply) = client_turn_of(
                processing,
                ClientEvent::Processed(Err(reason)),
            );
            let (polling, poll) = client_turn_of(replying, ClientEvent::Replied(Ok(())));
            &&& reply == ClientActionView::Reply(Err(reason))
            &&& replying == (ClientPhaseView::Replying { method, shared: None })
            &&& poll is Poll
            &&& polling is Polling
        }),
{
}

/// Whatever cannot be sent stops the loop and is named: a reply with its method and the reason, a
/// body with the reason.
pub proof fn law_failed_sends_stop(method: Seq<char>, shared: Option<Seq<u8>>, reason: String)
    ensures
        client_turn_of(
            ClientPhaseView::Replying { method, shared },
            ClientEvent::Replied(Err(reason)),
        ) == (
            ClientPhaseView::Stopped,
            ClientActionView::Stop(method + " failed to send response back to client "@ + reason@),
        ),
        client_turn_of(ClientPhaseView::Sharing, ClientEvent::Shared(Err(reason))) == (
            ClientPhaseView::Stopped,
            ClientActionView::Stop("called `Result::unwrap()` on an `Err` value: "@ + reason@),
        ),
{
}

/// In every phase but the last the loop expects every outcome of what it is doing.
pub proof fn law_every_outcome_is_expected(
    method: Seq<char>,
    shared: Option<Seq<u8>>,
    polled: Option<HttpRequest>,
    result: Result<HttpResponse, String>,
    sent: Result<(), String>,
)
    ensures
        client_expects(ClientPhaseView::Polling, ClientEvent::Polled(polled)),
        client_expects(ClientPhaseView::Processing { method }, ClientEvent::Processed(result)),
        client_expects(ClientPhaseView::Replying { method, shared }, ClientEvent::Replied(sent)),
        client_expects(ClientPhaseView::Sharing, ClientEvent::Shared(sent)),
{
}

/// The contents of a phase and of an action are those of what they hold.
pub proof fn law_contents_of_turn(phase: ClientPhase, action: ClientAction)
    ensures
        match phase {
            ClientPhase::Polling => phase@ is Polling,
            ClientPhase::Processing { method } => phase@ == (ClientPhaseView::Processing {
                method: method@,
            }),
            ClientPhase::Replying { method, shared: Some(body) } => phase@
                == (ClientPhaseView::Replying { method: method@, shared: Some(body@) }),
            ClientPhase::Replying { method, shared: None } => phase@ == (ClientPhaseView::Replying {
                method: method@,
                shared: None,
            }),
            ClientPhase::Sharing => phase@ is Sharing,
            ClientPhase::Stopped => phase@ is Stopped,
        },
        match action {
            ClientAction::Poll => action@ is Poll,
            ClientAction::Yield => action@ is Yield,
            ClientAction::Process(request) => action@ == ClientActionView::Process(request),
            ClientAction::Reply(result) => action@ == ClientActionView::Reply(result),
            ClientAction::Share { topic, body } => action@ == (ClientActionView::Share {
                topic: topic@,
                body: body@,
            }),
            ClientAction::Stop(reason) => action@ == ClientActionView::Stop(reason@),
        },
{
}

/// What the readers of a run see of one more event or action: exactly what it holds.
pub proof fn law_runs_are_read_in_full(
    events: Seq<ClientEvent>,
    actions: Seq<ClientActionView>,
    request: HttpRequest,
    result: Result<HttpResponse, String>,
    topic: Seq<char>,
    body: Seq<u8>,
)
    ensures
        requests(events.push(ClientEvent::Polled(Some(request)))) == requests(events).push(request),
        results(events.push(ClientEvent::Processed(result))) == results(events).push(result),
        processed(actions.push(ClientActionView::Process(request))) == processed(actions).push(
            request,
        ),
        replies(actions.push(ClientActionView::Reply(result))) == replies(actions).push(result),
        shared_messages(actions.push(ClientActionView::Share { topic, body })) == shared_messages(
            actions,
        ).push((topic, body)),
{
    assert(events.push(ClientEvent::Polled(Some(request))).drop_last() =~= events);
    assert(events.push(ClientEvent::Processed(result)).drop_last() =~= events);
    assert(actions.push(ClientActionView::Process(request)).drop_last() =~= actions);
    assert(actions.push(ClientActionView::Reply(result)).drop_last() =~= actions);
    assert(actions.push(ClientActionView::Share { topic, body }).drop_last() =~= actions);
}

} // verus!
