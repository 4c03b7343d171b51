//! What holds of the client, the client loop and the peer loop together.

use crate::client;
use crate::client::{ClientError, SendActionView, SendEvent};
use crate::message::{HttpRequest, HttpResponse};
use crate::peers;
use crate::peers::{PeerEvent, PeerPhase};
use crate::server;
use crate::server::{ClientEvent, ClientPhaseView};
use vstd::prelude::*;

verus! {

/// One call of `send_request`: what it was given, whether the node could be reached, and what the
/// node gave back then.
pub struct Call {
    pub request: HttpRequest,
    pub sent: Result<(), String>,
    pub received: Option<Result<HttpResponse, String>>,
}

/// What a call ends with.
pub open spec fn call_end(call: Call) -> SendActionView {
    let (phase, action) = client::send_turn_of(SendEvent::Sent(call.sent));
    if phase is Receiving {
        client::send_turn_of(SendEvent::Received(call.received)).1
    } else {
        action
    }
}

/// The requests that reach the node over some calls, made one after the other.
pub open spec fn delivered(calls: Seq<Call>) -> Seq<HttpRequest>
    decreases calls.len(),
{
    if calls.len() == 0 {
        Seq::empty()
    } else if calls.last().sent is Ok {
        delivered(calls.drop_last()).push(calls.last().request)
    } else {
        delivered(calls.drop_last())
    }
}

/// The results that come back over some calls, made one after the other.
pub open spec fn returned(calls: Seq<Call>) -> Seq<Result<HttpResponse, String>>
    decreases calls.len(),
{
    if calls.len() == 0 {
        Seq::empty()
    } else {
        match (calls.last().sent, calls.last().received) {
            (Ok(_), Some(result)) => returned(calls.drop_last()).push(result),
            _ => returned(calls.drop_last()),
        }
    }
}

/// Where every call that reaches the node gets something back, call `i` has the same place among
/// the requests that reach the node and among the results that come back.
proof fn lemma_same_place(calls: Seq<Call>, i: int) -> (place: int)
    requires
        0 <= i < calls.len(),
        calls[i].sent is Ok,
        forall|j: int|
            0 <= j < calls.len() && (#[trigger] calls[j]).sent is Ok ==> calls[j].received is Some,
    ensures
        delivered(calls).len() == returned(calls).len(),
        0 <= place < delivered(calls).len(),
        delivered(calls)[place] == calls[i].request,
        returned(calls)[place] == calls[i].received->0,
    decreases calls.len(),
{
    lemma_same_length(calls);
    let front = calls.drop_last();
    lemma_front_answered(calls);
    lemma_same_length(front);
    if i < front.len() {
        assert(front[i] == calls[i]);
        lemma_same_place(front, i)
    } else {
        assert(calls.last() == calls[i]);
        delivered(front).len() as int
    }
}

/// What holds of all calls holds of all but the last.
proof fn lemma_front_answered(calls: Seq<Call>)
    requires
        calls.len() > 0,
        forall|j: int|
            0 <= j < calls.len() && (#[trigger] calls[j]).sent is Ok ==> calls[j].received is Some,
    ensures
        forall|j: int|
            0 <= j < calls.drop_last().len() && (#[trigger] calls.drop_last()[j]).sent is Ok
                ==> calls.drop_last()[j].received is Some,
{
    assert forall|j: int|
        0 <= j < calls.drop_last().len() && (#[trigger] calls.drop_last()[j]).sent is Ok implies
        calls.drop_last()[j].received is Some by {
        assert(calls.drop_last()[j] == calls[j]);
    }
}

/// As many results come back as requests reach the node.
proof fn lemma_same_length(calls: Seq<Call>)
    requires
        forall|j: int|
            0 <= j < calls.len() && (#[trigger] calls[j]).sent is Ok ==> calls[j].received is Some,
    ensures
        delivered(calls).len() == returned(calls).len(),
    decreases calls.len(),
{
    if calls.len() > 0 {
        lemma_front_answered(calls);
        lemma_same_length(calls.drop_last());
        assert(calls.last() == calls[calls.len() - 1]);
    }
}

/// Where a client makes its calls one after the other, each that reaches the node ends with the
/// result of its own request, a response as it is and an error under its own text, in every run of the client loop that takes the requests from one
/// channel and whose replies come back through another: the responses cannot come out of order.
pub proof fn law_client_gets_its_own_result(
    calls: Seq<Call>,
    events: Seq<ClientEvent>,
    taken: int,
    i: int,
)
    requires
        server::client_run_expected(ClientPhaseView::Polling, events),
        0 <= taken <= delivered(calls).len(),
        server::requests(events) == delivered(calls).take(taken),
        returned(calls).len() <= server::replies(
            server::client_run(ClientPhaseView::Polling, events).1,
        ).len(),
        returned(calls) == server::replies(
            server::client_run(ClientPhaseView::Polling, events).1,
        ).take(returned(calls).len() as int),
        forall|j: int|
            0 <= j < calls.len() && (#[trigger] calls[j]).sent is Ok ==> calls[j].received is Some,
        0 <= i < calls.len(),
        calls[i].sent is Ok,
    ensures
        exists|k: int|
            #![trigger events[k]]
            {
                &&& 1 <= k < events.len()
                &&& events[k - 1] == ClientEvent::Polled(Some(calls[i].request))
                &&& events[k] matches ClientEvent::Processed(result) && match result {
                    Ok(response) => call_end(calls[i]) == SendActionView::Finish(Ok(response)),
                    Err(reason) => call_end(calls[i]) == SendActionView::Finish(
                        Err(ClientError::StateStore(reason)),
                    ),
                }
            },
{
    let actions = server::client_run(ClientPhaseView::Polling, events).1;
    server::law_replies_in_order(events);
    let place = lemma_same_place(calls, i);
    assert(returned(calls)[place] == server::replies(actions)[place]);
    server::law_result_is_of_its_request(events, place);
    let k = choose|k: int| server::answers(events, k, place);
    assert(server::requests(events)[place] == delivered(calls)[place]);
    assert(server::results(events)[place] == calls[i].received->0);
    assert(events[k] == ClientEvent::Processed(calls[i].received->0));
}

/// What the client loop shares reaches the peers unchanged, in order and under its topic, in every run of the two
/// loops in which the peer loop has been handed the first `n` of the shared bodies: these are the
/// bodies of the first `n` responses that have reached the client. Where the network brings no
/// request, the peer loop publishes just these.
pub proof fn law_peers_get_the_responses(
    events: Seq<ClientEvent>,
    peer_events: Seq<PeerEvent>,
    n: int,
)
    requires
        server::client_run_expected(ClientPhaseView::Polling, events),
        peers::peer_run_expected(PeerPhase::Waiting, peer_events),
        0 <= n <= server::shared_messages(
            server::client_run(ClientPhaseView::Polling, events).1,
        ).len(),
        peers::handed_over(peer_events) == server::shared_messages(
            server::client_run(ClientPhaseView::Polling, events).1,
        ).take(n),
    ensures
        n <= server::shared_parts(server::results_replied(events)).len(),
        peers::handed_over(peer_events) == server::shared_parts(
            server::results_replied(events),
        ).take(n),
        peers::published(peers::peer_run(PeerPhase::Waiting, peer_events).1)
            == peers::to_publish(peer_events),
        (forall|i: int| 0 <= i < peer_events.len() ==> !((#[trigger] peer_events[i]) is Incoming))
            ==> peers::published(peers::peer_run(PeerPhase::Waiting, peer_events).1)
            == peers::handed_over(peer_events),
{
    server::law_replies_in_order(events);
    peers::law_all_is_published(peer_events);
    if forall|i: int| 0 <= i < peer_events.len() ==> !((#[trigger] peer_events[i]) is Incoming) {
        peers::law_nothing_else_is_published(peer_events);
    }
}


} // verus!
