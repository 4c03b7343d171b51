//! The loop that talks to the other peers, and what it hears about them.

use crate::message::{HttpRequest, HttpResponse};
use crate::startup;
use vstd::prelude::*;
use vstd::string::*;

verus! {

/// Where the peer loop stands.
#[derive(Clone, Copy, Debug, PartialEq, Eq, Structural)]
pub enum PeerPhase {
    /// It waits for whichever comes first: a body to publish or an event of the network.
    Waiting,
    /// A request from the network is being processed.
    Processing,
    /// It has ended.
    Ended,
}

/// What the peer loop is told.
#[derive(Debug, PartialEq, Eq)]
pub enum PeerEvent {
    /// The client loop hands over a topic and a body, or is gone.
    Outgoing(Option<(String, Vec<u8>)>),
    /// The network brings a request.
    Incoming(HttpRequest),
    /// The network brings something else.
    Other,
    /// The request from the network has been processed.
    Processed(Result<HttpResponse, String>),
}

/// What the peer loop does next.
#[derive(Debug, PartialEq, Eq)]
pub enum PeerAction {
    /// Wait for the next event.
    Wait,
    /// Publish this body to the peers under this topic, and wait for the next event.
    Publish { topic: String, body: Vec<u8> },
    /// Process this request.
    Process(HttpRequest),
    /// End with this error.
    End(String),
    /// Stop, for this reason.
    Stop(String),
}

/// The contents of a [`PeerAction`].
pub enum PeerActionView {
    Wait,
    Publish { topic: Seq<char>, body: Seq<u8> },
    Process(HttpRequest),
    End(Seq<char>),
    Stop(Seq<char>),
}

impl View for PeerAction {
    type V = PeerActionView;

    open spec fn view(&self) -> PeerActionView {
        match *self {
            PeerAction::Wait => PeerActionView::Wait,
            PeerAction::Publish { topic, body } => PeerActionView::Publish {
                topic: topic@,
                body: body@,
            },
            PeerAction::Process(request) => PeerActionView::Process(request),
            PeerAction::End(reason) => PeerActionView::End(reason@),
            PeerAction::Stop(reason) => PeerActionView::Stop(reason@),
        }
    }
}

/// Whether the peer loop expects this event now.
pub open spec fn peer_expects(phase: PeerPhase, event: PeerEvent) -> bool {
    match phase {
        PeerPhase::Waiting => !(event is Processed),
        PeerPhase::Processing => event is Processed,
        PeerPhase::Ended => false,
    }
}

/// One turn of the peer loop: where it stands after an event that it expects, and what it does.
pub open spec fn peer_turn_of(phase: PeerPhase, event: PeerEvent) -> (PeerPhase, PeerActionView) {
    match event {
        PeerEvent::Outgoing(Some((topic, body))) => (
            PeerPhase::Waiting,
            PeerActionView::Publish { topic: topic@, body: body@ },
        ),
        PeerEvent::Outgoing(None) => (
            PeerPhase::Ended,
            PeerActionView::Stop("swarm_receiver's sender shutdown"@),
        ),
        PeerEvent::Incoming(request) => (PeerPhase::Processing, PeerActionView::Process(request)),
        PeerEvent::Other => (PeerPhase::Waiting, PeerActionView::Wait),
        PeerEvent::Processed(Ok(response)) => (
            PeerPhase::Waiting,
            PeerActionView::Publish { topic: startup::chat_topic(), body: response.body@ },
        ),
        PeerEvent::Processed(Err(reason)) => (PeerPhase::Ended, PeerActionView::End(reason@)),
    }
}

/// One turn of the peer loop.
pub fn peer_turn(phase: PeerPhase, event: PeerEvent) -> (turn: (PeerPhase, PeerAction))
    requires
        peer_expects(phase, event),
    ensures
        (turn.0, turn.1@) == peer_turn_of(phase, event),
{
    match event {
        PeerEvent::Outgoing(Some((topic, body))) => (
            PeerPhase::Waiting,
            PeerAction::Publish { topic, body },
        ),
        PeerEvent::Outgoing(None) => {
            let reason = "swarm_receiver's sender shutdown".to_string();
            (PeerPhase::Ended, PeerAction::Stop(reason))
        },
        PeerEvent::Incoming(request) => (PeerPhase::Processing, PeerAction::Process(request)),
        PeerEvent::Other => (PeerPhase::Waiting, PeerAction::Wait),
        PeerEvent::Processed(Ok(response)) => (
            PeerPhase::Waiting,
            PeerAction::Publish { topic: "chat".to_string(), body: response.body },
        ),
        PeerEvent::Processed(Err(reason)) => (PeerPhase::Ended, PeerAction::End(reason)),
    }
}

/// Which of the addresses that the node listens on to announce: all of them the first time that
/// there are any, and none after that. `listening` says whether that time has come.
pub fn announce(listening: &mut bool, addresses: Vec<String>) -> (announced: Vec<String>)
    ensures
        *final(listening) == (*old(listening) || addresses@.len() > 0),
        *old(listening) ==> announced@.len() == 0,
        !*old(listening) ==> announced == addresses,
{
    if *listening {
        return Vec::new();
    }
    if addresses.len() > 0 {
        *listening = true;
    }
    addresses
}

/// What discovery on the local network reports of peers of type `P`.
#[derive(Debug, PartialEq, Eq)]
pub enum DiscoveryEvent<P> {
    /// These peers were found.
    Discovered(Vec<P>),
    /// The records of these peers ran out; each comes with whether it is known by another.
    Expired(Vec<(P, bool)>),
}

/// A change to the set of peers that messages are flooded to.
#[derive(Debug, PartialEq, Eq)]
pub enum ViewChange<P> {
    Add(P),
    Remove(P),
}

/// The set of peers after some changes, made in order.
pub open spec fn changed_view<P>(view: Set<P>, changes: Seq<ViewChange<P>>) -> Set<P>
    decreases changes.len(),
{
    if changes.len() == 0 {
        view
    } else {
        match changes.last() {
            ViewChange::Add(peer) => changed_view(view, changes.drop_last()).insert(peer),
            ViewChange::Remove(peer) => changed_view(view, changes.drop_last()).remove(peer),
        }
    }
}

/// One addition for each peer, in order.
pub open spec fn additions<P>(peers: Seq<P>) -> Seq<ViewChange<P>> {
    peers.map_values(|peer: P| ViewChange::Add(peer))
}

/// One removal for each peer that no other record knows, in order.
pub open spec fn removals<P>(peers: Seq<(P, bool)>) -> Seq<ViewChange<P>> {
    peers.filter(|entry: (P, bool)| !entry.1).map_values(
        |entry: (P, bool)| ViewChange::Remove(entry.0),
    )
}

/// The peers that a discovery event reports, each as the change it asks for, in order. A peer
/// that is still known by another record asks for none.
pub open spec fn asked_changes<P>(event: DiscoveryEvent<P>) -> Seq<ViewChange<P>> {
    match event {
        DiscoveryEvent::Discovered(peers) => additions(peers@),
        DiscoveryEvent::Expired(peers) => removals(peers@),
    }
}

/// The changes that a discovery event asks for.
pub fn inject_event<P>(event: DiscoveryEvent<P>) -> (changes: Vec<ViewChange<P>>)
    ensures
        changes@ == asked_changes(event),
{
    let mut changes: Vec<ViewChange<P>> = Vec::new();
    match event {
        DiscoveryEvent::Discovered(peers) => {
            for peer in iter: peers
                invariant
                    changes@ == additions(iter.seq().take(iter.index() as int)),
            {
                changes.push(ViewChange::Add(peer));
            }
        },
        DiscoveryEvent::Expired(peers) => {
            let ghost gone = |entry: (P, bool)| !entry.1;
            assert(peers@.take(0).filter(gone) =~= Seq::empty()) by {
                reveal(Seq::filter);
            }
            assert(removals(peers@.take(0)) =~= Seq::empty());
            for entry in iter: peers
                invariant
                    changes@ == removals(iter.seq().take(iter.index() as int)),
            {
                proof {
                    reveal(Seq::filter);
                    let i = iter.index() as int;
                    let longer = iter.seq().take(i + 1);
                    assert(longer.drop_last() =~= iter.seq().take(i));
                    assert(longer.last() == entry);
                    if !entry.1 {
                        assert(removals(longer) =~= changes@.push(ViewChange::Remove(entry.0)));
                    } else {
                        assert(removals(longer) =~= changes@);
                    }
                }
                let (peer, known) = entry;
                if !known {
                    changes.push(ViewChange::Remove(peer));
                }
            }
            assert(peers@.take(peers@.len() as int) =~= peers@);
        },
    }
    changes
}

/// Making the changes of a discovery event adds every peer that was found, and removes every
/// expired peer that is not known by another record. Nothing else changes.
pub proof fn law_view_after_discovery<P>(view: Set<P>, event: DiscoveryEvent<P>)
    ensures
        forall|peer: P| #[trigger]
            changed_view(view, asked_changes(event)).contains(peer) == (match event {
                DiscoveryEvent::Discovered(peers) => view.contains(peer) || peers@.contains(peer),
                DiscoveryEvent::Expired(peers) => view.contains(peer) && !peers@.contains(
                    (peer, false),
                ),
            }),
{
    match event {
        DiscoveryEvent::Discovered(peers) => {
            lemma_view_after_additions(view, peers@);
        },
        DiscoveryEvent::Expired(peers) => {
            lemma_view_after_removals(view, peers@);
        },
    }
}

proof fn lemma_view_after_additions<P>(view: Set<P>, peers: Seq<P>)
    ensures
        forall|peer: P| #[trigger]
            changed_view(view, additions(peers)).contains(peer) == (view.contains(peer)
                || peers.contains(peer)),
    decreases peers.len(),
{
    let changes = additions(peers);
    if peers.len() > 0 {
        let front = peers.drop_last();
        lemma_view_after_additions(view, front);
        assert(changes.drop_last() =~= additions(front));
        assert forall|peer: P| #[trigger] changed_view(view, changes).contains(peer) == (
        view.contains(peer) || peers.contains(peer)) by {
            assert(changed_view(view, additions(front)).contains(peer) == (
            view.contains(peer) || front.contains(peer)));
            if peers.contains(peer) {
                let k = choose|k: int| 0 <= k < peers.len() && peers[k] == peer;
                if k < front.len() {
                    assert(front[k] == peer);
                }
            }
            if front.contains(peer) {
                let k = choose|k: int| 0 <= k < front.len() && front[k] == peer;
                assert(peers[k] == peer);
            }
            assert(peers[peers.len() - 1] == peers.last());
        }
    }
}

proof fn lemma_view_after_removals<P>(view: Set<P>, peers: Seq<(P, bool)>)
    ensures
        forall|peer: P| #[trigger]
            changed_view(view, removals(peers)).contains(peer) == (view.contains(peer)
                && !peers.contains((peer, false))),
    decreases peers.len(),
{
    let gone = |entry: (P, bool)| !entry.1;
    let changes = removals(peers);
    reveal(Seq::filter);
    if peers.len() > 0 {
        let front = peers.drop_last();
        let last = peers.last();
        lemma_view_after_removals(view, front);
        let fewer = removals(front);
        if gone(last) {
            assert(peers.filter(gone) == front.filter(gone).push(last));
            assert(changes =~= fewer.push(ViewChange::Remove(last.0)));
            assert(changes.drop_last() =~= fewer);
        } else {
            assert(changes =~= fewer);
        }
        assert forall|peer: P| #[trigger] changed_view(view, changes).contains(peer) == (
        view.contains(peer) && !peers.contains((peer, false))) by {
            assert(changed_view(view, fewer).contains(peer) == (view.contains(peer)
                && !front.contains((peer, false))));
            if peers.contains((peer, false)) {
                let k = choose|k: int| 0 <= k < peers.len() && peers[k] == (peer, false);
                if k < front.len() {
                    assert(front[k] == (peer, false));
                }
            }
            if front.contains((peer, false)) {
                let k = choose|k: int| 0 <= k < front.len() && front[k] == (peer, false);
                assert(peers[k] == (peer, false));
            }
            assert(peers[peers.len() - 1] == last);
        }
    } else {
        assert(changes =~= Seq::empty());
    }
}

/// What the peer loop does over a run of events, and where it stands at the end.
pub open spec fn peer_run(phase: PeerPhase, events: Seq<PeerEvent>) -> (
    PeerPhase,
    Seq<PeerActionView>,
)
    decreases events.len(),
{
    if events.len() == 0 {
        (phase, Seq::empty())
    } else {
        let (before, actions) = peer_run(phase, events.drop_last());
        let (after, action) = peer_turn_of(before, events.last());
        (after, actions.push(action))
    }
}

/// Whether every event of a run comes when the peer loop expects it.
pub open spec fn peer_run_expected(phase: PeerPhase, events: Seq<PeerEvent>) -> bool
    decreases events.len(),
{
    events.len() == 0 || {
        &&& peer_run_expected(phase, events.drop_last())
        &&& peer_expects(peer_run(phase, events.drop_last()).0, events.last())
    }
}

/// The bodies that are published in a run, each with its topic, in order.
pub open spec fn published(actions: Seq<PeerActionView>) -> Seq<(Seq<char>, Seq<u8>)>
    decreases actions.len(),
{
    if actions.len() == 0 {
        Seq::empty()
    } else {
        match actions.last() {
            PeerActionView::Publish { topic, body } => published(actions.drop_last()).push(
                (topic, body),
            ),
            _ => published(actions.drop_last()),
        }
    }
}

/// The bodies that the client loop hands over in a run, each with its topic, in order.
pub open spec fn handed_over(events: Seq<PeerEvent>) -> Seq<(Seq<char>, Seq<u8>)>
    decreases events.len(),
{
    if events.len() == 0 {
        Seq::empty()
    } else {
        match events.last() {
            PeerEvent::Outgoing(Some((topic, body))) => handed_over(events.drop_last()).push(
                (topic@, body@),
            ),
            _ => handed_over(events.drop_last()),
        }
    }
}

/// The bodies that a run brings, in order: those that the client loop hands over, each under the
/// topic it came with, and those of the responses to the requests of the network, under the topic
/// that nodes share.
pub open spec fn to_publish(events: Seq<PeerEvent>) -> Seq<(Seq<char>, Seq<u8>)>
    decreases events.len(),
{
    if events.len() == 0 {
        Seq::empty()
    } else {
        match events.last() {
            PeerEvent::Outgoing(Some((topic, body))) => to_publish(events.drop_last()).push(
                (topic@, body@),
            ),
            PeerEvent::Processed(Ok(response)) => to_publish(events.drop_last()).push(
                (startup::chat_topic(), response.body@),
            ),
            _ => to_publish(events.drop_last()),
        }
    }
}

/// In every run from the start, the peer loop publishes each body that the client loop hands over
/// and that of each response to a request of the network, in order, and nothing else.
pub proof fn law_all_is_published(events: Seq<PeerEvent>)
    requires
        peer_run_expected(PeerPhase::Waiting, events),
    ensures
        peer_run(PeerPhase::Waiting, events).1.len() == events.len(),
        published(peer_run(PeerPhase::Waiting, events).1) == to_publish(events),
    decreases events.len(),
{
    if events.len() > 0 {
        law_all_is_published(events.drop_last());
        let before = peer_run(PeerPhase::Waiting, events.drop_last());
        assert(peer_run(PeerPhase::Waiting, events).1.drop_last() =~= before.1);
    }
}

/// In every run from the start in which the network brings no request, what is published is what
/// the client loop hands over.
pub proof fn law_nothing_else_is_published(events: Seq<PeerEvent>)
    requires
        peer_run_expected(PeerPhase::Waiting, events),
        forall|i: int| 0 <= i < events.len() ==> !((#[trigger] events[i]) is Incoming),
    ensures
        !(peer_run(PeerPhase::Waiting, events).0 is Processing),
        published(peer_run(PeerPhase::Waiting, events).1) == handed_over(events),
    decreases events.len(),
{
    law_all_is_published(events);
    if events.len() > 0 {
        let front = events.drop_last();
        assert forall|i: int| 0 <= i < front.len() implies !((#[trigger] front[i]) is Incoming) by {
            assert(front[i] == events[i]);
        }
        law_nothing_else_is_published(front);
        law_all_is_published(front);
        assert(events[events.len() - 1] == events.last());
    }
}

/// The peer loop goes on until the client loop is gone or a request of the network cannot be
/// answered: a run from the start has ended exactly where one of these came last.
pub proof fn law_peer_loop_ends_only_for_cause(events: Seq<PeerEvent>)
    requires
        peer_run_expected(PeerPhase::Waiting, events),
    ensures
        peer_run(PeerPhase::Waiting, events).0 is Ended <==> events.len() > 0 && match events.last() {
            PeerEvent::Outgoing(message) => message is None,
            PeerEvent::Processed(result) => result is Err,
            _ => false,
        },
        peer_run(PeerPhase::Waiting, events).0 is Ended <==> events.len() > 0 && (peer_run(
            PeerPhase::Waiting,
            events,
        ).1.last() is Stop || peer_run(PeerPhase::Waiting, events).1.last() is End),
{
}

/// A request from the network is processed, and the body of the response goes back to the peers
/// as it is; a request that cannot be answered ends the peer loop with its error.
pub proof fn law_network_request(request: HttpRequest, result: Result<HttpResponse, String>)
    ensures
        ({
            let taken = peer_turn_of(PeerPhase::Waiting, PeerEvent::Incoming(request));
            let answered = peer_turn_of(taken.0, PeerEvent::Processed(result));
            &&& peer_expects(PeerPhase::Waiting, PeerEvent::Incoming(request))
            &&& taken.1 == PeerActionView::Process(request)
            &&& peer_expects(taken.0, PeerEvent::Processed(result))
            &&& match result {
                Ok(response) => answered == (
                    PeerPhase::Waiting,
                    PeerActionView::Publish { topic: startup::chat_topic(), body: response.body@ },
                ),
                Err(reason) => answered == (PeerPhase::Ended, PeerActionView::End(reason@)),
            }
        }),
{
}

/// What follows each event of the peer loop: a body that is handed over is published as it is and
/// under the topic it came with; a request of the network is processed as it came, the whole body
/// of its response published under the topic `chat`, and its error ends the loop word for word;
/// anything else is passed over; where the client loop is gone, the loop stops.
pub proof fn law_peer_turns_in_full(
    phase: PeerPhase,
    topic: String,
    body: Vec<u8>,
    request: HttpRequest,
    response: HttpResponse,
    reason: String,
)
    ensures
        peer_turn_of(phase, PeerEvent::Outgoing(Some((topic, body)))) == (
            PeerPhase::Waiting,
            PeerActionView::Publish { topic: topic@, body: body@ },
        ),
        peer_turn_of(phase, PeerEvent::Outgoing(None)) == (
            PeerPhase::Ended,
            PeerActionView::Stop("swarm_receiver's sender shutdown"@),
        ),
        peer_turn_of(phase, PeerEvent::Incoming(request)) == (
            PeerPhase::Processing,
            PeerActionView::Process(request),
        ),
        peer_turn_of(phase, PeerEvent::Processed(Ok(response))) == (
            PeerPhase::Waiting,
            PeerActionView::Publish { topic: "chat"@, body: response.body@ },
        ),
        peer_turn_of(phase, PeerEvent::Processed(Err(reason))) == (
            PeerPhase::Ended,
            PeerActionView::End(reason@),
        ),
        peer_turn_of(phase, PeerEvent::Other) == (PeerPhase::Waiting, PeerActionView::Wait),
{
}

/// A loop that waits expects whatever comes, and one that processes a request every result of it.
pub proof fn law_every_event_is_expected(
    handed: Option<(String, Vec<u8>)>,
    request: HttpRequest,
    result: Result<HttpResponse, String>,
)
    ensures
        peer_expects(PeerPhase::Waiting, PeerEvent::Outgoing(handed)),
        peer_expects(PeerPhase::Waiting, PeerEvent::Incoming(request)),
        peer_expects(PeerPhase::Waiting, PeerEvent::Other),
        peer_expects(PeerPhase::Processing, PeerEvent::Processed(result)),
{
}

/// The contents of an action are those of what it holds.
pub proof fn law_contents_of_action(action: PeerAction)
    ensures
        match action {
            PeerAction::Wait => action@ is Wait,
            PeerAction::Publish { topic, body } => action@ == (PeerActionView::Publish {
                topic: topic@,
                body: body@,
            }),
            PeerAction::Process(request) => action@ == PeerActionView::Process(request),
            PeerAction::End(reason) => action@ == PeerActionView::End(reason@),
            PeerAction::Stop(reason) => action@ == PeerActionView::Stop(reason@),
        },
{
}

/// Every peer that is found asks to be added, in its place, however many there are.
pub proof fn law_every_found_peer_is_added<P>(peers: Vec<P>)
    ensures
        ({
            let changes = asked_changes(DiscoveryEvent::Discovered(peers));
            &&& changes.len() == peers@.len()
            &&& forall|i: int|
                0 <= i < peers@.len() ==> #[trigger] changes[i] == ViewChange::Add(peers@[i])
        }),
{
}

/// One more expired peer asks to be removed, behind the others, where no other record knows it, and
/// for nothing where one does. Without expired peers nothing is asked for.
pub proof fn law_expired_peers_one_by_one<P>(
    none: Vec<(P, bool)>,
    fewer: Vec<(P, bool)>,
    gone: Vec<(P, bool)>,
    known: Vec<(P, bool)>,
    peer: P,
)
    requires
        none@.len() == 0,
        gone@ == fewer@.push((peer, false)),
        known@ == fewer@.push((peer, true)),
    ensures
        asked_changes(DiscoveryEvent::Expired(none)).len() == 0,
        asked_changes(DiscoveryEvent::Expired(gone)) == asked_changes(
            DiscoveryEvent::Expired(fewer),
        ).push(ViewChange::Remove(peer)),
        asked_changes(DiscoveryEvent::Expired(known)) == asked_changes(
            DiscoveryEvent::Expired(fewer),
        ),
{
    reveal(Seq::filter);
    let kept = |entry: (P, bool)| !entry.1;
    assert(none@.filter(kept) =~= Seq::empty());
    assert(gone@.drop_last() =~= fewer@);
    assert(known@.drop_last() =~= fewer@);
    assert(gone@.filter(kept) == fewer@.filter(kept).push((peer, false)));
    assert(known@.filter(kept) == fewer@.filter(kept));
    assert(removals(gone@) =~= removals(fewer@).push(ViewChange::Remove(peer)));
}

/// Additions and removals change the set of peers one by one: a peer that is added is in it, one
/// that is removed is not, and all others stay as they were.
pub proof fn law_changes_one_by_one<P>(
    view: Set<P>,
    changes: Seq<ViewChange<P>>,
    peer: P,
    other: P,
)
    requires
        peer != other,
    ensures
        changed_view(view, changes.push(ViewChange::Add(peer))).contains(peer),
        !changed_view(view, changes.push(ViewChange::Remove(peer))).contains(peer),
        changed_view(view, changes.push(ViewChange::Add(peer))).contains(other) == changed_view(
            view,
            changes,
        ).contains(other),
        changed_view(view, changes.push(ViewChange::Remove(peer))).contains(other) == changed_view(
            view,
            changes,
        ).contains(other),
        changed_view(view, Seq::empty()) == view,
{
    assert(changes.push(ViewChange::Add(peer)).drop_last() =~= changes);
    assert(changes.push(ViewChange::Remove(peer)).drop_last() =~= changes);
}

} // verus!
