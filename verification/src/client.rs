//! The HTTP client that sends its requests to the node instead of a server.

use crate::message::{HttpRequest, HttpResponse};
use vstd::prelude::*;

verus! {

/// A login of the user.
#[derive(Debug, PartialEq, Eq)]
pub struct Session {
    pub access_token: String,
    pub user_id: String,
    pub device_id: String,
}

/// A client whose other end is the node: requests go out through `to_conduit`, and results come
/// back through `from_conduit`.
#[derive(Debug)]
pub struct P2PClient<S, R> {
    to_conduit: S,
    from_conduit: R,
    is_authenticated: bool,
    session: Option<Session>,
    user_id: String,
    device_id: String,
}

/// The contents of a [`P2PClient`].
pub struct P2PClientView<S, R> {
    pub to_conduit: S,
    pub from_conduit: R,
    pub is_authenticated: bool,
    pub session: Option<Session>,
    pub user_id: String,
    pub device_id: String,
}

/// Why a request got no response.
#[derive(Debug, PartialEq, Eq)]
pub enum ClientError {
    /// The node could not be reached, or gave this error as the result.
    StateStore(String),
}

/// Where the client stands with a request.
#[derive(Clone, Copy, Debug, PartialEq, Eq, Structural)]
pub enum SendPhase {
    Sending,
    Receiving,
    Finished,
}

/// What the client is told.
#[derive(Debug, PartialEq, Eq)]
pub enum SendEvent {
    /// The request was handed to the node, or could not be.
    Sent(Result<(), String>),
    /// The node gave this result, or is gone.
    Received(Option<Result<HttpResponse, String>>),
}

/// What the client does next.
#[derive(Debug, PartialEq, Eq)]
pub enum SendAction {
    /// Hand this request to the node.
    Send(HttpRequest),
    /// Wait for the next result from the node.
    Receive,
    /// Give this back.
    Finish(Result<HttpResponse, ClientError>),
    /// Stop, for this reason.
    Stop(String),
}

/// The contents of a [`SendAction`].
pub enum SendActionView {
    Send(HttpRequest),
    Receive,
    Finish(Result<HttpResponse, ClientError>),
    Stop(Seq<char>),
}

impl<S, R> View for P2PClient<S, R> {
    type V = P2PClientView<S, R>;

    closed spec fn view(&self) -> P2PClientView<S, R> {
        P2PClientView {
            to_conduit: self.to_conduit,
            from_conduit: self.from_conduit,
            is_authenticated: self.is_authenticated,
            session: self.session,
            user_id: self.user_id,
            device_id: self.device_id,
        }
    }
}

impl View for SendAction {
    type V = SendActionView;

    open spec fn view(&self) -> SendActionView {
        match *self {
            SendAction::Send(request) => SendActionView::Send(request),
            SendAction::Receive => SendActionView::Receive,
            SendAction::Finish(result) => SendActionView::Finish(result),
            SendAction::Stop(reason) => SendActionView::Stop(reason@),
        }
    }
}

/// Whether the client expects this event now.
pub open spec fn send_expects(phase: SendPhase, event: SendEvent) -> bool {
    match phase {
        SendPhase::Sending => event is Sent,
        SendPhase::Receiving => event is Received,
        SendPhase::Finished => false,
    }
}

/// What a result of the node is to the sender of the request.
pub open spec fn client_result(result: Result<HttpResponse, String>) -> Result<
    HttpResponse,
    ClientError,
> {
    match result {
        Ok(response) => Ok(response),
        Err(reason) => Err(ClientError::StateStore(reason)),
    }
}

/// What follows an event that the client expects.
pub open spec fn send_turn_of(event: SendEvent) -> (SendPhase, SendActionView) {
    match event {
        SendEvent::Sent(Ok(_)) => (SendPhase::Receiving, SendActionView::Receive),
        SendEvent::Sent(Err(reason)) => (
            SendPhase::Finished,
            SendActionView::Finish(Err(ClientError::StateStore(reason))),
        ),
        SendEvent::Received(Some(result)) => (
            SendPhase::Finished,
            SendActionView::Finish(client_result(result)),
        ),
        SendEvent::Received(None) => (
            SendPhase::Finished,
            SendActionView::Stop("from_conduit channel shutdown"@),
        ),
    }
}

impl<S, R> P2PClient<S, R> {
    /// A client for this user and device, which is not logged in.
    pub fn new(user_id: String, device_id: String, to_conduit: S, from_conduit: R) -> (client: Self)
        ensures
            client@ == (P2PClientView {
                to_conduit,
                from_conduit,
                is_authenticated: false,
                session: None,
                user_id,
                device_id,
            }),
    {
        P2PClient {
            to_conduit,
            from_conduit,
            is_authenticated: false,
            session: None,
            user_id,
            device_id,
        }
    }

    /// Where requests go out.
    pub fn to_conduit(&self) -> (sender: &S)
        ensures
            *sender == self@.to_conduit,
    {
        &self.to_conduit
    }

    /// Where results come back.
    pub fn from_conduit(&self) -> (receiver: &R)
        ensures
            *receiver == self@.from_conduit,
    {
        &self.from_conduit
    }

    /// Begins to send a request. It goes to the node as it is, whatever server and session it was
    /// meant for, and whether or not the user is logged in.
    pub fn send_request(
        &self,
        _requires_auth: bool,
        _homeserver: &str,
        _session: &Option<Session>,
        _method: &str,
        request: HttpRequest,
    ) -> (start: (SendPhase, SendAction))
        ensures
            start == (SendPhase::Sending, SendAction::Send(request)),
    {
        (SendPhase::Sending, SendAction::Send(request))
    }
}

/// Goes on with a request.
pub fn send_turn(phase: SendPhase, event: SendEvent) -> (turn: (SendPhase, SendAction))
    requires
        send_expects(phase, event),
    ensures
        (turn.0, turn.1@) == send_turn_of(event),
        event matches SendEvent::Received(Some(Ok(response))) ==> turn.1 == SendAction::Finish(
            Ok(response),
        ),
        event matches SendEvent::Received(Some(Err(reason))) ==> turn.1 == SendAction::Finish(
            Err(ClientError::StateStore(reason)),
        ),
{
    match event {
        SendEvent::Sent(Ok(_)) => (SendPhase::Receiving, SendAction::Receive),
        SendEvent::Sent(Err(reason)) => (
            SendPhase::Finished,
            SendAction::Finish(Err(ClientError::StateStore(reason))),
        ),
        SendEvent::Received(Some(Ok(response))) => (
            SendPhase::Finished,
            SendAction::Finish(Ok(response)),
        ),
        SendEvent::Received(Some(Err(reason))) => (
            SendPhase::Finished,
            SendAction::Finish(Err(ClientError::StateStore(reason))),
        ),
        SendEvent::Received(None) => (
            SendPhase::Finished,
            SendAction::Stop("from_conduit channel shutdown".to_string()),
        ),
    }
}

/// What follows each event: a request that was handed over is waited for; one that could not be
/// ends with that error; a response is given back as the node gave it, and an error of the node
/// under its own text; where the node is gone, the client stops.
pub proof fn law_results_are_given_back(response: HttpResponse, reason: String)
    ensures
        send_turn_of(SendEvent::Sent(Ok(()))) == (SendPhase::Receiving, SendActionView::Receive),
        send_turn_of(SendEvent::Sent(Err(reason))) == (
            SendPhase::Finished,
            SendActionView::Finish(Err(ClientError::StateStore(reason))),
        ),
        send_turn_of(SendEvent::Received(Some(Ok(response)))) == (
            SendPhase::Finished,
            SendActionView::Finish(Ok(response)),
        ),
        send_turn_of(SendEvent::Received(Some(Err(reason)))) == (
            SendPhase::Finished,
            SendActionView::Finish(Err(ClientError::StateStore(reason))),
        ),
        send_turn_of(SendEvent::Received(None)) == (
            SendPhase::Finished,
            SendActionView::Stop("from_conduit channel shutdown"@),
        ),
{
}

/// A client that is sending expects every outcome of that, and one that is receiving everything
/// that may come back.
pub proof fn law_every_outcome_is_expected(
    sent: Result<(), String>,
    received: Option<Result<HttpResponse, String>>,
)
    ensures
        send_expects(SendPhase::Sending, SendEvent::Sent(sent)),
        send_expects(SendPhase::Receiving, SendEvent::Received(received)),
{
}

/// The contents of an action are those of what it holds.
pub proof fn law_contents_of_action(action: SendAction)
    ensures
        match action {
            SendAction::Send(request) => action@ == SendActionView::Send(request),
            SendAction::Receive => action@ is Receive,
            SendAction::Finish(result) => action@ == SendActionView::Finish(result),
            SendAction::Stop(reason) => action@ == SendActionView::Stop(reason@),
        },
{
}

} // verus!
