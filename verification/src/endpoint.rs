//! The typed requests of the homeserver endpoints, decoded from what a client sent.

use crate::route::{Route, RouteView};
use crate::text;
use ruma_client_api::r0::account::register;
use ruma_client_api::r0::membership::join_room_by_id;
use ruma_client_api::r0::message::create_message_event;
use ruma_client_api::r0::room::create_room;
use ruma_client_api::r0::session::login;
use ruma_client_api::r0::sync::sync_events;
use vstd::prelude::*;

verus! {

/// A request to join a room, as `ruma_client_api` holds it.
#[verifier::external_type_specification]
#[verifier::external_body]
pub struct ExJoinRoomRequest(ruma_client_api::r0::membership::join_room_by_id::Request);

/// A request to send an event to a room, as `ruma_client_api` holds it.
#[verifier::external_type_specification]
#[verifier::external_body]
pub struct ExSendEventRequest(ruma_client_api::r0::message::create_message_event::Request);

/// A request to register an account, as `ruma_client_api` holds it.
#[verifier::external_type_specification]
#[verifier::external_body]
pub struct ExRegisterRequest(ruma_client_api::r0::account::register::Request);

/// A request for new events, as `ruma_client_api` holds it.
#[verifier::external_type_specification]
#[verifier::external_body]
pub struct ExSyncRequest(ruma_client_api::r0::sync::sync_events::Request);

/// A request to create a room, as `ruma_client_api` holds it.
#[verifier::external_type_specification]
#[verifier::external_body]
pub struct ExCreateRoomRequest(ruma_client_api::r0::room::create_room::Request);

/// A request to log in, as `ruma_client_api` holds it.
#[verifier::external_type_specification]
#[verifier::external_body]
pub struct ExLoginRequest(ruma_client_api::r0::session::login::Request);

/// The typed request of one of the endpoints.
#[derive(Debug)]
pub enum TypedRequest {
    JoinRoom(join_room_by_id::Request),
    SendEvent(create_message_event::Request),
    Register(register::Request),
    Sync(sync_events::Request),
    CreateRoom(create_room::Request),
    Login(login::Request),
}

/// What `join_room_by_id::Request::try_from` makes of a request with this URI and body, where it
/// makes something of it.
pub uninterp spec fn decoded_join_room(target: Seq<char>, body: Seq<u8>) -> Option<
    join_room_by_id::Request,
>;

/// What `create_message_event::Request::try_from` makes of a request with this URI and body,
/// where it makes something of it.
pub uninterp spec fn decoded_send_event(target: Seq<char>, body: Seq<u8>) -> Option<
    create_message_event::Request,
>;

/// What `register::Request::try_from` makes of a request with this URI and body, where it makes
/// something of it.
pub uninterp spec fn decoded_register(target: Seq<char>, body: Seq<u8>) -> Option<
    register::Request,
>;

/// What `sync_events::Request::try_from` makes of a request with this URI and body, where it
/// makes something of it.
pub uninterp spec fn decoded_sync(target: Seq<char>, body: Seq<u8>) -> Option<
    sync_events::Request,
>;

/// What `create_room::Request::try_from` makes of a request with this URI and body, where it
/// makes something of it.
pub uninterp spec fn decoded_create_room(target: Seq<char>, body: Seq<u8>) -> Option<
    create_room::Request,
>;

/// What `login::Request::try_from` makes of a request with this URI and body, where it makes
/// something of it.
pub uninterp spec fn decoded_login(target: Seq<char>, body: Seq<u8>) -> Option<login::Request>;

/// Whether a path ends inside this segment, because a query or a fragment begins there.
pub open spec fn ends_path(segment: Seq<char>) -> bool {
    segment.contains('?') || segment.contains('#')
}

/// Whether the path of this URI is absolute and has more than `count` segments behind its first
/// `/`.
pub open spec fn has_segments(target: Seq<char>, count: int) -> bool {
    let segments = text::split_on(target, '/');
    &&& segments.len() > count + 1
    &&& segments[0].len() == 0
    &&& forall|i: int| 0 <= i <= count ==> !ends_path(#[trigger] segments[i])
}

/// `join_room_by_id::Request::try_from` on a request with this URI and body: the result is a
/// function of the two, and `None` where the URI is not one or the request does not decode. The
/// room id is taken from the fifth path segment, which has to be there.
#[verifier::external_body]
fn decode_join_room(target: &str, body: &Vec<u8>) -> (decoded: Option<join_room_by_id::Request>)
    requires
        has_segments(target@, 4),
    ensures
        decoded == decoded_join_room(target@, body@),
{
    let request = http::Request::builder().uri(target).body(body.clone()).ok()?;
    join_room_by_id::Request::try_from(request).ok()
}

/// `create_message_event::Request::try_from` on a request with this URI and body: the result is
/// a function of the two, and `None` where the URI is not one or the request does not decode. The
/// room id, the event type and the transaction id are taken from the fifth, seventh and eighth
/// path segment, which have to be there.
#[verifier::external_body]
fn decode_send_event(target: &str, body: &Vec<u8>) -> (decoded: Option<
    create_message_event::Request,
>)
    requires
        has_segments(target@, 7),
    ensures
        decoded == decoded_send_event(target@, body@),
{
    let request = http::Request::builder().uri(target).body(body.clone()).ok()?;
    create_message_event::Request::try_from(request).ok()
}

/// `register::Request::try_from` on a request with this URI and body: the result is a function
/// of the two, and `None` where the URI is not one or the request does not decode.
#[verifier::external_body]
fn decode_register(target: &str, body: &Vec<u8>) -> (decoded: Option<register::Request>)
    ensures
        decoded == decoded_register(target@, body@),
{
    let request = http::Request::builder().uri(target).body(body.clone()).ok()?;
    register::Request::try_from(request).ok()
}

/// `sync_events::Request::try_from` on a request with this URI and body: the result is a
/// function of the two, and `None` where the URI is not one or the request does not decode. Every
/// field of the request comes from the query and may be missing there, so that the endpoint's path
/// with an empty query decodes whatever the body is.
#[verifier::external_body]
fn decode_sync(target: &str, body: &Vec<u8>) -> (decoded: Option<sync_events::Request>)
    ensures
        decoded == decoded_sync(target@, body@),
        target@ == "/_matrix/client/r0/sync?"@ ==> decoded is Some,
{
    let request = http::Request::builder().uri(target).body(body.clone()).ok()?;
    sync_events::Request::try_from(request).ok()
}

/// `create_room::Request::try_from` on a request with this URI and body: the result is a
/// function of the two, and `None` where the URI is not one or the request does not decode.
#[verifier::external_body]
fn decode_create_room(target: &str, body: &Vec<u8>) -> (decoded: Option<create_room::Request>)
    ensures
        decoded == decoded_create_room(target@, body@),
{
    let request = http::Request::builder().uri(target).body(body.clone()).ok()?;
    create_room::Request::try_from(request).ok()
}

/// `login::Request::try_from` on a request with this URI and body: the result is a function of
/// the two, and `None` where the URI is not one or the request does not decode.
#[verifier::external_body]
fn decode_login(target: &str, body: &Vec<u8>) -> (decoded: Option<login::Request>)
    ensures
        decoded == decoded_login(target@, body@),
{
    let request = http::Request::builder().uri(target).body(body.clone()).ok()?;
    login::Request::try_from(request).ok()
}

/// What the endpoint `route` makes of a request with this URI and body. An event is only decoded
/// where the path reaches its transaction id.
pub open spec fn decoded(route: RouteView, target: Seq<char>, body: Seq<u8>) -> Option<
    TypedRequest,
> {
    match route {
        RouteView::JoinRoom { .. } => match decoded_join_room(target, body) {
            Some(request) => Some(TypedRequest::JoinRoom(request)),
            None => None,
        },
        RouteView::SendEvent { room_id, event_type, .. } => if ends_path(room_id) || ends_path(
            event_type,
        ) {
            None
        } else {
            match decoded_send_event(target, body) {
                Some(request) => Some(TypedRequest::SendEvent(request)),
                None => None,
            }
        },
        RouteView::Register => match decoded_register(target, body) {
            Some(request) => Some(TypedRequest::Register(request)),
            None => None,
        },
        RouteView::Sync => match decoded_sync(target, body) {
            Some(request) => Some(TypedRequest::Sync(request)),
            None => None,
        },
        RouteView::CreateRoom => match decoded_create_room(target, body) {
            Some(request) => Some(TypedRequest::CreateRoom(request)),
            None => None,
        },
        RouteView::Login => match decoded_login(target, body) {
            Some(request) => Some(TypedRequest::Login(request)),
            None => None,
        },
    }
}

/// Whether a path ends inside this segment.
fn cuts_path(segment: &str) -> (yes: bool)
    ensures
        yes == ends_path(segment@),
{
    text::contains_char(segment, '?') || text::contains_char(segment, '#')
}

/// The fixed segments that stand before a room id end no path.
proof fn lemma_fixed_segments(target: Seq<char>, route: RouteView)
    requires
        crate::route::leads_to(text::split_on(target, '/'), route),
        route is JoinRoom || route is SendEvent,
    ensures
        text::split_on(target, '/')[0].len() == 0,
        forall|i: int| 0 <= i <= 4 ==> !ends_path(#[trigger] text::split_on(target, '/')[i]),
        route is SendEvent ==> !ends_path(text::split_on(target, '/')[6]),
{
    let segments = text::split_on(target, '/');
    reveal_strlit("");
    reveal_strlit("_matrix");
    reveal_strlit("client");
    reveal_strlit("r0");
    reveal_strlit("rooms");
    reveal_strlit("send");
    assert(segments[0] == ""@ && segments[1] == "_matrix"@ && segments[2] == "client"@
        && segments[3] == "r0"@ && segments[4] == "rooms"@);
}

/// The typed request that the endpoint `route` makes of a request with this URI and body.
pub fn decode(route: &Route, target: &str, body: &Vec<u8>) -> (request: Option<TypedRequest>)
    requires
        crate::route::leads_to(text::split_on(target@, '/'), route@),
    ensures
        request == decoded(route@, target@, body@),
        route@ is Sync ==> request is Some,
{
    match route {
        Route::JoinRoom { room_id } => {
            proof {
                lemma_fixed_segments(target@, route@);
            }
            match decode_join_room(target, body) {
                Some(request) => Some(TypedRequest::JoinRoom(request)),
                None => None,
            }
        },
        Route::SendEvent { room_id, event_type, txn_id } => {
            if cuts_path(room_id.as_str()) || cuts_path(event_type.as_str()) {
                return None;
            }
            proof {
                lemma_fixed_segments(target@, route@);
                let segments = text::split_on(target@, '/');
                assert(segments[5] == room_id@ && segments[7] == event_type@);
                assert forall|i: int| 0 <= i <= 7 implies !ends_path(#[trigger] segments[i]) by {
                    if i > 4 {
                        assert(i == 5 || i == 6 || i == 7);
                    }
                }
            }
            match decode_send_event(target, body) {
                Some(request) => Some(TypedRequest::SendEvent(request)),
                None => None,
            }
        },
        Route::Register => match decode_register(target, body) {
            Some(request) => Some(TypedRequest::Register(request)),
            None => None,
        },
        Route::Sync => {
            proof {
                crate::route::law_only_its_path_leads_to_a_route(target@, route@);
                crate::route::law_paths_in_writing(""@, ""@, ""@);
            }
            match decode_sync(target, body) {
                Some(request) => Some(TypedRequest::Sync(request)),
                None => None,
            }
        },
        Route::CreateRoom => match decode_create_room(target, body) {
            Some(request) => Some(TypedRequest::CreateRoom(request)),
            None => None,
        },
        Route::Login => match decode_login(target, body) {
            Some(request) => Some(TypedRequest::Login(request)),
            None => None,
        },
    }
}

/// A request that is decoded for an endpoint is a request of that endpoint.
pub proof fn law_request_fits_route(route: RouteView, target: Seq<char>, body: Seq<u8>)
    requires
        decoded(route, target, body) is Some,
    ensures
        match route {
            RouteView::JoinRoom { .. } => decoded(route, target, body)->0 is JoinRoom,
            RouteView::SendEvent { .. } => decoded(route, target, body)->0 is SendEvent,
            RouteView::Register => decoded(route, target, body)->0 is Register,
            RouteView::Sync => decoded(route, target, body)->0 is Sync,
            RouteView::CreateRoom => decoded(route, target, body)->0 is CreateRoom,
            RouteView::Login => decoded(route, target, body)->0 is Login,
        },
{
}

/// What an endpoint makes of a request is what its own typed request makes of the whole URI and
/// body. The one exception is an event whose room id or type holds a `?` or a `#`: there the path
/// does not reach the transaction id, and nothing is decoded.
pub proof fn law_endpoint_decodes_its_own_request(
    target: Seq<char>,
    body: Seq<u8>,
    room_id: Seq<char>,
    event_type: Seq<char>,
    txn_id: Seq<char>,
)
    ensures
        ({
            let join = decoded(RouteView::JoinRoom { room_id }, target, body);
            let send = decoded(RouteView::SendEvent { room_id, event_type, txn_id }, target, body);
            let register = decoded(RouteView::Register, target, body);
            let sync = decoded(RouteView::Sync, target, body);
            let create = decoded(RouteView::CreateRoom, target, body);
            let login = decoded(RouteView::Login, target, body);
            let cut = room_id.contains('?') || room_id.contains('#') || event_type.contains('?')
                || event_type.contains('#');
            &&& match decoded_join_room(target, body) {
                Some(request) => join == Some(TypedRequest::JoinRoom(request)),
                None => join is None,
            }
            &&& match decoded_send_event(target, body) {
                Some(request) => send == if cut {
                    None
                } else {
                    Some(TypedRequest::SendEvent(request))
                },
                None => send is None,
            }
            &&& match decoded_register(target, body) {
                Some(request) => register == Some(TypedRequest::Register(request)),
                None => register is None,
            }
            &&& match decoded_sync(target, body) {
                Some(request) => sync == Some(TypedRequest::Sync(request)),
                None => sync is None,
            }
            &&& match decoded_create_room(target, body) {
                Some(request) => create == Some(TypedRequest::CreateRoom(request)),
                None => create is None,
            }
            &&& match decoded_login(target, body) {
                Some(request) => login == Some(TypedRequest::Login(request)),
                None => login is None,
            }
        }),
{
}

} // verus!
