//! Which homeserver endpoint a request path belongs to.

use crate::text;
use vstd::prelude::*;

verus! {

/// An endpoint, with what its path carries. A room id stays percent-encoded.
#[derive(Debug, PartialEq, Eq)]
pub enum Route {
    JoinRoom { room_id: String },
    SendEvent { room_id: String, event_type: String, txn_id: String },
    Register,
    Sync,
    CreateRoom,
    Login,
}

/// The contents of a [`Route`].
pub enum RouteView {
    JoinRoom { room_id: Seq<char> },
    SendEvent { room_id: Seq<char>, event_type: Seq<char>, txn_id: Seq<char> },
    Register,
    Sync,
    CreateRoom,
    Login,
}

impl View for Route {
    type V = RouteView;

    open spec fn view(&self) -> RouteView {
        match *self {
            Route::JoinRoom { room_id } => RouteView::JoinRoom { room_id: room_id@ },
            Route::SendEvent { room_id, event_type, txn_id } => RouteView::SendEvent {
                room_id: room_id@,
                event_type: event_type@,
                txn_id: txn_id@,
            },
            Route::Register => RouteView::Register,
            Route::Sync => RouteView::Sync,
            Route::CreateRoom => RouteView::CreateRoom,
            Route::Login => RouteView::Login,
        }
    }
}

impl RouteView {
    /// The path segments that lead to the endpoint. Registration and synchronisation are asked
    /// for with an empty query, which stays on their last segment.
    pub open spec fn segments(self) -> Seq<Seq<char>> {
        let root = seq![""@, "_matrix"@, "client"@, "r0"@];
        match self {
            RouteView::JoinRoom { room_id } => root + seq!["rooms"@, room_id, "join"@],
            RouteView::SendEvent { room_id, event_type, txn_id } => root + seq![
                "rooms"@,
                room_id,
                "send"@,
                event_type,
                txn_id,
            ],
            RouteView::Register => root + seq!["register?"@],
            RouteView::Sync => root + seq!["sync?"@],
            RouteView::CreateRoom => root + seq!["createRoom"@],
            RouteView::Login => root + seq!["login"@],
        }
    }

    /// Whether the endpoint takes this room id: it has to begin with an encoded `!`.
    pub open spec fn takes_room(self) -> bool {
        match self {
            RouteView::JoinRoom { room_id } => text::begins_with(room_id, "%21"@),
            RouteView::SendEvent { room_id, .. } => text::begins_with(room_id, "%21"@),
            _ => true,
        }
    }

    /// Whether what the path carries fits into path segments.
    pub open spec fn fits_segments(self) -> bool {
        match self {
            RouteView::JoinRoom { room_id } => !room_id.contains('/'),
            RouteView::SendEvent { room_id, event_type, txn_id } => {
                &&& !room_id.contains('/')
                &&& !event_type.contains('/')
                &&& !txn_id.contains('/')
            },
            _ => true,
        }
    }

    /// The path of the endpoint in writing.
    pub open spec fn path(self) -> Seq<char> {
        text::join_with(self.segments(), '/')
    }
}

/// Whether the segments of a path are those of the endpoint `route`.
pub open spec fn leads_to(segments: Seq<Seq<char>>, route: RouteView) -> bool {
    segments == route.segments() && route.takes_room()
}

/// Whether the segments begin as those of every endpoint do.
fn under_client_api(segments: &Vec<String>) -> (yes: bool)
    ensures
        yes == (segments@.len() >= 4 && text::texts(segments@).take(4) == seq![
            ""@,
            "_matrix"@,
            "client"@,
            "r0"@,
        ]),
{
    if segments.len() < 4 {
        return false;
    }
    let ghost root = seq![""@, "_matrix"@, "client"@, "r0"@];
    let ghost front = text::texts(segments@).take(4);
    let yes = text::same_text(segments[0].as_str(), "") && text::same_text(segments[1].as_str(), "_matrix")
        && text::same_text(segments[2].as_str(), "client") && text::same_text(segments[3].as_str(), "r0");
    proof {
        assert(front[0] == segments@[0]@ && front[1] == segments@[1]@ && front[2]
            == segments@[2]@ && front[3] == segments@[3]@);
        if yes {
            assert(front =~= root);
        } else {
            assert(root[0] == ""@ && root[1] == "_matrix"@ && root[2] == "client"@ && root[3]
                == "r0"@);
        }
    }
    yes
}

/// The segments of an endpoint, one by one.
proof fn lemma_segments(route: RouteView)
    ensures
        route.segments().take(4) == seq![""@, "_matrix"@, "client"@, "r0"@],
        match route {
            RouteView::JoinRoom { room_id } => {
                &&& route.segments().len() == 7
                &&& route.segments()[4] == "rooms"@
                &&& route.segments()[5] == room_id
                &&& route.segments()[6] == "join"@
            },
            RouteView::SendEvent { room_id, event_type, txn_id } => {
                &&& route.segments().len() == 9
                &&& route.segments()[4] == "rooms"@
                &&& route.segments()[5] == room_id
                &&& route.segments()[6] == "send"@
                &&& route.segments()[7] == event_type
                &&& route.segments()[8] == txn_id
            },
            RouteView::Register => route.segments().len() == 5 && route.segments()[4]
                == "register?"@,
            RouteView::Sync => route.segments().len() == 5 && route.segments()[4] == "sync?"@,
            RouteView::CreateRoom => route.segments().len() == 5 && route.segments()[4]
                == "createRoom"@,
            RouteView::Login => route.segments().len() == 5 && route.segments()[4] == "login"@,
        },
{
    assert(route.segments().take(4) =~= seq![""@, "_matrix"@, "client"@, "r0"@]);
}

/// Segments that agree with those of an endpoint one by one are those of the endpoint.
proof fn lemma_same_segments(segments: Seq<Seq<char>>, route: RouteView)
    requires
        segments.len() == route.segments().len(),
        segments.take(4) == seq![""@, "_matrix"@, "client"@, "r0"@],
        forall|i: int| 4 <= i < segments.len() ==> segments[i] == route.segments()[i],
    ensures
        segments == route.segments(),
{
    lemma_segments(route);
    assert forall|i: int| 0 <= i < segments.len() implies segments[i] == route.segments()[i] by {
        if i < 4 {
            assert(segments.take(4)[i] == route.segments().take(4)[i]);
        }
    }
    assert(segments =~= route.segments());
}

/// A path leads to one endpoint at most, with one room id, event type and transaction id.
pub proof fn law_one_route_per_path(segments: Seq<Seq<char>>, first: RouteView, second: RouteView)
    requires
        leads_to(segments, first),
        leads_to(segments, second),
    ensures
        first == second,
{
    lemma_segments(first);
    lemma_segments(second);
    reveal_strlit("register?");
    reveal_strlit("sync?");
    reveal_strlit("createRoom");
    reveal_strlit("login");
    assert("register?"@.len() == 9 && "sync?"@.len() == 5 && "createRoom"@.len() == 10
        && "login"@.len() == 5);
    assert("sync?"@[0] == 's' && "login"@[0] == 'l');
}

/// The written path of an endpoint leads to that endpoint.
pub proof fn law_path_leads_back(route: RouteView)
    requires
        route.takes_room(),
        route.fits_segments(),
    ensures
        leads_to(text::split_on(route.path(), '/'), route),
{
    lemma_segments(route);
    let segments = route.segments();
    reveal_strlit("");
    reveal_strlit("_matrix");
    reveal_strlit("client");
    reveal_strlit("r0");
    reveal_strlit("rooms");
    reveal_strlit("join");
    reveal_strlit("send");
    reveal_strlit("register?");
    reveal_strlit("sync?");
    reveal_strlit("createRoom");
    reveal_strlit("login");
    assert forall|i: int| 0 <= i < segments.len() implies !(#[trigger] segments[i]).contains(
        '/',
    ) by {
        if i < 4 {
            assert(segments[i] == segments.take(4)[i]);
        }
    }
    text::law_split_undoes_join(segments, '/');
}

/// Every path that leads to an endpoint is the written path of that endpoint.
pub proof fn law_only_its_path_leads_to_a_route(path: Seq<char>, route: RouteView)
    requires
        leads_to(text::split_on(path, '/'), route),
    ensures
        path == route.path(),
        route.fits_segments(),
{
    lemma_segments(route);
    text::law_join_undoes_split(path, '/');
    text::law_split_is_free_of_separator(path, '/');
    let segments = text::split_on(path, '/');
    match route {
        RouteView::JoinRoom { room_id } => {
            assert(!segments[5].contains('/'));
        },
        RouteView::SendEvent { room_id, event_type, txn_id } => {
            assert(!segments[5].contains('/'));
            assert(!segments[7].contains('/'));
            assert(!segments[8].contains('/'));
        },
        _ => {},
    }
}

/// One more segment goes behind a separator.
proof fn lemma_join_one_more(pieces: Seq<Seq<char>>, piece: Seq<char>)
    requires
        pieces.len() >= 1,
    ensures
        text::join_with(pieces.push(piece), '/') == text::join_with(pieces, '/').push('/') + piece,
{
    assert(pieces.push(piece).drop_last() =~= pieces);
}

/// The segments that every endpoint begins with, in writing.
proof fn lemma_root_in_writing()
    ensures
        text::join_with(seq![""@, "_matrix"@, "client"@, "r0"@], '/') == "/_matrix/client/r0"@,
{
    reveal_strlit("");
    reveal_strlit("_matrix");
    reveal_strlit("client");
    reveal_strlit("r0");
    reveal_strlit("/_matrix/client/r0");
    let one = seq![""@];
    let two = one.push("_matrix"@);
    let three = two.push("client"@);
    lemma_join_one_more(one, "_matrix"@);
    lemma_join_one_more(two, "client"@);
    lemma_join_one_more(three, "r0"@);
    assert(three.push("r0"@) =~= seq![""@, "_matrix"@, "client"@, "r0"@]);
    assert(text::join_with(one, '/') == ""@);
    assert(text::join_with(three.push("r0"@), '/') =~= "/_matrix/client/r0"@);
}

/// The paths of the endpoints in writing.
pub proof fn law_paths_in_writing(room_id: Seq<char>, event_type: Seq<char>, txn_id: Seq<char>)
    ensures
        RouteView::Register.path() == "/_matrix/client/r0/register?"@,
        RouteView::Sync.path() == "/_matrix/client/r0/sync?"@,
        RouteView::CreateRoom.path() == "/_matrix/client/r0/createRoom"@,
        RouteView::Login.path() == "/_matrix/client/r0/login"@,
        (RouteView::JoinRoom { room_id }).path() == "/_matrix/client/r0/rooms/"@ + room_id
            + "/join"@,
        (RouteView::SendEvent { room_id, event_type, txn_id }).path()
            == "/_matrix/client/r0/rooms/"@ + room_id + "/send/"@ + event_type + "/"@ + txn_id,
{
    lemma_root_in_writing();
    let root = seq![""@, "_matrix"@, "client"@, "r0"@];
    reveal_strlit("/_matrix/client/r0");
    reveal_strlit("register?");
    reveal_strlit("/_matrix/client/r0/register?");
    reveal_strlit("sync?");
    reveal_strlit("/_matrix/client/r0/sync?");
    reveal_strlit("createRoom");
    reveal_strlit("/_matrix/client/r0/createRoom");
    reveal_strlit("login");
    reveal_strlit("/_matrix/client/r0/login");
    reveal_strlit("rooms");
    reveal_strlit("/_matrix/client/r0/rooms/");
    reveal_strlit("join");
    reveal_strlit("/join");
    reveal_strlit("send");
    reveal_strlit("/send/");
    reveal_strlit("/");
    lemma_join_one_more(root, "register?"@);
    assert(root.push("register?"@) =~= RouteView::Register.segments());
    assert(RouteView::Register.path() =~= "/_matrix/client/r0/register?"@);
    lemma_join_one_more(root, "sync?"@);
    assert(root.push("sync?"@) =~= RouteView::Sync.segments());
    assert(RouteView::Sync.path() =~= "/_matrix/client/r0/sync?"@);
    lemma_join_one_more(root, "createRoom"@);
    assert(root.push("createRoom"@) =~= RouteView::CreateRoom.segments());
    assert(RouteView::CreateRoom.path() =~= "/_matrix/client/r0/createRoom"@);
    lemma_join_one_more(root, "login"@);
    assert(root.push("login"@) =~= RouteView::Login.segments());
    assert(RouteView::Login.path() =~= "/_matrix/client/r0/login"@);
    let rooms = root.push("rooms"@);
    let room = rooms.push(room_id);
    lemma_join_one_more(root, "rooms"@);
    lemma_join_one_more(rooms, room_id);
    assert(text::join_with(room, '/') =~= "/_matrix/client/r0/rooms/"@ + room_id);
    let join = RouteView::JoinRoom { room_id };
    lemma_join_one_more(room, "join"@);
    assert(room.push("join"@) =~= join.segments());
    assert(join.path() =~= "/_matrix/client/r0/rooms/"@ + room_id + "/join"@);
    let send = RouteView::SendEvent { room_id, event_type, txn_id };
    let sent = room.push("send"@);
    let typed = sent.push(event_type);
    lemma_join_one_more(room, "send"@);
    lemma_join_one_more(sent, event_type);
    lemma_join_one_more(typed, txn_id);
    assert(typed.push(txn_id) =~= send.segments());
    assert(text::join_with(sent, '/').push('/') =~= "/_matrix/client/r0/rooms/"@ + room_id
        + "/send/"@);
    assert(send.path() =~= "/_matrix/client/r0/rooms/"@ + room_id + "/send/"@ + event_type + "/"@
        + txn_id);
}

/// The endpoint that the segments of a path lead to.
pub fn find_route(segments: &Vec<String>) -> (found: Option<Route>)
    ensures
        match found {
            Some(route) => leads_to(text::texts(segments@), route@),
            None => forall|route: RouteView| !leads_to(text::texts(segments@), route),
        },
{
    let ghost given = text::texts(segments@);
    let ghost root = seq![""@, "_matrix"@, "client"@, "r0"@];
    proof {
        assert(given.len() == segments@.len());
        assert forall|i: int| 0 <= i < given.len() implies given[i] == (#[trigger] segments@[i])@ by {}
        assert forall|route: RouteView| leads_to(given, route) implies {
            &&& given.len() == 5 || given.len() == 7 || given.len() == 9
            &&& given.take(4) == root
            &&& given.len() == 5 ==> (given[4] == "register?"@ || given[4] == "sync?"@ || given[4]
                == "createRoom"@ || given[4] == "login"@)
            &&& given.len() == 7 ==> given[4] == "rooms"@ && given[6] == "join"@ && text::begins_with(
                given[5],
                "%21"@,
            )
            &&& given.len() == 9 ==> given[4] == "rooms"@ && given[6] == "send"@ && text::begins_with(
                given[5],
                "%21"@,
            )
        } by {
            lemma_segments(route);
        }
    }
    if !under_client_api(segments) {
        return None;
    }
    let n: usize = segments.len();
    if n == 5 {
        let last = segments[4].as_str();
        let found = if text::same_text(last, "register?") {
            Route::Register
        } else if text::same_text(last, "sync?") {
            Route::Sync
        } else if text::same_text(last, "createRoom") {
            Route::CreateRoom
        } else if text::same_text(last, "login") {
            Route::Login
        } else {
            return None;
        };
        proof {
            lemma_segments(found@);
            lemma_same_segments(given, found@);
        }
        return Some(found);
    }
    if n != 7 && n != 9 {
        return None;
    }
    if !text::same_text(segments[4].as_str(), "rooms") || !text::starts_with(
        segments[5].as_str(),
        "%21",
    ) {
        return None;
    }
    let room_id = segments[5].clone();
    let found = if n == 7 {
        if !text::same_text(segments[6].as_str(), "join") {
            return None;
        }
        Route::JoinRoom { room_id }
    } else {
        if !text::same_text(segments[6].as_str(), "send") {
            return None;
        }
        Route::SendEvent {
            room_id,
            event_type: segments[7].clone(),
            txn_id: segments[8].clone(),
        }
    };
    proof {
        lemma_segments(found@);
        lemma_same_segments(given, found@);
    }
    Some(found)
}

/// The paths of the endpoints lead to them: joining a room and sending to one for every room id
/// that is `%21` with anything behind it that holds no `/`, whatever its length, and every event
/// type and transaction id without `/`; the four others as they are written here.
pub proof fn law_every_room_is_reached(
    rest: Seq<char>,
    event_type: Seq<char>,
    txn_id: Seq<char>,
)
    requires
        forall|i: int| 0 <= i < rest.len() ==> #[trigger] rest[i] != '/',
        forall|i: int| 0 <= i < event_type.len() ==> #[trigger] event_type[i] != '/',
        forall|i: int| 0 <= i < txn_id.len() ==> #[trigger] txn_id[i] != '/',
    ensures
        leads_to(
            text::split_on("/_matrix/client/r0/rooms/"@ + ("%21"@ + rest) + "/join"@, '/'),
            RouteView::JoinRoom { room_id: "%21"@ + rest },
        ),
        leads_to(
            text::split_on(
                "/_matrix/client/r0/rooms/"@ + ("%21"@ + rest) + "/send/"@ + event_type + "/"@
                    + txn_id,
                '/',
            ),
            RouteView::SendEvent { room_id: "%21"@ + rest, event_type, txn_id },
        ),
        leads_to(text::split_on("/_matrix/client/r0/register?"@, '/'), RouteView::Register),
        leads_to(text::split_on("/_matrix/client/r0/sync?"@, '/'), RouteView::Sync),
        leads_to(text::split_on("/_matrix/client/r0/createRoom"@, '/'), RouteView::CreateRoom),
        leads_to(text::split_on("/_matrix/client/r0/login"@, '/'), RouteView::Login),
{
    let room_id = "%21"@ + rest;
    reveal_strlit("%21");
    text::law_begins_with(room_id, "%21"@);
    assert(!room_id.contains('/')) by {
        if room_id.contains('/') {
            let k = choose|k: int| 0 <= k < room_id.len() && room_id[k] == '/';
            assert(k >= 3 && rest[k - 3] == '/');
        }
    }
    law_paths_in_writing(room_id, event_type, txn_id);
    law_path_leads_back(RouteView::JoinRoom { room_id });
    law_path_leads_back(RouteView::SendEvent { room_id, event_type, txn_id });
    law_path_leads_back(RouteView::Register);
    law_path_leads_back(RouteView::Sync);
    law_path_leads_back(RouteView::CreateRoom);
    law_path_leads_back(RouteView::Login);
}

/// No other path leads to an endpoint: one that does is written as below, with a room id that is
/// `%21` with something behind it.
pub proof fn law_no_other_path_is_routed(path: Seq<char>, route: RouteView)
    requires
        leads_to(text::split_on(path, '/'), route),
    ensures
        match route {
            RouteView::JoinRoom { room_id } => {
                &&& path == "/_matrix/client/r0/rooms/"@ + room_id + "/join"@
                &&& exists|rest: Seq<char>| room_id == #[trigger] ("%21"@ + rest)
            },
            RouteView::SendEvent { room_id, event_type, txn_id } => {
                &&& path == "/_matrix/client/r0/rooms/"@ + room_id + "/send/"@ + event_type + "/"@
                    + txn_id
                &&& exists|rest: Seq<char>| room_id == #[trigger] ("%21"@ + rest)
            },
            RouteView::Register => path == "/_matrix/client/r0/register?"@,
            RouteView::Sync => path == "/_matrix/client/r0/sync?"@,
            RouteView::CreateRoom => path == "/_matrix/client/r0/createRoom"@,
            RouteView::Login => path == "/_matrix/client/r0/login"@,
        },
{
    law_only_its_path_leads_to_a_route(path, route);
    match route {
        RouteView::JoinRoom { room_id } => {
            law_paths_in_writing(room_id, ""@, ""@);
            text::law_begins_with(room_id, "%21"@);
        },
        RouteView::SendEvent { room_id, event_type, txn_id } => {
            law_paths_in_writing(room_id, event_type, txn_id);
            text::law_begins_with(room_id, "%21"@);
        },
        _ => {
            law_paths_in_writing(""@, ""@, ""@);
        },
    }
}

/// The contents of a route are the texts of its fields.
pub proof fn law_contents_of_route(room_id: String, event_type: String, txn_id: String)
    ensures
        (Route::JoinRoom { room_id })@ == (RouteView::JoinRoom { room_id: room_id@ }),
        (Route::SendEvent { room_id, event_type, txn_id })@ == (RouteView::SendEvent {
            room_id: room_id@,
            event_type: event_type@,
            txn_id: txn_id@,
        }),
        Route::Register@ is Register,
        Route::Sync@ is Sync,
        Route::CreateRoom@ is CreateRoom,
        Route::Login@ is Login,
{
}

} // verus!
