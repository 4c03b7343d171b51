//! What becomes of one request: which homeserver call it leads to, and what follows from the
//! homeserver's reply.

use crate::endpoint;
use crate::endpoint::TypedRequest;
use crate::json;
use crate::message::{HttpRequest, HttpResponse};
use crate::route;
use crate::route::{Route, RouteView};
use crate::text;
use vstd::prelude::*;

verus! {

/// The kind of account that a registration asks for.
#[derive(Clone, Copy, Debug, PartialEq, Eq, Structural)]
pub enum AccountKind {
    Guest,
    User,
}

/// Authentication data that a client sends directly. Each parameter has a name and a JSON value.
#[derive(Debug, PartialEq, Eq)]
pub struct DirectAuth {
    pub kind: String,
    pub session: Option<String>,
    pub parameters: Vec<(String, String)>,
}

/// What a registration asks for.
#[derive(Debug, PartialEq, Eq)]
pub struct Registration {
    pub password: Option<String>,
    pub username: Option<String>,
    pub device_id: Option<String>,
    pub initial_device_display_name: Option<String>,
    pub auth: Option<DirectAuth>,
    pub kind: Option<AccountKind>,
    pub inhibit_login: bool,
}

/// What a homeserver call carries for its endpoint.
#[derive(Debug)]
pub enum CallBody {
    /// The decoded client request, and the endpoint it goes to.
    Routed { route: Route, request: TypedRequest },
    /// A registration that answers an authentication challenge.
    Registration(Registration),
}

/// One call into the homeserver.
#[derive(Debug)]
pub struct HomeserverCall {
    pub body: CallBody,
    pub json_body: Option<String>,
    pub user_id: Option<String>,
    pub device_id: Option<String>,
}

/// What the outstanding homeserver call is for.
#[derive(Debug)]
pub enum Pending {
    /// Its reply is the answer to the client.
    Answer,
    /// It registers an account, and may be challenged.
    Registration { user_id: Option<String>, device_id: Option<String> },
    /// It answers the challenge.
    ChallengedRegistration,
}

/// How the homeserver replied to a call.
#[derive(Debug)]
pub enum Reply {
    /// It answered; the answer could be written as an HTTP response, or could not.
    Answered(Result<HttpResponse, String>),
    /// It asks for authentication by one of these flows, each a list of stages.
    /// The refusal reads `reason`, and `debug` to a developer.
    Challenged { flows: Vec<Vec<String>>, reason: String, debug: String },
    /// It failed. The failure reads `reason`, and `debug` to a developer.
    Failed { reason: String, debug: String },
}

/// Why a request cannot be processed any further.
#[derive(Debug, PartialEq, Eq)]
pub enum Halt {
    /// No endpoint has this path.
    Unrouted { segments: Vec<String> },
    /// The request is not one of its endpoint, or a query cuts its path short.
    Undecodable,
    /// The homeserver asks for authentication and offers no stage for it.
    NoStage,
    /// The homeserver asks for an authentication stage other than the dummy one.
    OtherStage,
    /// The homeserver refused a registration without asking for authentication.
    NotChallenged,
    /// The homeserver refused a registration that met its challenge, with this error.
    ChallengeFailed { debug: String },
}

/// What to do next for a request.
#[derive(Debug)]
pub enum Step {
    /// Make this call, and go on with its reply.
    Call(HomeserverCall, Pending),
    /// Give this result back.
    Done(Result<HttpResponse, String>),
    /// Stop.
    Halt(Halt),
}

/// The contents of a [`DirectAuth`].
pub struct DirectAuthView {
    pub kind: Seq<char>,
    pub session: Option<Seq<char>>,
    pub parameters: Seq<(String, String)>,
}

/// The contents of a [`Registration`].
pub struct RegistrationView {
    pub password: Option<Seq<char>>,
    pub username: Option<Seq<char>>,
    pub device_id: Option<Seq<char>>,
    pub initial_device_display_name: Option<Seq<char>>,
    pub auth: Option<DirectAuthView>,
    pub kind: Option<AccountKind>,
    pub inhibit_login: bool,
}

/// The contents of a [`CallBody`].
pub enum CallBodyView {
    Routed { route: RouteView, request: TypedRequest },
    Registration(RegistrationView),
}

/// The contents of a [`HomeserverCall`].
pub struct HomeserverCallView {
    pub body: CallBodyView,
    pub json_body: Option<Seq<char>>,
    pub user_id: Option<Seq<char>>,
    pub device_id: Option<Seq<char>>,
}

/// The contents of a [`Pending`].
pub enum PendingView {
    Answer,
    Registration { user_id: Option<Seq<char>>, device_id: Option<Seq<char>> },
    ChallengedRegistration,
}

/// The contents of a [`Halt`].
pub enum HaltView {
    Unrouted { segments: Seq<Seq<char>> },
    Undecodable,
    NoStage,
    OtherStage,
    NotChallenged,
    ChallengeFailed { debug: Seq<char> },
}

/// The contents of a [`Step`].
pub enum StepView {
    Call(HomeserverCallView, PendingView),
    Done(Result<HttpResponse, String>),
    Halt(HaltView),
}

impl View for DirectAuth {
    type V = DirectAuthView;

    open spec fn view(&self) -> DirectAuthView {
        DirectAuthView {
            kind: self.kind@,
            session: text::optional_text(self.session),
            parameters: self.parameters@,
        }
    }
}

impl View for Registration {
    type V = RegistrationView;

    open spec fn view(&self) -> RegistrationView {
        RegistrationView {
            password: text::optional_text(self.password),
            username: text::optional_text(self.username),
            device_id: text::optional_text(self.device_id),
            initial_device_display_name: text::optional_text(self.initial_device_display_name),
            auth: match self.auth {
                Some(auth) => Some(auth@),
                None => None,
            },
            kind: self.kind,
            inhibit_login: self.inhibit_login,
        }
    }
}

impl View for CallBody {
    type V = CallBodyView;

    open spec fn view(&self) -> CallBodyView {
        match *self {
            CallBody::Routed { route, request } => CallBodyView::Routed { route: route@, request },
            CallBody::Registration(registration) => CallBodyView::Registration(registration@),
        }
    }
}

impl View for HomeserverCall {
    type V = HomeserverCallView;

    open spec fn view(&self) -> HomeserverCallView {
        HomeserverCallView {
            body: self.body@,
            json_body: text::optional_text(self.json_body),
            user_id: text::optional_text(self.user_id),
            device_id: text::optional_text(self.device_id),
        }
    }
}

impl View for Pending {
    type V = PendingView;

    open spec fn view(&self) -> PendingView {
        match *self {
            Pending::Answer => PendingView::Answer,
            Pending::Registration { user_id, device_id } => PendingView::Registration {
                user_id: text::optional_text(user_id),
                device_id: text::optional_text(device_id),
            },
            Pending::ChallengedRegistration => PendingView::ChallengedRegistration,
        }
    }
}

impl View for Halt {
    type V = HaltView;

    open spec fn view(&self) -> HaltView {
        match *self {
            Halt::Unrouted { segments } => HaltView::Unrouted { segments: text::texts(segments@) },
            Halt::Undecodable => HaltView::Undecodable,
            Halt::NoStage => HaltView::NoStage,
            Halt::OtherStage => HaltView::OtherStage,
            Halt::NotChallenged => HaltView::NotChallenged,
            Halt::ChallengeFailed { debug } => HaltView::ChallengeFailed { debug: debug@ },
        }
    }
}

impl View for Step {
    type V = StepView;

    open spec fn view(&self) -> StepView {
        match *self {
            Step::Call(call, pending) => StepView::Call(call@, pending@),
            Step::Done(result) => StepView::Done(result),
            Step::Halt(halt) => StepView::Halt(halt@),
        }
    }
}

/// The one authentication stage that this node can go through.
pub open spec fn dummy_stage() -> Seq<char> {
    "m.login.dummy"@
}

/// The first stage of the first flow, where there is one.
pub open spec fn first_stage(flows: Seq<Vec<String>>) -> Option<Seq<char>> {
    if flows.len() > 0 && flows[0]@.len() > 0 {
        Some(flows[0]@[0]@)
    } else {
        None
    }
}

/// The authentication data for the dummy stage: no session and no parameters.
pub open spec fn dummy_auth() -> DirectAuthView {
    DirectAuthView { kind: dummy_stage(), session: None, parameters: Seq::empty() }
}

/// The registration that answers a challenge for the dummy stage: it names the device, and asks
/// for a user account that is logged in at once.
pub open spec fn dummy_registration(device_id: Option<Seq<char>>) -> RegistrationView {
    RegistrationView {
        password: None,
        username: None,
        device_id,
        initial_device_display_name: None,
        auth: Some(dummy_auth()),
        kind: Some(AccountKind::User),
        inhibit_login: false,
    }
}

/// The first step for a request: a request without an endpoint stops, and so does one that its
/// endpoint cannot decode; any other goes to the homeserver as the user and the device given.
pub open spec fn first_step(
    segments: Seq<Seq<char>>,
    found: Option<(RouteView, Option<TypedRequest>)>,
    json_body: Option<Seq<char>>,
    user_id: Option<Seq<char>>,
    device_id: Option<Seq<char>>,
) -> StepView {
    match found {
        None => StepView::Halt(HaltView::Unrouted { segments }),
        Some((route, None)) => StepView::Halt(HaltView::Undecodable),
        Some((route, Some(request))) => StepView::Call(
            HomeserverCallView {
                body: CallBodyView::Routed { route, request },
                json_body,
                user_id,
                device_id,
            },
            if route is Register {
                PendingView::Registration { user_id, device_id }
            } else {
                PendingView::Answer
            },
        ),
    }
}

/// The step that answers a challenge for the dummy stage. The JSON text beside the registration
/// holds its authentication data and its device.
pub open spec fn challenge_step(
    user_id: Option<Seq<char>>,
    device_id: Option<Seq<char>>,
) -> StepView {
    StepView::Call(
        HomeserverCallView {
            body: CallBodyView::Registration(dummy_registration(device_id)),
            json_body: Some(
                json::auth_object_text("auth"@, dummy_auth().kind, "device_id"@, device_id),
            ),
            user_id,
            device_id,
        },
        PendingView::ChallengedRegistration,
    )
}

/// The step that follows from a reply.
///
/// An answer is given back as it is, whatever the call was for. Otherwise a registration goes on
/// where it is challenged for the dummy stage, and stops in every other case; any other call
/// gives the reason back as the error.
pub open spec fn next_step(pending: PendingView, reply: Reply) -> StepView {
    match reply {
        Reply::Answered(result) => StepView::Done(result),
        Reply::Challenged { flows, reason, debug } => match pending {
            PendingView::Answer => StepView::Done(Err(reason)),
            PendingView::Registration { user_id, device_id } => match first_stage(flows@) {
                None => StepView::Halt(HaltView::NoStage),
                Some(stage) => if stage == dummy_stage() {
                    challenge_step(user_id, device_id)
                } else {
                    StepView::Halt(HaltView::OtherStage)
                },
            },
            PendingView::ChallengedRegistration => StepView::Halt(
                HaltView::ChallengeFailed { debug: debug@ },
            ),
        },
        Reply::Failed { reason, debug } => match pending {
            PendingView::Answer => StepView::Done(Err(reason)),
            PendingView::Registration { .. } => StepView::Halt(HaltView::NotChallenged),
            PendingView::ChallengedRegistration => StepView::Halt(
                HaltView::ChallengeFailed { debug: debug@ },
            ),
        },
    }
}

/// A copy of an optional text.
fn copy_text(s: &Option<String>) -> (copy: Option<String>)
    ensures
        text::optional_text(copy) == text::optional_text(*s),
{
    match s {
        Some(s) => Some(s.clone()),
        None => None,
    }
}

/// The first step for a request whose endpoint has been looked up and has decoded it.
pub fn begin(
    segments: Vec<String>,
    found: Option<(Route, Option<TypedRequest>)>,
    json_body: Option<String>,
    user_id: Option<String>,
    device_id: Option<String>,
) -> (step: Step)
    ensures
        step@ == first_step(
            text::texts(segments@),
            match found {
                Some((route, request)) => Some((route@, request)),
                None => None,
            },
            text::optional_text(json_body),
            text::optional_text(user_id),
            text::optional_text(device_id),
        ),
        found matches Some((route, Some(request))) ==> {
            &&& step is Call
            &&& step->Call_0.user_id == user_id
            &&& step->Call_0.device_id == device_id
            &&& step->Call_0.json_body == json_body
            &&& step->Call_0.body == (CallBody::Routed { route, request })
        },
{
    match found {
        None => Step::Halt(Halt::Unrouted { segments }),
        Some((_, None)) => Step::Halt(Halt::Undecodable),
        Some((route, Some(request))) => {
            let pending = match route {
                Route::Register => Pending::Registration {
                    user_id: copy_text(&user_id),
                    device_id: copy_text(&device_id),
                },
                _ => Pending::Answer,
            };
            Step::Call(
                HomeserverCall {
                    body: CallBody::Routed { route, request },
                    json_body,
                    user_id,
                    device_id,
                },
                pending,
            )
        },
    }
}

/// Takes a request up: looks up its endpoint, decodes it, and says what to do first.
pub fn process_request(
    ev: &HttpRequest,
    user_id: Option<String>,
    device_id: Option<String>,
) -> (step: Step)
    ensures
        forall|route: RouteView|
            #[trigger] route::leads_to(text::split_on(ev.target.written(), '/'), route)
                ==> step@ == first_step(
                text::split_on(ev.target.written(), '/'),
                Some((route, endpoint::decoded(route, ev.target.written(), ev.body@))),
                json::raw_json_text(ev.body@),
                text::optional_text(user_id),
                text::optional_text(device_id),
            ),
        (forall|route: RouteView|
            !#[trigger] route::leads_to(text::split_on(ev.target.written(), '/'), route))
            ==> step@ == first_step(
            text::split_on(ev.target.written(), '/'),
            None,
            json::raw_json_text(ev.body@),
            text::optional_text(user_id),
            text::optional_text(device_id),
        ),
        ev.target.written() == "/_matrix/client/r0/sync?"@ ==> step is Call,
        step matches Step::Call(call, _) ==> {
            &&& call.user_id == user_id
            &&& call.device_id == device_id
            &&& text::optional_text(call.json_body) == json::raw_json_text(ev.body@)
        },
{
    let target = ev.target.text();
    let segments = text::split(target.as_str(), '/');
    proof {
        route::law_paths_in_writing(""@, ""@, ""@);
        route::law_path_leads_back(RouteView::Sync);
    }
    let found = match route::find_route(&segments) {
        Some(route) => {
            let request = endpoint::decode(&route, target.as_str(), &ev.body);
            proof {
                assert forall|other: RouteView|
                    #[trigger] route::leads_to(text::texts(segments@), other) implies other
                    == route@ by {
                    route::law_one_route_per_path(text::texts(segments@), other, route@);
                }
            }
            Some((route, request))
        },
        None => None,
    };
    begin(segments, found, json::raw_json(&ev.body), user_id, device_id)
}

/// The call that answers a challenge for the dummy stage.
pub fn answer_challenge(user_id: Option<String>, device_id: Option<String>) -> (step: Step)
    ensures
        step@ == challenge_step(text::optional_text(user_id), text::optional_text(device_id)),
        step is Call,
        step->Call_0.user_id == user_id,
        step->Call_0.device_id == device_id,
        step->Call_0.body matches CallBody::Registration(registration) && text::optional_text(
            registration.device_id,
        ) == text::optional_text(device_id),
{
    let auth = DirectAuth {
        kind: "m.login.dummy".to_string(),
        session: None,
        parameters: Vec::new(),
    };
    assert(auth@.parameters =~= Seq::empty());
    proof {
        reveal_strlit("auth");
        reveal_strlit("device_id");
    }
    let json_body = json::auth_object("auth", &auth, "device_id", &device_id);
    let registration = Registration {
        password: None,
        username: None,
        device_id: copy_text(&device_id),
        initial_device_display_name: None,
        auth: Some(auth),
        kind: Some(AccountKind::User),
        inhibit_login: false,
    };
    Step::Call(
        HomeserverCall {
            body: CallBody::Registration(registration),
            json_body,
            user_id,
            device_id,
        },
        Pending::ChallengedRegistration,
    )
}

/// Goes on with the homeserver's reply.
pub fn resume(pending: Pending, reply: Reply) -> (step: Step)
    ensures
        step@ == next_step(pending@, reply),
{
    match reply {
        Reply::Answered(result) => Step::Done(result),
        Reply::Challenged { flows, reason, debug } => match pending {
            Pending::Answer => Step::Done(Err(reason)),
            Pending::Registration { user_id, device_id } => {
                if flows.len() == 0 || flows[0].len() == 0 {
                    return Step::Halt(Halt::NoStage);
                }
                if !text::same_text(flows[0][0].as_str(), "m.login.dummy") {
                    return Step::Halt(Halt::OtherStage);
                }
                answer_challenge(user_id, device_id)
            },
            Pending::ChallengedRegistration => Step::Halt(Halt::ChallengeFailed { debug }),
        },
        Reply::Failed { reason, debug } => match pending {
            Pending::Answer => Step::Done(Err(reason)),
            Pending::Registration { .. } => Step::Halt(Halt::NotChallenged),
            Pending::ChallengedRegistration => Step::Halt(Halt::ChallengeFailed { debug }),
        },
    }
}

/// Whatever a request was, and whatever the homeserver replies: what the homeserver answers is
/// what the sender of the request gets, unchanged.
pub proof fn law_answers_are_handed_on(pending: PendingView, result: Result<HttpResponse, String>)
    ensures
        next_step(pending, Reply::Answered(result)) == StepView::Done(result),
{
}

/// A request leads to two homeserver calls at most. There is a second one only for a registration
/// that is challenged for the dummy stage; it registers the same device, and is made as the same
/// user and device as the first.
pub proof fn law_two_calls_at_most(
    segments: Seq<Seq<char>>,
    route: RouteView,
    request: TypedRequest,
    json_body: Option<Seq<char>>,
    user_id: Option<Seq<char>>,
    device_id: Option<Seq<char>>,
    first_reply: Reply,
    second_reply: Reply,
)
    requires
        next_step(
            first_step(
                segments,
                Some((route, Some(request))),
                json_body,
                user_id,
                device_id,
            )->Call_1,
            first_reply,
        ) is Call,
    ensures
        ({
            let first = first_step(
                segments,
                Some((route, Some(request))),
                json_body,
                user_id,
                device_id,
            );
            let second = next_step(first->Call_1, first_reply);
            &&& route is Register
            &&& first_reply matches Reply::Challenged { flows, .. } && first_stage(flows@) == Some(
                dummy_stage(),
            ) && flows@.len() > 0 && flows@[0]@.len() > 0 && flows@[0]@[0]@ == "m.login.dummy"@
            &&& first->Call_0.user_id == user_id && first->Call_0.device_id == device_id
            &&& second->Call_0.user_id == user_id && second->Call_0.device_id == device_id
            &&& second->Call_0.body == CallBodyView::Registration(dummy_registration(device_id))
            &&& second->Call_0.body matches CallBodyView::Registration(registration)
                && registration.device_id == device_id
            &&& !(next_step(second->Call_1, second_reply) is Call)
        }),
{
}

/// Only registrations can stop processing once the homeserver has been called: for any other
/// endpoint every reply is a result.
pub proof fn law_only_registration_stops(
    segments: Seq<Seq<char>>,
    route: RouteView,
    request: TypedRequest,
    json_body: Option<Seq<char>>,
    user_id: Option<Seq<char>>,
    device_id: Option<Seq<char>>,
    reply: Reply,
)
    requires
        !(route is Register),
    ensures
        next_step(
            first_step(
                segments,
                Some((route, Some(request))),
                json_body,
                user_id,
                device_id,
            )->Call_1,
            reply,
        ) == StepView::Done(
            match reply {
                Reply::Answered(result) => result,
                Reply::Challenged { reason, .. } => Err(reason),
                Reply::Failed { reason, .. } => Err(reason),
            },
        ),
{
}

/// The first homeserver call for a request, whichever endpoint it goes to: it is made as exactly
/// the user and the device given, carries the JSON text of the request's body and the decoded
/// request with its endpoint, and only a registration remembers whom it was made for.
pub proof fn law_first_call_is_made_as_the_node(
    segments: Seq<Seq<char>>,
    route: RouteView,
    request: TypedRequest,
    json_body: Option<Seq<char>>,
    user_id: Option<Seq<char>>,
    device_id: Option<Seq<char>>,
)
    ensures
        ({
            let step = first_step(
                segments,
                Some((route, Some(request))),
                json_body,
                user_id,
                device_id,
            );
            &&& step is Call
            &&& step->Call_0.user_id == user_id
            &&& step->Call_0.device_id == device_id
            &&& step->Call_0.json_body == json_body
            &&& step->Call_0.body matches CallBodyView::Routed { route: to, request: carried }
                && to == route && carried == request
            &&& match route {
                RouteView::Register => step->Call_1 == (PendingView::Registration {
                    user_id,
                    device_id,
                }),
                _ => step->Call_1 is Answer,
            }
        }),
{
}

/// Without an endpoint, processing stops and names the segments as they were; with one that does
/// not decode the request, it stops as well. No call is made in either case.
pub proof fn law_no_call_without_a_request(
    segments: Seq<Seq<char>>,
    route: RouteView,
    json_body: Option<Seq<char>>,
    user_id: Option<Seq<char>>,
    device_id: Option<Seq<char>>,
)
    ensures
        first_step(segments, None, json_body, user_id, device_id) == StepView::Halt(
            HaltView::Unrouted { segments },
        ),
        first_step(segments, Some((route, None)), json_body, user_id, device_id) == StepView::Halt(
            HaltView::Undecodable,
        ),
{
}

/// A registration that is challenged by flows whose first stage is the dummy one is answered by a
/// registration for the pending device, in full: it has no username, password or display name,
/// asks for a user account that is logged in, and authenticates by the dummy stage without session
/// and parameters. It is made as the pending user and device, with a JSON text that names the same
/// stage and device.
pub proof fn law_challenge_is_answered_for_the_device(
    user_id: Option<Seq<char>>,
    device_id: Option<Seq<char>>,
    flows: Vec<Vec<String>>,
    reason: String,
    debug: String,
)
    requires
        flows@.len() > 0,
        flows@[0]@.len() > 0,
        flows@[0]@[0]@ == "m.login.dummy"@,
    ensures
        ({
            let step = next_step(
                PendingView::Registration { user_id, device_id },
                Reply::Challenged { flows, reason, debug },
            );
            &&& step is Call
            &&& step->Call_1 is ChallengedRegistration
            &&& step->Call_0.user_id == user_id
            &&& step->Call_0.device_id == device_id
            &&& step->Call_0.json_body == Some(
                match device_id {
                    Some(device_id) =>
                        "{\"auth\":{\"type\":\"m.login.dummy\"},\"device_id\":\""@
                            + json::escaped(device_id) + "\"}"@,
                    None => "{\"auth\":{\"type\":\"m.login.dummy\"},\"device_id\":null}"@,
                },
            )
            &&& step->Call_0.body matches CallBodyView::Registration(registration) && {
                &&& registration.device_id == device_id
                &&& registration.password is None
                &&& registration.username is None
                &&& registration.initial_device_display_name is None
                &&& registration.kind == Some(AccountKind::User)
                &&& registration.inhibit_login == false
                &&& registration.auth is Some
                &&& registration.auth->0.kind == "m.login.dummy"@
                &&& registration.auth->0.session is None
                &&& registration.auth->0.parameters.len() == 0
            }
        }),
{
    let kind = "m.login.dummy"@;
    reveal_strlit("m.login.dummy");
    json::law_plain_text_is_not_escaped(kind);
    json::law_auth_object_in_writing(
        kind,
        match device_id {
            Some(device_id) => device_id,
            None => kind,
        },
    );
    reveal_strlit("{\"auth\":{\"type\":\"");
    reveal_strlit("\"},\"device_id\":\"");
    reveal_strlit("\"},\"device_id\":null}");
    reveal_strlit("{\"auth\":{\"type\":\"m.login.dummy\"},\"device_id\":\"");
    reveal_strlit("{\"auth\":{\"type\":\"m.login.dummy\"},\"device_id\":null}");
    assert("{\"auth\":{\"type\":\""@ + kind + "\"},\"device_id\":\""@
        =~= "{\"auth\":{\"type\":\"m.login.dummy\"},\"device_id\":\""@);
    assert("{\"auth\":{\"type\":\""@ + kind + "\"},\"device_id\":null}"@
        =~= "{\"auth\":{\"type\":\"m.login.dummy\"},\"device_id\":null}"@);
}

/// Every other reply to a registration but an answer stops it, and says why: there is no first
/// stage, or it is another one, or the homeserver did not ask for any, or it refused the
/// registration that met its challenge.
pub proof fn law_registration_stops_for_cause(
    user_id: Option<Seq<char>>,
    device_id: Option<Seq<char>>,
    flows: Vec<Vec<String>>,
    reason: String,
    debug: String,
)
    ensures
        ({
            let pending = PendingView::Registration { user_id, device_id };
            let challenged = Reply::Challenged { flows, reason, debug };
            let failed = Reply::Failed { reason, debug };
            let refused = StepView::Halt(HaltView::ChallengeFailed { debug: debug@ });
            &&& flows@.len() == 0 || flows@[0]@.len() == 0 ==> next_step(pending, challenged)
                == StepView::Halt(HaltView::NoStage)
            &&& flows@.len() > 0 && flows@[0]@.len() > 0 && flows@[0]@[0]@ != "m.login.dummy"@
                ==> next_step(pending, challenged) == StepView::Halt(HaltView::OtherStage)
            &&& next_step(pending, failed) == StepView::Halt(HaltView::NotChallenged)
            &&& next_step(PendingView::ChallengedRegistration, challenged) == refused
            &&& next_step(PendingView::ChallengedRegistration, failed) == refused
        }),
{
}

/// A refusal of any other call is the error that its sender gets, word for word.
pub proof fn law_refusals_are_handed_on(flows: Vec<Vec<String>>, reason: String, debug: String)
    ensures
        next_step(PendingView::Answer, Reply::Challenged { flows, reason, debug })
            == StepView::Done(Err(reason)),
        next_step(PendingView::Answer, Reply::Failed { reason, debug }) == StepView::Done(
            Err(reason),
        ),
{
}

/// The contents of a homeserver call are those of its fields.
pub proof fn law_contents_of_call(call: HomeserverCall)
    ensures
        call@.user_id == match call.user_id {
            Some(user_id) => Some(user_id@),
            None => None,
        },
        call@.device_id == match call.device_id {
            Some(device_id) => Some(device_id@),
            None => None,
        },
        call@.json_body == match call.json_body {
            Some(json_body) => Some(json_body@),
            None => None,
        },
        match call.body {
            CallBody::Routed { route, request } => call@.body == (CallBodyView::Routed {
                route: route@,
                request,
            }),
            CallBody::Registration(registration) => call@.body == CallBodyView::Registration(
                registration@,
            ),
        },
{
}

/// The contents of a registration are those of its fields.
pub proof fn law_contents_of_registration(registration: Registration)
    ensures
        registration@.password is Some <==> registration.password is Some,
        registration.password is Some ==> registration@.password->0 == registration.password->0@,
        registration@.username is Some <==> registration.username is Some,
        registration.username is Some ==> registration@.username->0 == registration.username->0@,
        registration@.device_id is Some <==> registration.device_id is Some,
        registration.device_id is Some ==> registration@.device_id->0
            == registration.device_id->0@,
        registration@.initial_device_display_name is Some
            <==> registration.initial_device_display_name is Some,
        registration.initial_device_display_name is Some
            ==> registration@.initial_device_display_name->0
            == registration.initial_device_display_name->0@,
        registration@.auth is Some <==> registration.auth is Some,
        registration.auth is Some ==> {
            let (shown, auth) = (registration@.auth->0, registration.auth->0);
            &&& shown.kind == auth.kind@
            &&& shown.session is Some <==> auth.session is Some
            &&& auth.session is Some ==> shown.session->0 == auth.session->0@
            &&& shown.parameters == auth.parameters@
        },
        registration@.kind == registration.kind,
        registration@.inhibit_login == registration.inhibit_login,
{
}

/// The contents of a step are those of what it holds.
pub proof fn law_contents_of_step(step: Step)
    ensures
        match step {
            Step::Call(call, pending) => {
                &&& step@ is Call
                &&& step@->Call_0 == call@
                &&& match pending {
                    Pending::Answer => step@->Call_1 is Answer,
                    Pending::Registration { user_id, device_id } => step@->Call_1
                        == (PendingView::Registration {
                        user_id: match user_id {
                            Some(user_id) => Some(user_id@),
                            None => None,
                        },
                        device_id: match device_id {
                            Some(device_id) => Some(device_id@),
                            None => None,
                        },
                    }),
                    Pending::ChallengedRegistration => step@->Call_1 is ChallengedRegistration,
                }
            },
            Step::Done(result) => step@ == StepView::Done(result),
            Step::Halt(halt) => {
                &&& step@ == StepView::Halt(halt@)
                &&& match halt {
                    Halt::Unrouted { segments } => {
                        &&& halt@ is Unrouted
                        &&& halt@->segments.len() == segments@.len()
                        &&& forall|i: int|
                            0 <= i < segments@.len() ==> #[trigger] halt@->segments[i]
                                == segments@[i]@
                    },
                    Halt::Undecodable => halt@ is Undecodable,
                    Halt::NoStage => halt@ is NoStage,
                    Halt::OtherStage => halt@ is OtherStage,
                    Halt::NotChallenged => halt@ is NotChallenged,
                    Halt::ChallengeFailed { debug } => halt@ == (HaltView::ChallengeFailed {
                        debug: debug@,
                    }),
                }
            },
        },
{
}


} // verus!
