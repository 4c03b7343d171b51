//! Starting a node: the steps in order, and what ends them early.

use crate::text;
use libp2p::Multiaddr;
use vstd::prelude::*;
use vstd::string::*;

verus! {

/// A network address, as `libp2p` holds it.
#[verifier::external_type_specification]
#[verifier::external_body]
pub struct ExMultiaddr(libp2p::Multiaddr);

/// Why a text is no network address: how the error is shown, and how it reads to a developer.
#[derive(Debug, PartialEq, Eq)]
pub struct AddressError {
    pub shown: String,
    pub debug: String,
}

/// What `libp2p` reads from the text of a network address: the address, or the error that it gives
/// as it is shown and as `{:?}` writes it.
pub uninterp spec fn parsed_address(text: Seq<char>) -> Result<Multiaddr, (Seq<char>, Seq<char>)>;

/// The contents of what parsing an address gave.
pub open spec fn parse_view(parsed: Result<Multiaddr, AddressError>) -> Result<
    Multiaddr,
    (Seq<char>, Seq<char>),
> {
    match parsed {
        Ok(address) => Ok(address),
        Err(error) => Err((error.shown@, error.debug@)),
    }
}

/// `str::parse` into a `libp2p::Multiaddr`, and the two texts of the error: a function of the text,
/// which the address of every IPv4 interface with a free TCP port meets.
#[verifier::external_body]
fn parse_address(text: &str) -> (parsed: Result<Multiaddr, AddressError>)
    ensures
        parse_view(parsed) == parsed_address(text@),
        text@ == "/ip4/0.0.0.0/tcp/0"@ ==> parsed is Ok,
{
    let parsed = text.parse::<Multiaddr>();
    parsed.map_err(|e| AddressError { shown: e.to_string(), debug: format!("{:?}", e) })
}

/// How far a node has come.
#[derive(Clone, Copy, Debug, PartialEq, Eq, Structural)]
pub enum StartPhase {
    Transport,
    Discovery,
    Subscribing,
    Dialing,
    Listening,
    Database,
    Spawning,
    Finished,
}

/// A node that is being started.
#[derive(Debug, PartialEq, Eq)]
pub struct Startup {
    pub phase: StartPhase,
    /// The address of a node to reach out to.
    pub dial: Option<String>,
    /// Where the homeserver keeps its data.
    pub database_path: String,
}

/// What to do next to start a node.
#[derive(Debug, PartialEq, Eq)]
pub enum StartAction {
    /// Set up an encrypted transport.
    BuildTransport,
    /// Look for other nodes on the local network.
    OpenDiscovery,
    /// Subscribe to this topic.
    Subscribe(String),
    /// Reach out to this node, which was given as `text`.
    Dial { address: Multiaddr, text: String },
    /// Listen on this address.
    Listen(Multiaddr),
    /// Open the homeserver's database at this path.
    OpenDatabase(String),
    /// Start the client loop and the peer loop.
    SpawnTasks,
    /// Give this result back.
    Finish(Result<(), String>),
    /// Stop, for this reason.
    Stop(String),
}

/// The contents of a [`Startup`].
pub struct StartupView {
    pub phase: StartPhase,
    pub dial: Option<Seq<char>>,
    pub database_path: Seq<char>,
}

/// The contents of a [`StartAction`].
pub enum StartActionView {
    BuildTransport,
    OpenDiscovery,
    Subscribe(Seq<char>),
    Dial { address: Multiaddr, text: Seq<char> },
    Listen(Multiaddr),
    OpenDatabase(Seq<char>),
    SpawnTasks,
    Finish(Result<(), Seq<char>>),
    Stop(Seq<char>),
}

impl View for Startup {
    type V = StartupView;

    open spec fn view(&self) -> StartupView {
        StartupView {
            phase: self.phase,
            dial: text::optional_text(self.dial),
            database_path: self.database_path@,
        }
    }
}

impl View for StartAction {
    type V = StartActionView;

    open spec fn view(&self) -> StartActionView {
        match *self {
            StartAction::BuildTransport => StartActionView::BuildTransport,
            StartAction::OpenDiscovery => StartActionView::OpenDiscovery,
            StartAction::Subscribe(topic) => StartActionView::Subscribe(topic@),
            StartAction::Dial { address, text } => StartActionView::Dial { address, text: text@ },
            StartAction::Listen(address) => StartActionView::Listen(address),
            StartAction::OpenDatabase(path) => StartActionView::OpenDatabase(path@),
            StartAction::SpawnTasks => StartActionView::SpawnTasks,
            StartAction::Finish(Ok(done)) => StartActionView::Finish(Ok(done)),
            StartAction::Finish(Err(reason)) => StartActionView::Finish(Err(reason@)),
            StartAction::Stop(reason) => StartActionView::Stop(reason@),
        }
    }
}

impl StartupView {
    /// The same node at another point.
    pub open spec fn at(self, phase: StartPhase) -> StartupView {
        StartupView { phase, ..self }
    }
}

/// The topic that nodes share their messages under.
pub open spec fn chat_topic() -> Seq<char> {
    "chat"@
}

/// Every interface, and whatever port the system assigns.
pub open spec fn listen_address() -> Seq<char> {
    "/ip4/0.0.0.0/tcp/0"@
}

/// The node before its first step. The first argument behind the program's name is the address of
/// a node to reach out to; the database lies under the working directory.
pub open spec fn new_startup(args: Seq<Seq<char>>, db_path: Seq<char>) -> StartupView {
    StartupView {
        phase: StartPhase::Transport,
        dial: if args.len() > 1 {
            Some(args[1])
        } else {
            None
        },
        database_path: "./"@ + db_path,
    }
}

/// Reaching out to the node given as `text`, once that has been parsed.
pub open spec fn dial_step(
    startup: StartupView,
    text: Seq<char>,
    parsed: Result<Multiaddr, (Seq<char>, Seq<char>)>,
) -> (StartupView, StartActionView) {
    match parsed {
        Ok(address) => (startup.at(StartPhase::Dialing), StartActionView::Dial { address, text }),
        Err((_, debug)) => (
            startup.at(StartPhase::Finished),
            StartActionView::Stop("called `Result::unwrap()` on an `Err` value: "@ + debug),
        ),
    }
}

/// Listening, once the address to listen on has been parsed.
pub open spec fn listen_step(
    startup: StartupView,
    parsed: Result<Multiaddr, (Seq<char>, Seq<char>)>,
) -> (StartupView, StartActionView) {
    match parsed {
        Ok(address) => (startup.at(StartPhase::Listening), StartActionView::Listen(address)),
        Err((shown, _)) => (
            startup.at(StartPhase::Finished),
            StartActionView::Finish(Err(shown)),
        ),
    }
}

/// What follows once the last action has ended: a failure ends the start with its reason, and
/// after a success comes the next action.
pub open spec fn start_turn_of(startup: StartupView, outcome: Result<(), String>) -> (
    StartupView,
    StartActionView,
) {
    match outcome {
        Err(reason) => (
            startup.at(StartPhase::Finished),
            StartActionView::Finish(Err(reason@)),
        ),
        Ok(_) => match startup.phase {
            StartPhase::Transport => (
                startup.at(StartPhase::Discovery),
                StartActionView::OpenDiscovery,
            ),
            StartPhase::Discovery => (
                startup.at(StartPhase::Subscribing),
                StartActionView::Subscribe(chat_topic()),
            ),
            StartPhase::Subscribing => match startup.dial {
                Some(text) => dial_step(startup, text, parsed_address(text)),
                None => listen_step(startup, parsed_address(listen_address())),
            },
            StartPhase::Dialing => listen_step(startup, parsed_address(listen_address())),
            StartPhase::Listening => (
                startup.at(StartPhase::Database),
                StartActionView::OpenDatabase(startup.database_path),
            ),
            StartPhase::Database => (
                startup.at(StartPhase::Spawning),
                StartActionView::SpawnTasks,
            ),
            StartPhase::Spawning => (
                startup.at(StartPhase::Finished),
                StartActionView::Finish(Ok(())),
            ),
            StartPhase::Finished => (startup, StartActionView::Finish(Ok(()))),
        },
    }
}

/// Begins to start a node, with the program's arguments and the name of its database.
pub fn start_p2p_server(args: &Vec<String>, db_path: &str) -> (start: (Startup, StartAction))
    ensures
        start.0@ == new_startup(text::texts(args@), db_path@),
        start.0.database_path@ == "./"@ + db_path@,
        args@.len() >= 2 ==> start.0.dial is Some && start.0.dial->0@ == args@[1]@,
        args@.len() < 2 ==> start.0.dial is None,
        start.1 is BuildTransport,
{
    let dial = if args.len() > 1 {
        Some(args[1].clone())
    } else {
        None
    };
    let database_path = "./".to_string().concat(db_path);
    let startup = Startup { phase: StartPhase::Transport, dial, database_path };
    (startup, StartAction::BuildTransport)
}

/// Reaches out to the node given as `text`, once that has been parsed.
pub fn dial(startup: Startup, text: String, parsed: Result<Multiaddr, AddressError>) -> (turn: (
    Startup,
    StartAction,
))
    ensures
        (turn.0@, turn.1@) == dial_step(startup@, text@, parse_view(parsed)),
{
    match parsed {
        Ok(address) => (
            Startup { phase: StartPhase::Dialing, ..startup },
            StartAction::Dial { address, text },
        ),
        Err(error) => {
            let reason = "called `Result::unwrap()` on an `Err` value: ".to_string().concat(
                error.debug.as_str(),
            );
            (Startup { phase: StartPhase::Finished, ..startup }, StartAction::Stop(reason))
        },
    }
}

/// Listens, once the address to listen on has been parsed.
pub fn listen(startup: Startup, parsed: Result<Multiaddr, AddressError>) -> (turn: (
    Startup,
    StartAction,
))
    ensures
        (turn.0@, turn.1@) == listen_step(startup@, parse_view(parsed)),
{
    match parsed {
        Ok(address) => (
            Startup { phase: StartPhase::Listening, ..startup },
            StartAction::Listen(address),
        ),
        Err(error) => (
            Startup { phase: StartPhase::Finished, ..startup },
            StartAction::Finish(Err(error.shown)),
        ),
    }
}

/// Goes on once the last action has ended.
pub fn start_turn(startup: Startup, outcome: Result<(), String>) -> (turn: (Startup, StartAction))
    requires
        startup.phase != StartPhase::Finished,
    ensures
        (turn.0@, turn.1@) == start_turn_of(startup@, outcome),
        outcome is Ok && (startup.phase == StartPhase::Dialing || startup.phase
            == StartPhase::Subscribing && startup.dial is None) ==> turn.1 is Listen,
{
    if let Err(reason) = outcome {
        return (
            Startup { phase: StartPhase::Finished, ..startup },
            StartAction::Finish(Err(reason)),
        );
    }
    match startup.phase {
        StartPhase::Transport => (
            Startup { phase: StartPhase::Discovery, ..startup },
            StartAction::OpenDiscovery,
        ),
        StartPhase::Discovery => (
            Startup { phase: StartPhase::Subscribing, ..startup },
            StartAction::Subscribe("chat".to_string()),
        ),
        StartPhase::Subscribing => {
            let given = match &startup.dial {
                Some(text) => Some(text.clone()),
                None => None,
            };
            match given {
                Some(text) => {
                    let parsed = parse_address(text.as_str());
                    dial(startup, text, parsed)
                },
                None => listen(startup, parse_address("/ip4/0.0.0.0/tcp/0")),
            }
        },
        StartPhase::Dialing => listen(startup, parse_address("/ip4/0.0.0.0/tcp/0")),
        StartPhase::Listening => {
            let path = startup.database_path.clone();
            (Startup { phase: StartPhase::Database, ..startup }, StartAction::OpenDatabase(path))
        },
        StartPhase::Database => (
            Startup { phase: StartPhase::Spawning, ..startup },
            StartAction::SpawnTasks,
        ),
        _ => (Startup { phase: StartPhase::Finished, ..startup }, StartAction::Finish(Ok(()))),
    }
}

/// What is done to start a node over a run of outcomes, and how far it has come at the end.
pub open spec fn start_run(startup: StartupView, outcomes: Seq<Result<(), String>>) -> (
    StartupView,
    Seq<StartActionView>,
)
    decreases outcomes.len(),
{
    if outcomes.len() == 0 {
        (startup, Seq::empty())
    } else {
        let (before, actions) = start_run(startup, outcomes.drop_last());
        let (after, action) = start_turn_of(before, outcomes.last());
        (after, actions.push(action))
    }
}

/// Whether the start is still under way at each outcome of a run.
pub open spec fn under_way(startup: StartupView, outcomes: Seq<Result<(), String>>) -> bool
    decreases outcomes.len(),
{
    outcomes.len() == 0 || {
        &&& under_way(startup, outcomes.drop_last())
        &&& start_run(startup, outcomes.drop_last()).0.phase != StartPhase::Finished
    }
}

/// Everything that is done after the transport is built, where nothing fails.
pub open spec fn start_plan(startup: StartupView) -> Seq<StartActionView> {
    let first = seq![
        StartActionView::OpenDiscovery,
        StartActionView::Subscribe(chat_topic()),
    ];
    let dialed = match startup.dial {
        Some(text) => first.push(
            StartActionView::Dial { address: parsed_address(text)->Ok_0, text },
        ),
        None => first,
    };
    dialed.push(StartActionView::Listen(parsed_address(listen_address())->Ok_0)).push(
        StartActionView::OpenDatabase(startup.database_path),
    ).push(StartActionView::SpawnTasks).push(StartActionView::Finish(Ok(())))
}

/// Where nothing fails and the addresses are addresses, a node is started by the whole plan, in
/// order: it reaches out to another node only if one was given, and its loops start last.
pub proof fn law_start_follows_plan(startup: StartupView, outcomes: Seq<Result<(), String>>)
    requires
        startup.phase == StartPhase::Transport,
        parsed_address(listen_address()) is Ok,
        startup.dial is Some ==> parsed_address(startup.dial->0) is Ok,
        outcomes.len() == start_plan(startup).len(),
        forall|i: int| 0 <= i < outcomes.len() ==> (#[trigger] outcomes[i]) is Ok,
    ensures
        under_way(startup, outcomes),
        start_run(startup, outcomes).0.phase == StartPhase::Finished,
        start_run(startup, outcomes).1 == start_plan(startup),
{
    let plan = start_plan(startup);
    lemma_start_prefix(startup, outcomes, outcomes.len() as int);
    assert(outcomes.take(outcomes.len() as int) =~= outcomes);
    assert(plan.take(plan.len() as int) =~= plan);
}

/// The phase that the plan has reached after `n` of its actions.
spec fn phase_after(dials: bool, n: int) -> StartPhase {
    if n == 0 {
        StartPhase::Transport
    } else if n == 1 {
        StartPhase::Discovery
    } else if n == 2 {
        StartPhase::Subscribing
    } else if n == 3 {
        if dials {
            StartPhase::Dialing
        } else {
            StartPhase::Listening
        }
    } else if n == 4 {
        if dials {
            StartPhase::Listening
        } else {
            StartPhase::Database
        }
    } else if n == 5 {
        if dials {
            StartPhase::Database
        } else {
            StartPhase::Spawning
        }
    } else if n == 6 && dials {
        StartPhase::Spawning
    } else {
        StartPhase::Finished
    }
}

proof fn lemma_start_prefix(startup: StartupView, outcomes: Seq<Result<(), String>>, n: int)
    requires
        startup.phase == StartPhase::Transport,
        parsed_address(listen_address()) is Ok,
        startup.dial is Some ==> parsed_address(startup.dial->0) is Ok,
        outcomes.len() == start_plan(startup).len(),
        forall|i: int| 0 <= i < outcomes.len() ==> (#[trigger] outcomes[i]) is Ok,
        0 <= n <= outcomes.len(),
    ensures
        under_way(startup, outcomes.take(n)),
        start_run(startup, outcomes.take(n)).0 == startup.at(
            phase_after(startup.dial is Some, n),
        ),
        start_run(startup, outcomes.take(n)).1 == start_plan(startup).take(n),
    decreases n,
{
    let plan = start_plan(startup);
    if n == 0 {
        assert(plan.take(0) =~= Seq::empty());
    } else {
        lemma_start_prefix(startup, outcomes, n - 1);
        assert(outcomes.take(n).drop_last() =~= outcomes.take(n - 1));
        assert(outcomes.take(n).last() == outcomes[n - 1]);
        assert(plan.take(n) =~= plan.take(n - 1).push(plan[n - 1]));
    }
}

/// As long as a start is not finished, no step has failed.
proof fn lemma_no_failure_so_far(startup: StartupView, outcomes: Seq<Result<(), String>>)
    requires
        under_way(startup, outcomes),
        start_run(startup, outcomes).0.phase != StartPhase::Finished,
    ensures
        forall|i: int| 0 <= i < outcomes.len() ==> (#[trigger] outcomes[i]) is Ok,
    decreases outcomes.len(),
{
    if outcomes.len() > 0 {
        let front = outcomes.drop_last();
        lemma_no_failure_so_far(startup, front);
        assert forall|i: int| 0 <= i < outcomes.len() implies (#[trigger] outcomes[i]) is Ok by {
            if i < front.len() {
                assert(front[i] is Ok);
            } else {
                assert(outcomes[i] == outcomes.last());
            }
        }
    }
}

/// There is one action for each outcome.
proof fn lemma_start_run_len(startup: StartupView, outcomes: Seq<Result<(), String>>)
    ensures
        start_run(startup, outcomes).1.len() == outcomes.len(),
    decreases outcomes.len(),
{
    if outcomes.len() > 0 {
        lemma_start_run_len(startup, outcomes.drop_last());
    }
}

/// The loops of a node are started only where every step before has succeeded.
pub proof fn law_loops_start_after_success(
    startup: StartupView,
    outcomes: Seq<Result<(), String>>,
    i: int,
)
    requires
        under_way(startup, outcomes),
        0 <= i < outcomes.len(),
        start_run(startup, outcomes).1[i] is SpawnTasks,
    ensures
        forall|j: int| 0 <= j <= i ==> (#[trigger] outcomes[j]) is Ok,
    decreases outcomes.len(),
{
    let front = outcomes.drop_last();
    lemma_start_run_len(startup, front);
    if i < front.len() {
        law_loops_start_after_success(startup, front, i);
        assert forall|j: int| 0 <= j <= i implies (#[trigger] outcomes[j]) is Ok by {
            assert(front[j] is Ok);
        }
    } else {
        lemma_no_failure_so_far(startup, outcomes);
    }
}

/// The first step that fails ends the start, and its reason is the result.
pub proof fn law_first_failure_is_the_result(
    startup: StartupView,
    outcomes: Seq<Result<(), String>>,
    i: int,
)
    requires
        under_way(startup, outcomes),
        0 <= i < outcomes.len(),
        outcomes[i] is Err,
    ensures
        i == outcomes.len() - 1,
        start_run(startup, outcomes).0.phase == StartPhase::Finished,
        start_run(startup, outcomes).1.last() == StartActionView::Finish(
            Err(outcomes[i]->Err_0@),
        ),
{
    if i < outcomes.len() - 1 {
        let front = outcomes.drop_last();
        lemma_no_failure_so_far(startup, front);
        assert(front[i] == outcomes[i]);
    }
}

/// A start keeps what it was begun with: the database lies at `./` with the whole name behind it,
/// and the node to reach out to is the second of the program's arguments, where there is one.
pub proof fn law_start_keeps_its_input(args: Seq<Seq<char>>, db_path: Seq<char>)
    ensures
        new_startup(args, db_path).database_path == "./"@ + db_path,
        args.len() >= 2 ==> new_startup(args, db_path).dial == Some(args[1]),
        args.len() < 2 ==> new_startup(args, db_path).dial is None,
        new_startup(args, db_path).phase == StartPhase::Transport,
{
}

/// Starts with different database names open different databases.
pub proof fn law_names_do_not_share_a_database(
    args: Seq<Seq<char>>,
    first: Seq<char>,
    second: Seq<char>,
)
    requires
        first != second,
    ensures
        ({
            let one = StartupView { phase: StartPhase::Listening, ..new_startup(args, first) };
            let two = StartupView { phase: StartPhase::Listening, ..new_startup(args, second) };
            let (opened, other) = (start_turn_of(one, Ok(())).1, start_turn_of(two, Ok(())).1);
            &&& opened is OpenDatabase
            &&& other is OpenDatabase
            &&& opened->OpenDatabase_0 != other->OpenDatabase_0
        }),
{
    reveal_strlit("./");
    let (one, two) = ("./"@ + first, "./"@ + second);
    assert(one.skip(2) =~= first);
    assert(two.skip(2) =~= second);
}

/// A start in which nothing fails, in full: after the transport come discovery, the topic `chat`,
/// the node given as the second argument, if any, listening on every interface, the database under
/// the whole of its name, and the two loops.
pub proof fn law_start_in_full(
    args: Seq<Seq<char>>,
    db_path: Seq<char>,
    outcomes: Seq<Result<(), String>>,
)
    requires
        parsed_address("/ip4/0.0.0.0/tcp/0"@) is Ok,
        args.len() >= 2 ==> parsed_address(args[1]) is Ok,
        outcomes.len() == if args.len() >= 2 {
            7nat
        } else {
            6
        },
        forall|i: int| 0 <= i < outcomes.len() ==> (#[trigger] outcomes[i]) is Ok,
    ensures
        ({
            let actions = start_run(new_startup(args, db_path), outcomes).1;
            let skipped: int = if args.len() >= 2 {
                1
            } else {
                0
            };
            &&& actions.len() == outcomes.len()
            &&& actions[0] is OpenDiscovery
            &&& actions[1] == StartActionView::Subscribe("chat"@)
            &&& args.len() >= 2 ==> actions[2] == (StartActionView::Dial {
                address: parsed_address(args[1])->Ok_0,
                text: args[1],
            })
            &&& actions[2 + skipped] == StartActionView::Listen(
                parsed_address("/ip4/0.0.0.0/tcp/0"@)->Ok_0,
            )
            &&& actions[3 + skipped] == StartActionView::OpenDatabase("./"@ + db_path)
            &&& actions[4 + skipped] is SpawnTasks
            &&& actions[5 + skipped] == StartActionView::Finish(Ok(()))
        }),
{
    let startup = new_startup(args, db_path);
    assert(start_plan(startup).len() == outcomes.len());
    law_start_follows_plan(startup, outcomes);
}

/// What ends a start early, whatever it was begun with: a step that fails ends it with its reason,
/// a node to reach out to that is no address stops it, and an address to listen on that is none
/// ends it with the error as it is shown.
pub proof fn law_start_ends_early_for_cause(
    startup: StartupView,
    reason: String,
    text: Seq<char>,
    shown: Seq<char>,
    debug: Seq<char>,
)
    ensures
        start_turn_of(startup, Err(reason)) == (
            StartupView { phase: StartPhase::Finished, ..startup },
            StartActionView::Finish(Err(reason@)),
        ),
        dial_step(startup, text, Err((shown, debug))) == (
            StartupView { phase: StartPhase::Finished, ..startup },
            StartActionView::Stop("called `Result::unwrap()` on an `Err` value: "@ + debug),
        ),
        listen_step(startup, Err((shown, debug))) == (
            StartupView { phase: StartPhase::Finished, ..startup },
            StartActionView::Finish(Err(shown)),
        ),
{
}

/// What an address is used for, once it has been parsed: to reach out to exactly that node, or to
/// listen on exactly that address. Nothing else of the start changes.
pub proof fn law_parsed_addresses_are_used(startup: StartupView, text: Seq<char>, address: Multiaddr)
    ensures
        dial_step(startup, text, Ok(address)) == (
            StartupView { phase: StartPhase::Dialing, ..startup },
            StartActionView::Dial { address, text },
        ),
        listen_step(startup, Ok(address)) == (
            StartupView { phase: StartPhase::Listening, ..startup },
            StartActionView::Listen(address),
        ),
{
}

/// The contents of a start, of what it does and of a parsed address are those of what they hold.
pub proof fn law_contents_of_start(
    startup: Startup,
    action: StartAction,
    parsed: Result<Multiaddr, AddressError>,
)
    ensures
        startup@.phase == startup.phase,
        startup@.database_path == startup.database_path@,
        startup@.dial is Some <==> startup.dial is Some,
        startup.dial is Some ==> startup@.dial->0 == startup.dial->0@,
        match action {
            StartAction::BuildTransport => action@ is BuildTransport,
            StartAction::OpenDiscovery => action@ is OpenDiscovery,
            StartAction::Subscribe(topic) => action@ == StartActionView::Subscribe(topic@),
            StartAction::Dial { address, text } => action@ == (StartActionView::Dial {
                address,
                text: text@,
            }),
            StartAction::Listen(address) => action@ == StartActionView::Listen(address),
            StartAction::OpenDatabase(path) => action@ == StartActionView::OpenDatabase(path@),
            StartAction::SpawnTasks => action@ is SpawnTasks,
            StartAction::Finish(Ok(_)) => action@ matches StartActionView::Finish(Ok(_)),
            StartAction::Finish(Err(reason)) => action@ == StartActionView::Finish(Err(reason@)),
            StartAction::Stop(reason) => action@ == StartActionView::Stop(reason@),
        },
        match parsed {
            Ok(address) => parse_view(parsed) == Ok::<Multiaddr, (Seq<char>, Seq<char>)>(address),
            Err(error) => parse_view(parsed) == Err::<Multiaddr, (Seq<char>, Seq<char>)>(
                (error.shown@, error.debug@),
            ),
        },
{
}

/// The turn in which an address is parsed, whatever it reads: a node that is given is reached out
/// to, or the start stops with the error; a start that dials no node, or has dialed it, listens, or
/// ends with the error.
pub proof fn law_addresses_decide_the_turn(startup: StartupView, text: Seq<char>)
    ensures
        ({
            let given = StartupView {
                phase: StartPhase::Subscribing,
                dial: Some(text),
                ..startup
            };
            let alone = StartupView { phase: StartPhase::Subscribing, dial: None, ..startup };
            let dialed = StartupView { phase: StartPhase::Dialing, ..startup };
            let reached = start_turn_of(given, Ok(())).1;
            let listened = start_turn_of(alone, Ok(())).1;
            let listened_after = start_turn_of(dialed, Ok(())).1;
            &&& match parsed_address(text) {
                Ok(address) => reached == (StartActionView::Dial { address, text }),
                Err((_, debug)) => reached == StartActionView::Stop(
                    "called `Result::unwrap()` on an `Err` value: "@ + debug,
                ),
            }
            &&& match parsed_address("/ip4/0.0.0.0/tcp/0"@) {
                Ok(address) => listened == StartActionView::Listen(address),
                Err((shown, _)) => listened == StartActionView::Finish(Err(shown)),
            }
            &&& listened_after == listened
        }),
{
}

} // verus!
