use libp2p::Multiaddr;
use matrix_rust_p2p_client::startup::{
    dial, listen, start_p2p_server, start_turn, AddressError, StartAction, StartPhase, Startup,
};

fn args(items: &[&str]) -> Vec<String> {
    items.iter().map(|s| s.to_string()).collect()
}

fn address(text: &str) -> Multiaddr {
    text.parse().unwrap()
}

/// Runs a start in which the action with number `fails` fails, and lists the actions.
fn run(args: &Vec<String>, fails: usize) -> Vec<StartAction> {
    let (mut startup, mut action) = start_p2p_server(args, "user_one");
    let mut actions = vec![];
    while !matches!(action, StartAction::Finish(_) | StartAction::Stop(_)) {
        let outcome = if actions.len() == fails { Err("broken".to_string()) } else { Ok(()) };
        actions.push(action);
        let (next, after) = start_turn(startup, outcome);
        startup = next;
        action = after;
    }
    actions.push(action);
    assert_eq!(startup.phase, StartPhase::Finished);
    actions
}

fn bad_address() -> AddressError {
    AddressError { shown: "bad".to_string(), debug: "Bad".to_string() }
}

fn at(phase: StartPhase) -> Startup {
    Startup { phase, dial: None, database_path: "./db".to_string() }
}

#[test]
fn a_start_knows_its_database_and_whom_to_dial() {
    let (startup, action) = start_p2p_server(&args(&["node", "/ip4/10.0.0.1/tcp/4", "x"]), "db");
    assert_eq!(action, StartAction::BuildTransport);
    assert_eq!(
        startup,
        Startup {
            phase: StartPhase::Transport,
            dial: Some("/ip4/10.0.0.1/tcp/4".to_string()),
            database_path: "./db".to_string(),
        }
    );
    assert_eq!(start_p2p_server(&args(&["node"]), "").0.dial, None);
    assert_eq!(start_p2p_server(&vec![], "").0.dial, None);
    assert_eq!(start_p2p_server(&vec![], "").0.database_path, "./");
}

#[test]
fn a_node_starts_alone() {
    assert_eq!(
        run(&args(&["node"]), 100),
        vec![
            StartAction::BuildTransport,
            StartAction::OpenDiscovery,
            StartAction::Subscribe("chat".to_string()),
            StartAction::Listen(address("/ip4/0.0.0.0/tcp/0")),
            StartAction::OpenDatabase("./user_one".to_string()),
            StartAction::SpawnTasks,
            StartAction::Finish(Ok(())),
        ]
    );
}

#[test]
fn a_node_dials_another_before_it_listens() {
    let text = "/ip4/10.0.0.1/tcp/4001";
    assert_eq!(
        run(&args(&["node", text]), 100),
        vec![
            StartAction::BuildTransport,
            StartAction::OpenDiscovery,
            StartAction::Subscribe("chat".to_string()),
            StartAction::Dial { address: address(text), text: text.to_string() },
            StartAction::Listen(address("/ip4/0.0.0.0/tcp/0")),
            StartAction::OpenDatabase("./user_one".to_string()),
            StartAction::SpawnTasks,
            StartAction::Finish(Ok(())),
        ]
    );
}

#[test]
fn the_first_failure_is_the_result() {
    let all = args(&["node", "/ip4/10.0.0.1/tcp/4001"]);
    for fails in 0..7 {
        let actions = run(&all, fails);
        assert_eq!(actions.len(), fails + 2);
        assert_eq!(actions[fails + 1], StartAction::Finish(Err("broken".to_string())));
        if fails < 6 {
            assert!(!actions.contains(&StartAction::SpawnTasks));
        }
    }
}

#[test]
fn a_bad_address_stops_the_start() {
    let actions = run(&args(&["node", "not an address"]), 100);
    let reason = "called `Result::unwrap()` on an `Err` value: InvalidMultiaddr".to_string();
    assert_eq!(actions.len(), 4);
    assert_eq!(actions[3], StartAction::Stop(reason));
}

#[test]
fn dialing_and_listening_follow_the_parsed_address() {
    let to = "/ip4/1.2.3.4/tcp/5";
    let turn = dial(at(StartPhase::Subscribing), to.to_string(), Ok(address(to)));
    assert_eq!(turn.0, at(StartPhase::Dialing));
    assert_eq!(turn.1, StartAction::Dial { address: address(to), text: to.to_string() });
    let turn = dial(at(StartPhase::Subscribing), "x".to_string(), Err(bad_address()));
    let reason = "called `Result::unwrap()` on an `Err` value: Bad".to_string();
    assert_eq!(turn, (at(StartPhase::Finished), StartAction::Stop(reason)));
    let turn = listen(at(StartPhase::Dialing), Ok(address(to)));
    assert_eq!(turn, (at(StartPhase::Listening), StartAction::Listen(address(to))));
    let turn = listen(at(StartPhase::Dialing), Err(bad_address()));
    assert_eq!(
        turn,
        (at(StartPhase::Finished), StartAction::Finish(Err("bad".to_string())))
    );
}
