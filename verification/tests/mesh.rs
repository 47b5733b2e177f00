use gilbert::chatter::ChatterMessage;
use gilbert::config::{DiffUrl, GeneralConfig, Node};
use gilbert::connection::{
    handle_message, run_receiver, ConnState, ConnectionError, DataStreamError, MessageAction,
};
use gilbert::handlers::{connect_candidates, hello_message, peer_targets, MockEv};
use gilbert::handlers::{AttemptConnectHandler, PongHandler};
use gilbert::registry::{NodeManager, NodeStatus};

fn two_node_config() -> GeneralConfig {
    GeneralConfig {
        nodes: vec![
            Node {
                address: DiffUrl { url: "https://alice.example/".to_string() },
                name: "alice".to_string(),
            },
            Node {
                address: DiffUrl { url: "https://bob.example/".to_string() },
                name: "bob".to_string(),
            },
        ],
        tasks: vec![],
        plugins: vec![],
    }
}

fn three_node_config() -> GeneralConfig {
    let mut c = two_node_config();
    c.nodes.push(Node {
        address: DiffUrl { url: "https://carol.example/".to_string() },
        name: "carol".to_string(),
    });
    c
}

#[test]
fn ping_is_answered_with_pong() {
    let local = two_node_config();
    let mut state = ConnState::new();
    let action = handle_message(&mut state, &local, ChatterMessage::Ping(42));
    match action {
        MessageAction::Reply(ChatterMessage::Pong(x)) => assert_eq!(x, 42),
        _ => panic!("a Ping demands the matching Pong"),
    }
    assert_eq!(state.priority, 0);
}

#[test]
fn pong_reaches_the_handler() {
    let local = two_node_config();
    let mut state = ConnState::new();
    let action = handle_message(&mut state, &local, ChatterMessage::Pong(42));
    let mut ev = MockEv::new();
    match action {
        MessageAction::Pong(x) => ev.pong(x),
        _ => panic!("a Pong reaches the pong handler"),
    }
    assert_eq!(ev.pongs, vec![42]);
}

#[test]
fn hello_with_matching_config_sets_priority_and_gossips() {
    let local = two_node_config();
    let mut state = ConnState::new();
    let action = handle_message(
        &mut state,
        &local,
        ChatterMessage::Hello {
            config: two_node_config(),
            priority: 7,
            connected: vec!["carol".to_string()],
        },
    );
    assert_eq!(state.priority, 7);
    match action {
        MessageAction::AttemptConnect(names) => assert_eq!(names, vec!["carol".to_string()]),
        _ => panic!("a good Hello hands the reported names to the handler"),
    }
}

#[test]
fn hello_with_different_config_is_fatal() {
    let local = two_node_config();
    let mut state = ConnState::new();
    let action = handle_message(
        &mut state,
        &local,
        ChatterMessage::Hello {
            config: three_node_config(),
            priority: 7,
            connected: vec![],
        },
    );
    assert!(matches!(action, MessageAction::Fatal(ConnectionError::ConfigsDontMatch)));
    assert_eq!(state.priority, 0);
}

#[test]
fn priority_updates_follow_the_latest_message() {
    let local = two_node_config();
    let mut state = ConnState::new();
    handle_message(
        &mut state,
        &local,
        ChatterMessage::Hello { config: two_node_config(), priority: 3, connected: vec![] },
    );
    assert_eq!(state.priority, 3);
    handle_message(&mut state, &local, ChatterMessage::NodeConfigUpdate { priority: 9 });
    assert_eq!(state.priority, 9);
    handle_message(&mut state, &local, ChatterMessage::Ping(1));
    handle_message(&mut state, &local, ChatterMessage::QueueUpdate { length: 4 });
    assert_eq!(state.priority, 9);
    assert_eq!(state.queue_length, Some(4));
}

#[test]
fn receiver_processes_in_order_and_ends_cleanly() {
    let local = two_node_config();
    let mut state = ConnState::new();
    let items: Vec<Result<ChatterMessage, DataStreamError>> = vec![
        Ok(ChatterMessage::Hello { config: two_node_config(), priority: 2, connected: vec![] }),
        Ok(ChatterMessage::Ping(5)),
        Ok(ChatterMessage::Pong(6)),
    ];
    let (actions, outcome) = run_receiver(&mut state, &local, items);
    assert!(outcome.is_ok());
    assert_eq!(actions.len(), 3);
    assert!(matches!(&actions[0], MessageAction::AttemptConnect(ns) if ns.is_empty()));
    assert!(matches!(&actions[1], MessageAction::Reply(ChatterMessage::Pong(5))));
    assert!(matches!(&actions[2], MessageAction::Pong(6)));
    assert_eq!(state.priority, 2);
}

#[test]
fn receiver_stops_at_config_mismatch() {
    let local = two_node_config();
    let mut state = ConnState::new();
    let items: Vec<Result<ChatterMessage, DataStreamError>> = vec![
        Ok(ChatterMessage::Hello { config: three_node_config(), priority: 2, connected: vec![] }),
        Ok(ChatterMessage::Ping(5)),
    ];
    let (actions, outcome) = run_receiver(&mut state, &local, items);
    assert!(matches!(outcome, Err(ConnectionError::ConfigsDontMatch)));
    assert_eq!(actions.len(), 1);
}

#[test]
fn receiver_reports_stream_errors() {
    let local = two_node_config();
    let mut state = ConnState::new();
    let items: Vec<Result<ChatterMessage, DataStreamError>> =
        vec![Err(DataStreamError::Io("reset".to_string()))];
    let (actions, outcome) = run_receiver(&mut state, &local, items);
    assert!(actions.is_empty());
    match outcome {
        Err(ConnectionError::DataStream(DataStreamError::Io(s))) => assert_eq!(s, "reset"),
        _ => panic!("the stream error is reported"),
    }
}

#[test]
fn registry_defaults_to_unknown() {
    let mgr: NodeManager<u32> = NodeManager::new();
    assert!(matches!(mgr.get("bob"), NodeStatus::Unknown));
}

#[test]
fn registry_up_replaces_prior_entry() {
    let mut mgr: NodeManager<u32> = NodeManager::new();
    mgr.up("bob".to_string(), 1);
    assert!(matches!(mgr.get("bob"), NodeStatus::Up(1)));
    mgr.up("bob".to_string(), 2);
    assert!(matches!(mgr.get("bob"), NodeStatus::Up(2)));
    assert_eq!(mgr.nodes().len(), 1);
    mgr.down("bob".to_string());
    assert!(matches!(mgr.get("bob"), NodeStatus::Down));
}

#[test]
fn registry_connected_lists_up_names() {
    let mut mgr: NodeManager<u32> = NodeManager::new();
    mgr.up("bob".to_string(), 1);
    mgr.down("carol".to_string());
    mgr.up("dave".to_string(), 2);
    assert_eq!(mgr.connected(), vec!["bob".to_string(), "dave".to_string()]);
}

#[test]
fn solo_accept_shows_peer_disconnected() {
    // Local name "alice", peer list [alice, bob]; no peer reachable.
    let config = two_node_config();
    let targets = peer_targets(&config, "alice");
    assert_eq!(targets, vec![1]);
    let mut mgr: NodeManager<u32> = NodeManager::new();
    for i in targets {
        // The dial fails (nobody is listening); the slot goes Down.
        mgr.down(config.nodes[i].name.clone());
    }
    let listing: Vec<(String, bool)> = mgr
        .nodes()
        .iter()
        .map(|(name, st)| (name.clone(), st.is_up()))
        .collect();
    assert_eq!(listing, vec![("bob".to_string(), false)]);
}

#[test]
fn gossip_dials_reported_unknown_peer() {
    // bob reports carol; carol is not Up, so she is dialed; afterwards a
    // repeat of the same Hello dials nobody.
    let config = three_node_config();
    let mut mgr: NodeManager<u32> = NodeManager::new();
    mgr.up("bob".to_string(), 1);
    let names = vec!["carol".to_string()];
    let picked = connect_candidates(&names, &config, &mgr);
    assert_eq!(picked, vec![2]);
    assert_eq!(config.nodes[2].name, "carol");
    mgr.up("carol".to_string(), 2);
    let picked_again = connect_candidates(&names, &config, &mgr);
    assert!(picked_again.is_empty());
}

#[test]
fn attempt_connect_ignores_unconfigured_names() {
    let config = two_node_config();
    let mgr: NodeManager<u32> = NodeManager::new();
    let names = vec!["mallory".to_string()];
    assert!(connect_candidates(&names, &config, &mgr).is_empty());
}

#[test]
fn hello_message_carries_local_view() {
    let config = gilbert::config::Config {
        general: two_node_config(),
        node: gilbert::config::NodeConfig {
            ca_file: "ca.pem".to_string(),
            cert_file: "alice.pem".to_string(),
            key_file: "alice.key".to_string(),
            addr: "0.0.0.0:8080".to_string(),
            name: "alice".to_string(),
            priority: 7,
        },
    };
    let msg = hello_message(&config, vec!["bob".to_string()]);
    match msg {
        ChatterMessage::Hello { config: general, priority, connected } => {
            assert_eq!(priority, 7);
            assert_eq!(connected, vec!["bob".to_string()]);
            assert!(gilbert::config::eq_general_config(&general, &two_node_config()));
        },
        _ => panic!("hello_message builds a Hello"),
    }
}

#[test]
fn mock_handler_records_batches() {
    let mut ev = MockEv::new();
    ev.attempt_connect(&vec!["bob".to_string(), "carol".to_string()]);
    ev.pong(3);
    assert_eq!(ev.batches, vec![vec!["bob".to_string(), "carol".to_string()]]);
    assert_eq!(ev.pongs, vec![3]);
}
