use gilbert::chatter::{
    decode_message, encode_message, ChatterMessage, GeneralConfigDiff,
};
use gilbert::config::{
    check_task_names_unique, eq_general_config, DiffUrl, GeneralConfig, Node, Param, ParamType,
    Plugin, TaskEntry, TaskInfo,
};
use gilbert::frame::{frame_encode, frame_extract};
use gilbert::{rewrite_scheme, unrewrite_scheme};

fn url(s: &str) -> DiffUrl {
    DiffUrl { url: s.to_string() }
}

fn sample_config() -> GeneralConfig {
    GeneralConfig {
        nodes: vec![
            Node { address: url("https://alice.example:8080/"), name: "alice".to_string() },
            Node { address: url("https://bob.example:8080/"), name: "bob".to_string() },
        ],
        tasks: vec![TaskEntry {
            name: "build".to_string(),
            info: TaskInfo {
                params: vec![
                    Param { name: "count".to_string(), ty: ParamType::Number },
                    Param { name: "label".to_string(), ty: ParamType::Text },
                    Param { name: "spec".to_string(), ty: ParamType::Object },
                    Param { name: "items".to_string(), ty: ParamType::Array },
                ],
                allowed_nodes: Some(vec!["alice".to_string()]),
                disallowed_nodes: None,
                script: "jobs/build.ts".to_string(),
            },
        }],
        plugins: vec![
            Plugin::Name("runner".to_string()),
            Plugin::NameAndVersion { name: "lint".to_string(), version: "1.2.3".to_string() },
            Plugin::NameWithRepo {
                name: "deploy".to_string(),
                repo: "https://repo.example/".to_string(),
                version: Some("0.9.1".to_string()),
            },
        ],
    }
}

fn roundtrip(m: ChatterMessage) -> ChatterMessage {
    let bytes = encode_message(&m);
    decode_message(&bytes).expect("an encoded message decodes")
}

#[test]
fn ping_round_trips() {
    match roundtrip(ChatterMessage::Ping(42)) {
        ChatterMessage::Ping(x) => assert_eq!(x, 42),
        _ => panic!("wrong shape"),
    }
}

#[test]
fn pong_round_trips() {
    match roundtrip(ChatterMessage::Pong(7)) {
        ChatterMessage::Pong(x) => assert_eq!(x, 7),
        _ => panic!("wrong shape"),
    }
}

#[test]
fn queue_update_round_trips() {
    match roundtrip(ChatterMessage::QueueUpdate { length: 13 }) {
        ChatterMessage::QueueUpdate { length } => assert_eq!(length, 13),
        _ => panic!("wrong shape"),
    }
}

#[test]
fn node_config_update_round_trips() {
    match roundtrip(ChatterMessage::NodeConfigUpdate { priority: 5 }) {
        ChatterMessage::NodeConfigUpdate { priority } => assert_eq!(priority, 5),
        _ => panic!("wrong shape"),
    }
}

#[test]
fn general_config_update_round_trips() {
    let m = ChatterMessage::GeneralConfigUpdate(GeneralConfigDiff { raw: vec![1, 2, 3] });
    match roundtrip(m) {
        ChatterMessage::GeneralConfigUpdate(d) => assert_eq!(d.raw, vec![1, 2, 3]),
        _ => panic!("wrong shape"),
    }
}

#[test]
fn hello_round_trips() {
    let m = ChatterMessage::Hello {
        config: sample_config(),
        priority: 7,
        connected: vec!["bob".to_string(), "carol".to_string()],
    };
    match roundtrip(m) {
        ChatterMessage::Hello { config, priority, connected } => {
            assert_eq!(priority, 7);
            assert_eq!(connected, vec!["bob".to_string(), "carol".to_string()]);
            assert!(eq_general_config(&config, &sample_config()));
            assert_eq!(config.nodes[1].name, "bob");
            assert_eq!(config.tasks[0].info.params[1].ty, ParamType::Text);
            assert_eq!(config.nodes[0].address.url, "https://alice.example:8080/");
        },
        _ => panic!("wrong shape"),
    }
}

#[test]
fn unicode_names_round_trip() {
    let m = ChatterMessage::Hello {
        config: GeneralConfig { nodes: vec![], tasks: vec![], plugins: vec![] },
        priority: 0,
        connected: vec!["n\u{00f8}de-\u{65e5}\u{672c}".to_string()],
    };
    match roundtrip(m) {
        ChatterMessage::Hello { connected, .. } => {
            assert_eq!(connected[0], "n\u{00f8}de-\u{65e5}\u{672c}");
        },
        _ => panic!("wrong shape"),
    }
}

#[test]
fn decoding_rejects_unknown_tag() {
    assert!(decode_message(&vec![9u8, 0, 0, 0, 0]).is_none());
}

#[test]
fn decoding_rejects_truncation() {
    let bytes = encode_message(&ChatterMessage::Ping(1));
    let short = bytes[..bytes.len() - 1].to_vec();
    assert!(decode_message(&short).is_none());
}

#[test]
fn decoding_rejects_trailing_bytes() {
    let mut bytes = encode_message(&ChatterMessage::Ping(1));
    bytes.push(0);
    assert!(decode_message(&bytes).is_none());
}

#[test]
fn frame_round_trips() {
    let payload = encode_message(&ChatterMessage::Ping(99));
    let framed = frame_encode(&payload).expect("small payload frames");
    assert_eq!(framed.len(), payload.len() + 4);
    let (extracted, consumed) = frame_extract(&framed).expect("whole frame extracts");
    assert_eq!(extracted, payload);
    assert_eq!(consumed, framed.len());
}

#[test]
fn frame_waits_for_more_bytes() {
    let payload = vec![1u8, 2, 3, 4, 5];
    let framed = frame_encode(&payload).unwrap();
    let partial = framed[..framed.len() - 1].to_vec();
    assert!(frame_extract(&partial).is_none());
    assert!(frame_extract(&vec![0u8, 0]).is_none());
}

#[test]
fn frame_extracts_first_of_two() {
    let p1 = vec![1u8, 2, 3];
    let p2 = vec![4u8, 5];
    let mut buf = frame_encode(&p1).unwrap();
    buf.extend_from_slice(&frame_encode(&p2).unwrap());
    let (extracted, consumed) = frame_extract(&buf).expect("first frame extracts");
    assert_eq!(extracted, p1);
    assert_eq!(consumed, 4 + p1.len());
    let rest = buf[consumed..].to_vec();
    let (extracted2, _) = frame_extract(&rest).expect("second frame extracts");
    assert_eq!(extracted2, p2);
}

#[test]
fn config_equality_is_exact() {
    let a = sample_config();
    let mut b = sample_config();
    assert!(eq_general_config(&a, &b));
    b.tasks[0].info.script = "jobs/other.ts".to_string();
    assert!(!eq_general_config(&a, &b));
    let mut c = sample_config();
    c.nodes[0].name = "alicia".to_string();
    assert!(!eq_general_config(&a, &c));
}

#[test]
fn url_diff_and_apply() {
    let a = url("https://one.example/");
    let b = url("https://two.example/");
    assert!(a.diff(&a).is_none());
    let d = a.diff(&b);
    assert!(d.is_some());
    let mut x = url("https://one.example/");
    x.apply(&d);
    assert_eq!(x.url, "https://two.example/");
    let mut y = url("https://one.example/");
    y.apply(&None);
    assert_eq!(y.url, "https://one.example/");
    assert_eq!(DiffUrl::identity().url, "https://example.com/");
}

#[test]
fn scheme_rewrite_matches_dial_rules() {
    assert_eq!(rewrite_scheme("http"), "ws");
    assert_eq!(rewrite_scheme("https"), "wss");
    assert_eq!(rewrite_scheme("ftp"), "ftp");
    assert_eq!(unrewrite_scheme("ws"), "http");
    assert_eq!(unrewrite_scheme("wss"), "https");
    assert_eq!(unrewrite_scheme(&rewrite_scheme("http")), "http");
    assert_eq!(unrewrite_scheme(&rewrite_scheme("https")), "https");
    assert_eq!(unrewrite_scheme(&rewrite_scheme("ftp")), "ftp");
}

#[test]
fn duplicate_task_names_are_detected() {
    let mut c = sample_config();
    assert!(check_task_names_unique(&c));
    c.tasks.push(TaskEntry {
        name: "build".to_string(),
        info: TaskInfo {
            params: vec![],
            allowed_nodes: None,
            disallowed_nodes: None,
            script: "jobs/other.ts".to_string(),
        },
    });
    assert!(!check_task_names_unique(&c));
}
