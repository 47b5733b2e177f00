use gilbert::acceptor::{
    authenticated_name, cert_poll_step, classify_cert_failure, AcceptError, CertParseError,
    CertPoll, InvalidCertError,
};
use gilbert::certs::{first_key, keys_of_items, CacheError, PemItem};
use gilbert::host::{init_request, route_response, HostAction};
use gilbert::plugin_api::{
    protocol_version_ok, proto_version, FieldsCollector, GeneralPluginResponse, GilbertRequest,
    Level, LogMessage, LogValue, ProtoVersion,
};
use gilbert::plugin_init::{
    exit_code_of, plugin_init_step, runner_init_step, InitReadError, InitStep, RunError,
};
use gilbert::printer::{Printer, PrinterState};
use gilbert::ws::{classify_read, frame_for_write, ReadOutcome, WsFrame};

fn v(major: u64, minor: u64, patch: u64) -> ProtoVersion {
    ProtoVersion { major, minor, patch }
}

#[test]
fn caret_check_through_real_semver() {
    // The build's protocol version is 0.1.0; ^0.1.0 accepts 0.1.x only.
    assert_eq!(proto_version(), v(0, 1, 0));
    assert!(protocol_version_ok(&v(0, 1, 0)));
    assert!(protocol_version_ok(&v(0, 1, 9)));
    assert!(!protocol_version_ok(&v(0, 2, 0)));
    assert!(!protocol_version_ok(&v(1, 1, 0)));
    assert!(!protocol_version_ok(&v(0, 0, 9)));
}

#[test]
fn plugin_init_accepts_compatible_host() {
    let req: Option<Result<GilbertRequest<String, ()>, InitReadError>> =
        Some(Ok(GilbertRequest::Init {
            gilbert_version: v(2, 0, 0),
            protocol_version: v(0, 1, 3),
            config: "conf".to_string(),
        }));
    let step = plugin_init_step(req, v(1, 0, 0));
    match step {
        InitStep::Proceed(resp, config) => {
            assert_eq!(config, "conf");
            match resp {
                GeneralPluginResponse::Init { plugin_version, protocol_version_valid } => {
                    assert_eq!(plugin_version, v(1, 0, 0));
                    assert!(protocol_version_valid);
                },
                _ => panic!("the first response is Init"),
            }
        },
        _ => panic!("a compatible init proceeds"),
    }
}

#[test]
fn plugin_init_answers_before_failing_on_version() {
    let req: Option<Result<GilbertRequest<String, ()>, InitReadError>> =
        Some(Ok(GilbertRequest::Init {
            gilbert_version: v(2, 0, 0),
            protocol_version: v(0, 2, 0),
            config: "conf".to_string(),
        }));
    let step = plugin_init_step(req, v(1, 0, 0));
    match &step {
        InitStep::RespondAndFail(resp, config, err) => {
            assert!(matches!(
                resp,
                GeneralPluginResponse::Init { protocol_version_valid: false, .. }
            ));
            // The builder still receives the config, as on success.
            assert_eq!(config, "conf");
            match err {
                RunError::VersionIncompatible { implemented, host } => {
                    assert_eq!(*implemented, v(0, 1, 0));
                    assert_eq!(*host, v(0, 2, 0));
                },
                _ => panic!("the failure names both versions"),
            }
        },
        _ => panic!("an incompatible init still answers first"),
    }
    assert_eq!(exit_code_of(&step), 1);
}

#[test]
fn plugin_init_refuses_non_init_first_message() {
    let req: Option<Result<GilbertRequest<String, ()>, InitReadError>> =
        Some(Ok(GilbertRequest::IntoRunnerProtocol));
    let step = plugin_init_step(req, v(1, 0, 0));
    assert!(matches!(step, InitStep::Refused(RunError::InitIsntFirstMessage)));
    assert_eq!(exit_code_of(&step), 2);
}

#[test]
fn plugin_init_handles_end_and_parse_failure() {
    let ended: Option<Result<GilbertRequest<String, ()>, InitReadError>> = None;
    let step = plugin_init_step(ended, v(1, 0, 0));
    assert!(matches!(step, InitStep::StreamEnded));
    assert_eq!(exit_code_of(&step), 0);

    let bad: Option<Result<GilbertRequest<String, ()>, InitReadError>> =
        Some(Err(InitReadError::Parse("not json".to_string())));
    match plugin_init_step(bad, v(1, 0, 0)) {
        InitStep::Refused(RunError::UnableToParseInit(s)) => assert_eq!(s, "not json"),
        _ => panic!("a parse failure is refused as such"),
    }
}

#[test]
fn runner_init_names_its_extensions() {
    let req: Option<Result<GilbertRequest<String, ()>, InitReadError>> =
        Some(Ok(GilbertRequest::Init {
            gilbert_version: v(2, 0, 0),
            protocol_version: v(0, 1, 0),
            config: "conf".to_string(),
        }));
    let step = runner_init_step(req, v(1, 0, 0), vec!["ts".to_string(), "js".to_string()]);
    match step {
        InitStep::Proceed(GeneralPluginResponse::InitRunner { accepted_extensions, .. }, _) => {
            assert_eq!(accepted_extensions, vec!["ts".to_string(), "js".to_string()]);
        },
        _ => panic!("a compatible runner init proceeds with its extensions"),
    }
}

#[test]
fn host_routes_responses() {
    let init: GeneralPluginResponse<u32> = GeneralPluginResponse::Init {
        plugin_version: v(1, 0, 0),
        protocol_version_valid: true,
    };
    assert!(matches!(route_response(init), HostAction::Accept { .. }));

    let refused: GeneralPluginResponse<u32> = GeneralPluginResponse::Init {
        plugin_version: v(1, 0, 0),
        protocol_version_valid: false,
    };
    assert!(matches!(route_response(refused), HostAction::ShutDown));

    let log: GeneralPluginResponse<u32> = GeneralPluginResponse::Log(LogMessage {
        level: Level::Info,
        name: "event".to_string(),
        target: "plugin".to_string(),
        module: None,
        file: None,
        line: Some(10),
        fields: vec![("ok".to_string(), LogValue::Bool(true))],
    });
    match route_response(log) {
        HostAction::EmitLog(m) => assert!(matches!(m.level, Level::Info)),
        _ => panic!("log responses go to the logger"),
    }

    let inner: GeneralPluginResponse<u32> = GeneralPluginResponse::Inner(9);
    assert!(matches!(route_response(inner), HostAction::Deliver(9)));
}

#[test]
fn host_init_request_declares_protocol_version() {
    let req = init_request(v(3, 1, 4), "cfg".to_string());
    match req {
        GilbertRequest::Init { gilbert_version, protocol_version, config } => {
            assert_eq!(gilbert_version, v(3, 1, 4));
            assert_eq!(protocol_version, v(0, 1, 0));
            assert_eq!(config, "cfg");
        },
        _ => panic!("the host's first line is Init"),
    }
}

#[test]
fn response_map_keeps_shapes() {
    let inner: GeneralPluginResponse<u32> = GeneralPluginResponse::Inner(21);
    match inner.map(|x| x * 2) {
        GeneralPluginResponse::Inner(y) => assert_eq!(y, 42),
        _ => panic!("map transforms the payload"),
    }
    let init: GeneralPluginResponse<u32> = GeneralPluginResponse::Init {
        plugin_version: v(1, 0, 0),
        protocol_version_valid: true,
    };
    assert!(matches!(
        init.map(|x| x * 2),
        GeneralPluginResponse::Init { protocol_version_valid: true, .. }
    ));
}

#[test]
fn fields_collector_stores_json_equivalents() {
    let mut c = FieldsCollector::new();
    c.record_bool("flag".to_string(), true);
    c.record_i64("delta".to_string(), -3);
    c.record_u64("count".to_string(), 7);
    c.record_str("who".to_string(), "bob".to_string());
    c.record_rendered("big".to_string(), "170141183460469231731687303715884105727".to_string());
    assert_eq!(c.fields.len(), 5);
    assert!(matches!(c.fields[0].1, LogValue::Bool(true)));
    assert!(matches!(c.fields[1].1, LogValue::Int(-3)));
    assert!(matches!(c.fields[2].1, LogValue::UInt(7)));
    assert!(matches!(&c.fields[3].1, LogValue::Text(s) if s == "bob"));
    assert!(matches!(&c.fields[4].1, LogValue::Text(_)));
}

#[test]
fn printer_flushes_all_pending_lines_before_finishing() {
    // A plugin emits 100 lines and exits: the host reads all 100 before
    // the printer finishes.
    let mut p = Printer::new();
    for i in 0..100u32 {
        p.enqueue(format!("line {}", i));
    }
    p.signal_finishing();
    p.drain();
    assert_eq!(p.state, PrinterState::Finished);
    assert_eq!(p.printed.len(), 100);
    assert_eq!(p.printed[0], "line 0");
    assert_eq!(p.printed[99], "line 99");
    assert!(p.queue.is_empty());
}

#[test]
fn printer_prints_in_normal_state_and_stops_when_finished() {
    let mut p = Printer::new();
    p.enqueue("a".to_string());
    assert_eq!(p.step(), Some("a".to_string()));
    assert_eq!(p.state, PrinterState::Normal);
    assert_eq!(p.step(), None);
    p.signal_finishing();
    assert_eq!(p.step(), None);
    assert_eq!(p.state, PrinterState::Finished);
    p.enqueue("late".to_string());
    assert_eq!(p.step(), None);
    assert_eq!(p.printed, vec!["a".to_string()]);
}

#[test]
fn cert_poll_waits_then_gives_up() {
    assert!(matches!(cert_poll_step(0, true), CertPoll::Proceed));
    assert!(matches!(cert_poll_step(0, false), CertPoll::Wait));
    assert!(matches!(cert_poll_step(19, false), CertPoll::Wait));
    assert!(matches!(cert_poll_step(20, false), CertPoll::GiveUp));
}

#[test]
fn authenticated_name_prefers_san() {
    let r = authenticated_name(
        Some(vec!["alice".to_string(), "alt".to_string()]),
        "CN=ignored".to_string(),
    );
    assert_eq!(r, Some("alice".to_string()));
    let r = authenticated_name(None, "CN=alice".to_string());
    assert_eq!(r, Some("CN=alice".to_string()));
    let r = authenticated_name(Some(vec![]), "CN=alice".to_string());
    assert_eq!(r, None);
}

#[test]
fn websocket_reads_accept_only_binary() {
    match classify_read(Some(Ok(WsFrame::Binary(vec![1, 2])))) {
        ReadOutcome::Data(d) => assert_eq!(d, vec![1, 2]),
        _ => panic!("binary frames carry data"),
    }
    assert!(matches!(classify_read(None), ReadOutcome::ConnectionReset));
    assert!(matches!(classify_read(Some(Ok(WsFrame::Close))), ReadOutcome::ConnectionReset));
    assert!(matches!(
        classify_read(Some(Ok(WsFrame::Text("hi".to_string())))),
        ReadOutcome::InvalidData
    ));
    assert!(matches!(classify_read(Some(Ok(WsFrame::Ping(vec![])))), ReadOutcome::InvalidData));
    assert!(matches!(classify_read(Some(Ok(WsFrame::Pong(vec![])))), ReadOutcome::InvalidData));
    match classify_read(Some(Err("boom".to_string()))) {
        ReadOutcome::SocketError(s) => assert_eq!(s, "boom"),
        _ => panic!("socket errors pass through"),
    }
}

#[test]
fn websocket_writes_whole_buffer_as_one_frame() {
    let (frame, n) = frame_for_write(&vec![9, 8, 7]);
    assert_eq!(n, 3);
    match frame {
        WsFrame::Binary(b) => assert_eq!(b, vec![9, 8, 7]),
        _ => panic!("writes are binary frames"),
    }
}

#[test]
fn key_selection_takes_first_key() {
    let items = vec![
        PemItem::Other,
        PemItem::Pkcs8Key(vec![1]),
        PemItem::RsaKey(vec![2]),
        PemItem::EcKey(vec![3]),
    ];
    let keys = keys_of_items(items);
    assert_eq!(keys, vec![vec![1], vec![2], vec![3]]);
    match first_key(keys) {
        Ok(k) => assert_eq!(k, vec![1]),
        Err(_) => panic!("a non-empty key list yields its first key"),
    }
    assert!(matches!(first_key(vec![]), Err(CacheError::NoKey)));
}

#[test]
fn certificate_parse_failures_are_classified() {
    assert!(matches!(
        classify_cert_failure(CertParseError::Incomplete),
        AcceptError::InvalidCert(InvalidCertError::DataNeeded)
    ));
    match classify_cert_failure(CertParseError::Invalid("bad encoding".to_string())) {
        AcceptError::InvalidCert(InvalidCertError::X509(s)) => assert_eq!(s, "bad encoding"),
        _ => panic!("an invalid encoding is an invalid-certificate error"),
    }
}
