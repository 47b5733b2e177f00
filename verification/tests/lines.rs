use gilbert::jsonline::emit_line;
use gilbert::plugin_api::{GeneralPluginResponse, Level, LogMessage, LogValue, ProtoVersion};

fn line_of(r: &GeneralPluginResponse<()>) -> String {
    String::from_utf8(emit_line(r)).expect("emitted lines are ASCII")
}

#[test]
fn init_line_prints_as_json() {
    let r: GeneralPluginResponse<()> = GeneralPluginResponse::Init {
        plugin_version: ProtoVersion { major: 1, minor: 0, patch: 0 },
        protocol_version_valid: true,
    };
    let line = line_of(&r);
    assert_eq!(line, "{\"Init\":{\"plugin_version\":{\"major\":1,\"minor\":0,\"patch\":0},\"protocol_version_valid\":true}}");
    let emitted: serde_json::Value = serde_json::from_str(&line).unwrap();
    let readable: serde_json::Value = serde_json::from_str(
        " { \"Init\" : { \"plugin_version\" : { \"major\" : 1, \"minor\" : 0, \"patch\" : 0 }, \"protocol_version_valid\" : true } } ",
    )
    .unwrap();
    assert_eq!(emitted, readable);
}

#[test]
fn runner_line_lists_extensions() {
    let r: GeneralPluginResponse<()> = GeneralPluginResponse::InitRunner {
        plugin_version: ProtoVersion { major: 2, minor: 1, patch: 3 },
        protocol_version_valid: false,
        accepted_extensions: vec!["ts".to_string(), "js".to_string()],
    };
    let line = line_of(&r);
    assert_eq!(line, "{\"InitRunner\":{\"plugin_version\":{\"major\":2,\"minor\":1,\"patch\":3},\"protocol_version_valid\":false,\"accepted_extensions\":[\"ts\",\"js\"]}}");
}

#[test]
fn inner_line_is_null_payload() {
    let r: GeneralPluginResponse<()> = GeneralPluginResponse::Inner(());
    assert_eq!(line_of(&r), "{\"Inner\":null}");
}

#[test]
fn log_line_round_trips_through_real_json() {
    let r: GeneralPluginResponse<()> = GeneralPluginResponse::Log(LogMessage {
        level: Level::Info,
        name: "ev\u{00e9}nt".to_string(),
        target: "plugin".to_string(),
        module: None,
        file: None,
        line: Some(10),
        fields: vec![
            ("ok".to_string(), LogValue::Bool(true)),
            ("delta".to_string(), LogValue::Int(-3)),
            ("who".to_string(), LogValue::Text("b\u{1F600}b".to_string())),
        ],
    });
    let line = line_of(&r);
    assert_eq!(line, "{\"Log\":{\"level\":\"Info\",\"name\":\"ev\\u00e9nt\",\"target\":\"plugin\",\"module_path\":null,\"file\":null,\"line\":10,\"fields\":{\"ok\":true,\"delta\":-3,\"who\":\"b\\ud83d\\ude00b\"}}}");
    // The escaped form means the same JSON value as the readable form,
    // surrogate pair and all.
    let emitted: serde_json::Value = serde_json::from_str(&line).unwrap();
    let readable: serde_json::Value = serde_json::from_str("{\"Log\":{\"level\":\"Info\",\"name\":\"ev\\u00e9nt\",\"target\":\"plugin\",\"module_path\":null,\"file\":null,\"line\":10,\"fields\":{\"ok\":true,\"delta\":-3,\"who\":\"b\\ud83d\\ude00b\"}}}").unwrap();
    assert_eq!(emitted, readable);
    assert_eq!(emitted["Log"]["fields"]["who"], serde_json::Value::String("b\u{1F600}b".to_string()));
}
