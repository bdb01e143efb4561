use jbar::audio::{
    app_streams, get_volume_invocation, is_available, is_float_text, is_source_available,
    list_app_streams, mic_icon_name, mute_icon_name, parse_volume_output, pw_dump_invocation,
    pw_nodes, set_mute, set_source_mute, stream_target, CommandOutput, PwNode,
};
use jbar::json::Json;

fn out(success: bool, text: &[u8]) -> Option<CommandOutput> {
    Some(CommandOutput { success, stdout: text.to_vec() })
}

#[test]
fn sink_available_when_wpctl_reports_volume() {
    assert!(is_available(&out(true, b"Volume: 0.40\n")));
    assert!(is_available(&out(true, b"Volume: 0.40 [MUTED]\n")));
    assert!(!is_available(&out(false, b"Volume: 0.40\n")));
    assert!(!is_available(&out(true, b"Volume:\n")));
    assert!(!is_available(&out(true, b"Volume: loud\n")));
    assert!(!is_available(&None));
    assert!(is_source_available(&out(true, b"Volume: 1")));
}

#[test]
fn volume_output_read() {
    let v = parse_volume_output("  Volume: 0.55 [MUTED]\n").unwrap();
    assert_eq!(v.volume, "0.55");
    assert!(v.muted);
    let v = parse_volume_output("Volume:\t1.00").unwrap();
    assert_eq!(v.volume, "1.00");
    assert!(!v.muted);
    assert!(parse_volume_output("Volume:").is_none());
}

#[test]
fn float_syntax_as_std_accepts() {
    for t in ["1", "1.", ".5", "-0.25", "+3e5", "2E-3", "inf", "-Infinity", "NaN", "1.5e+10"] {
        assert!(is_float_text(t), "{t}");
        assert!(t.parse::<f64>().is_ok(), "{t}");
    }
    for t in ["", ".", "e5", "1e", "1.2.3", "0x10", " 1", "1 ", "infx", "--1", "+-1", "1e+"] {
        assert!(!is_float_text(t), "{t}");
        assert!(t.parse::<f64>().is_err(), "{t}");
    }
}

#[test]
fn mute_commands() {
    let m = set_mute(true);
    assert_eq!(m.program, "wpctl");
    assert_eq!(m.args, vec!["set-mute", "@DEFAULT_AUDIO_SINK@", "1"]);
    assert_eq!(set_source_mute(false).args, vec!["set-mute", "@DEFAULT_AUDIO_SOURCE@", "0"]);
    assert_eq!(get_volume_invocation("42").args, vec!["get-volume", "42"]);
    assert_eq!(stream_target(42), "42");
}

fn node(id: Option<u64>, class: &str, state: &str, app: Option<&str>, desc: Option<&str>, name: Option<&str>) -> PwNode {
    PwNode {
        id,
        state: Some(state.to_string()),
        media_class: Some(class.to_string()),
        application_name: app.map(|s| s.to_string()),
        node_description: desc.map(|s| s.to_string()),
        node_name: name.map(|s| s.to_string()),
    }
}

#[test]
fn running_output_streams_listed() {
    let nodes = vec![
        node(Some(50), "Stream/Output/Audio", "running", Some("Firefox"), Some("d"), Some("n")),
        node(Some(51), "Stream/Output/Audio", "idle", Some("Paused"), None, None),
        node(Some(52), "Stream/Input/Audio", "running", Some("Mic"), None, None),
        node(Some(53), "Stream/Output/Audio", "running", None, Some("Desc"), Some("n")),
        node(Some(54), "Stream/Output/Audio", "running", None, None, Some("node")),
        node(Some(55), "Stream/Output/Audio", "running", None, None, None),
        node(None, "Stream/Output/Audio", "running", Some("NoId"), None, None),
        node(Some((1u64 << 32) + 9), "Stream/Output/Audio", "running", Some("Big"), None, None),
    ];
    let streams = app_streams(&nodes);
    let got: Vec<(u32, &str)> = streams.iter().map(|s| (s.id, s.name.as_str())).collect();
    assert_eq!(got, vec![(50, "Firefox"), (53, "Desc"), (54, "node"), (55, "Unknown"), (9, "Big")]);
}

#[test]
fn audio_icons() {
    assert_eq!(mute_icon_name(true), "audio-volume-muted-symbolic");
    assert_eq!(mute_icon_name(false), "audio-volume-high-symbolic");
    assert_eq!(mic_icon_name(true), "microphone-sensitivity-muted-symbolic");
    assert_eq!(mic_icon_name(false), "microphone-sensitivity-high-symbolic");
}

const PW_DUMP: &[u8] = br#"[
  {"id": 31, "type": "PipeWire:Interface:Node",
   "info": {"state": "running", "props": {"media.class": "Stream/Output/Audio",
            "application.name": "Firefox", "node.name": "firefox"}}},
  {"id": 32, "info": {"state": "idle", "props": {"media.class": "Stream/Output/Audio",
            "application.name": "Paused"}}},
  {"id": 40, "info": {"state": "running", "props": {"media.class": "Audio/Sink",
            "node.name": "speakers"}}},
  {"id": 41, "info": {"state": "running", "props": {"media.class": "Stream/Output/Audio",
            "node.description": "Music player"}}},
  {"id": 42, "info": {"state": "running", "props": {"media.class": "Stream/Output/Audio"}}},
  {"id": -3, "info": {"state": "running", "props": {"media.class": "Stream/Output/Audio"}}},
  {"info": {"state": "running", "props": {"media.class": "Stream/Output/Audio"}}}
]"#;

#[test]
fn app_streams_listed_from_pw_dump_json() {
    let streams = list_app_streams(&out(true, PW_DUMP));
    let got: Vec<(u32, String)> = streams.iter().map(|s| (s.id, s.name.clone())).collect();
    assert_eq!(
        got,
        vec![
            (31, "Firefox".to_string()),
            (41, "Music player".to_string()),
            (42, "Unknown".to_string()),
        ]
    );
}

#[test]
fn app_streams_empty_without_a_json_array() {
    assert!(list_app_streams(&out(true, b"not json")).is_empty());
    assert!(list_app_streams(&out(true, b"{\"id\": 31}")).is_empty());
    assert!(list_app_streams(&out(false, PW_DUMP)).is_empty());
    assert!(list_app_streams(&None).is_empty());
}

#[test]
fn pw_nodes_read_members_by_path() {
    let item = Json::Object(vec![
        ("id".to_string(), Json::Number(Some(7))),
        (
            "info".to_string(),
            Json::Object(vec![
                ("state".to_string(), Json::Text("running".to_string())),
                ("props".to_string(), Json::Object(vec![("node.name".to_string(), Json::Text("n".to_string()))])),
            ]),
        ),
    ]);
    let nodes = pw_nodes(&Json::Array(vec![item, Json::Null]));
    assert_eq!(nodes.len(), 2);
    assert_eq!(nodes[0].id, Some(7));
    assert_eq!(nodes[0].state.as_deref(), Some("running"));
    assert_eq!(nodes[0].node_name.as_deref(), Some("n"));
    assert_eq!(nodes[0].media_class, None);
    assert_eq!(nodes[1].id, None);
    assert!(pw_nodes(&Json::Text("x".to_string())).is_empty());
}

#[test]
fn pw_dump_command() {
    let inv = pw_dump_invocation();
    assert_eq!(inv.program, "pw-dump");
    assert!(inv.args.is_empty());
}
