use flowstation::dashboard::config::{
    apply_dashboard_patch, default_bind, default_port, empty_to_none, is_url_safe_token_char,
    valid_token, CfgDashboard, CfgDashboardDto,
};
use flowstation::dashboard::server::DashboardServer;
use flowstation::dashboard::telemetry::{
    event_to_ws_msg, log_to_ws_msg, snapshot_to_ws_msg, Activity, LastHeard, TelemetryEvent,
};
use serde_json::Value;
use std::time::{Duration, Instant};

fn dto(token: Option<&str>) -> CfgDashboardDto {
    CfgDashboardDto {
        port: 8080,
        bind: "0.0.0.0".to_string(),
        allow_config_api: false,
        allow_control_commands: false,
        auth_token: token.map(|t| t.to_string()),
    }
}

#[test]
fn configuration_has_defaults() {
    let cfg = CfgDashboard::default();
    assert_eq!((cfg.port, cfg.bind.as_str()), (8080, "127.0.0.1"));
    assert!(!cfg.allow_config_api && !cfg.allow_control_commands && cfg.auth_token.is_none());
    assert_eq!((default_port(), default_bind().as_str()), (8080, "127.0.0.1"));
}

#[test]
fn configuration_is_accepted() {
    let cfg = apply_dashboard_patch(CfgDashboardDto {
        allow_config_api: true,
        ..dto(Some("  abcDEF0123-._~xyz\n"))
    })
    .ok()
    .unwrap();
    assert_eq!(cfg.auth_token.unwrap().expose(), "abcDEF0123-._~xyz");
    assert_eq!((cfg.port, cfg.bind.as_str()), (8080, "0.0.0.0"));
    assert!(cfg.allow_config_api && !cfg.allow_control_commands);
    assert!(apply_dashboard_patch(dto(Some("  "))).ok().unwrap().auth_token.is_none());
}

#[test]
fn configuration_is_refused() {
    let why = |src| apply_dashboard_patch(src).err().unwrap();
    assert_eq!(why(CfgDashboardDto { port: 0, ..dto(None) }), "dashboard: port cannot be 0");
    let token = "dashboard: auth_token must be at least 16 URL-safe characters (A-Z a-z 0-9 - . _ ~)";
    assert_eq!(why(dto(Some("0123456789abcde"))), token);
    assert_eq!(why(dto(Some("0123456789abcde/"))), token);
    assert_eq!(why(dto(Some("ééééééééééééééééé"))), token);
    let missing = "dashboard: allow_config_api/allow_control_commands requires auth_token";
    assert_eq!(why(CfgDashboardDto { allow_config_api: true, ..dto(None) }), missing);
    assert_eq!(why(CfgDashboardDto { allow_control_commands: true, ..dto(Some(" ")) }), missing);
}

#[test]
fn tokens_are_checked() {
    assert!(valid_token("0123456789abcdef") && !valid_token("0123456789abcde"));
    assert!(!valid_token("0123456789abcde f"));
    assert!(is_url_safe_token_char('~') && !is_url_safe_token_char('+'));
    assert_eq!(empty_to_none(" a ".to_string()).as_deref(), Some("a"));
    assert_eq!(empty_to_none(" ".to_string()), None);
}

fn strength(issi: u32, rssi_dbfs: i32) -> TelemetryEvent<i32> {
    TelemetryEvent::MsRssi { issi, rssi_dbfs, rssi_json: Value::from(rssi_dbfs) }
}

fn server() -> DashboardServer<i32> {
    DashboardServer::new("config.toml".to_string(), true, false, Some("t".to_string()))
}

#[test]
fn stations_are_followed() {
    let mut s = server();
    let then = Instant::now();
    let now = then + Duration::from_secs(1);
    let notice = s.handle_telemetry(&TelemetryEvent::MsRegistration { issi: 7 }, then);
    assert_eq!(notice.log.as_deref(), Some("MS 7 registered"));
    assert_eq!(notice.heard, None);
    assert_eq!(notice.message.as_deref(), Some("{\"issi\":7,\"type\":\"ms_registered\"}"));
    s.handle_telemetry(&TelemetryEvent::MsGroupAttach { issi: 7, gssis: vec![1, 2, 1] }, now);
    s.handle_telemetry(&TelemetryEvent::MsGroupAttach { issi: 7, gssis: vec![3, 2] }, now);
    s.handle_telemetry(&TelemetryEvent::MsGroupAttach { issi: 8, gssis: vec![3] }, now);
    assert_eq!(s.state.ms_map[&7].groups, vec![1, 2, 3]);
    s.handle_telemetry(&TelemetryEvent::MsGroupDetach { issi: 7, gssis: vec![2, 9] }, now);
    assert_eq!(s.state.ms_map[&7].groups, vec![1, 3]);
    s.handle_telemetry(&TelemetryEvent::MsGroupsSnapshot { issi: 7, gssis: vec![5, 5] }, now);
    assert_eq!(s.state.ms_map[&7].groups, vec![5, 5]);
    s.handle_telemetry(&TelemetryEvent::MsEnergySaving { issi: 7, mode: 3 }, now);
    let rssi = s.handle_telemetry(&strength(7, -40), now);
    assert!(rssi.log.is_none() && rssi.heard.is_none());
    assert_eq!(
        rssi.message.as_deref(),
        Some("{\"issi\":7,\"rssi_dbfs\":-40,\"type\":\"ms_rssi\"}")
    );
    let ms = &s.state.ms_map[&7];
    assert_eq!((ms.issi, ms.rssi_dbfs, ms.energy_saving_mode), (7, Some(-40), 3));
    assert_eq!((ms.registered_at, ms.last_seen), (then, now));
    assert_eq!(s.state.ms_map.len(), 1);
    let notice = s.handle_telemetry(&TelemetryEvent::MsDeregistration { issi: 7 }, now);
    assert_eq!(notice.log.as_deref(), Some("MS 7 deregistered"));
    assert!(s.state.ms_map.is_empty());
}

#[test]
fn group_calls_are_followed() {
    let mut s = server();
    let now = Instant::now();
    let start = TelemetryEvent::GroupCallStarted { call_id: 4, gssi: 91, caller_issi: 7 };
    let notice = s.handle_telemetry(&start, now);
    assert_eq!(notice.log.as_deref(), Some("Group call 4 started: 7 -> GSSI 91"));
    assert_eq!(
        notice.heard,
        Some(LastHeard { issi: 7, activity: Activity::CallGroup, dest: 91 })
    );
    let call = &s.state.calls[&4];
    assert!(call.is_group && !call.simplex);
    assert_eq!((call.call_id, call.gssi, call.caller_issi, call.called_issi), (4, 91, 7, 0));
    assert_eq!((call.speaker_issi, call.started_at), (Some(7), now));
    let change =
        TelemetryEvent::GroupCallSpeakerChanged { call_id: 4, gssi: 91, speaker_issi: 8 };
    let notice = s.handle_telemetry(&change, now);
    assert_eq!(notice.log, None);
    assert_eq!(notice.heard.unwrap().issi, 8);
    assert_eq!(s.state.calls[&4].speaker_issi, Some(8));
    let notice =
        s.handle_telemetry(&TelemetryEvent::GroupCallEnded { call_id: 4, gssi: 91 }, now);
    assert_eq!(notice.log.as_deref(), Some("Group call 4 ended"));
    assert!(s.state.calls.is_empty());
    s.handle_telemetry(&change, now);
    assert!(s.state.calls.is_empty());
}

#[test]
fn individual_calls_are_followed() {
    let mut s = server();
    let now = Instant::now();
    let start = TelemetryEvent::IndividualCallStarted {
        call_id: 5,
        calling_issi: 1,
        called_issi: 2,
        simplex: true,
    };
    let notice = s.handle_telemetry(&start, now);
    assert_eq!(notice.log.as_deref(), Some("P2P call 5 started: 1 -> 2"));
    assert_eq!(
        notice.heard,
        Some(LastHeard { issi: 1, activity: Activity::CallIndividual, dest: 2 })
    );
    let call = &s.state.calls[&5];
    assert!(!call.is_group && call.simplex && call.speaker_issi.is_none());
    let notice = s.handle_telemetry(&TelemetryEvent::IndividualCallEnded { call_id: 5 }, now);
    assert_eq!(notice.log.as_deref(), Some("P2P call 5 ended"));
    assert!(s.state.calls.is_empty());
    s.handle_telemetry(&TelemetryEvent::BrewConnected { connected: true }, now);
    assert!(s.state.brew_online);
    let sds = TelemetryEvent::SdsActivity { source_issi: 3, dest_issi: 4 };
    let notice = s.handle_telemetry(&sds, now);
    assert_eq!(notice.heard, Some(LastHeard { issi: 3, activity: Activity::Sds, dest: 4 }));
    assert_eq!(notice.log, None);
}

#[test]
fn events_have_messages() {
    let text = |event: TelemetryEvent<i32>| event_to_ws_msg(&event).unwrap();
    assert_eq!(
        text(TelemetryEvent::MsDeregistration { issi: 7 }),
        "{\"issi\":7,\"type\":\"ms_deregistered\"}"
    );
    assert_eq!(
        text(TelemetryEvent::MsGroupAttach { issi: 7, gssis: vec![1, 2] }),
        "{\"groups\":[1,2],\"issi\":7,\"type\":\"ms_groups\"}"
    );
    assert_eq!(
        text(TelemetryEvent::MsGroupDetach { issi: 7, gssis: vec![] }),
        "{\"groups\":[],\"issi\":7,\"type\":\"ms_groups_detach\"}"
    );
    assert_eq!(
        text(TelemetryEvent::MsGroupsSnapshot { issi: 7, gssis: vec![1] }),
        "{\"groups\":[1],\"issi\":7,\"type\":\"ms_groups_all\"}"
    );
    assert_eq!(
        text(TelemetryEvent::MsEnergySaving { issi: 7, mode: 1 }),
        "{\"issi\":7,\"mode\":1,\"type\":\"ms_energy_saving\"}"
    );
    assert_eq!(
        text(TelemetryEvent::GroupCallStarted { call_id: 4, gssi: 91, caller_issi: 7 }),
        "{\"call_id\":4,\"call_type\":\"group\",\"caller_issi\":7,\"gssi\":91,\
         \"last_heard\":{\"activity\":\"call_group\",\"dest\":91,\"issi\":7},\
         \"type\":\"call_started\"}"
    );
    assert_eq!(
        text(TelemetryEvent::GroupCallSpeakerChanged { call_id: 4, gssi: 91, speaker_issi: 8 }),
        "{\"call_id\":4,\"last_heard\":{\"activity\":\"call_group\",\"dest\":91,\"issi\":8},\
         \"speaker_issi\":8,\"type\":\"speaker_changed\"}"
    );
    assert_eq!(
        text(TelemetryEvent::IndividualCallStarted {
            call_id: 5,
            calling_issi: 1,
            called_issi: 2,
            simplex: false
        }),
        "{\"call_id\":5,\"call_type\":\"individual\",\"called_issi\":2,\"caller_issi\":1,\
         \"last_heard\":{\"activity\":\"call_individual\",\"dest\":2,\"issi\":1},\
         \"simplex\":false,\"type\":\"call_started\"}"
    );
    assert_eq!(
        text(TelemetryEvent::GroupCallEnded { call_id: 4, gssi: 91 }),
        "{\"call_id\":4,\"type\":\"call_ended\"}"
    );
    assert_eq!(
        text(TelemetryEvent::IndividualCallEnded { call_id: 65535 }),
        "{\"call_id\":65535,\"type\":\"call_ended\"}"
    );
    assert_eq!(
        text(TelemetryEvent::BrewConnected { connected: true }),
        "{\"connected\":true,\"type\":\"brew_status\"}"
    );
    assert_eq!(
        text(TelemetryEvent::SdsActivity { source_issi: 3, dest_issi: 4 }),
        "{\"activity\":\"sds\",\"dest\":4,\"issi\":3,\"type\":\"last_heard\"}"
    );
    let json = Value::from(-40.5);
    assert_eq!(
        text(TelemetryEvent::MsRssi { issi: 7, rssi_dbfs: 0, rssi_json: json }),
        "{\"issi\":7,\"rssi_dbfs\":-40.5,\"type\":\"ms_rssi\"}"
    );
    assert_eq!(
        text(TelemetryEvent::MsRssi { issi: 7, rssi_dbfs: 0, rssi_json: Value::Null }),
        "{\"issi\":7,\"rssi_dbfs\":null,\"type\":\"ms_rssi\"}"
    );
}

#[test]
fn browsers_get_a_snapshot_first() {
    let mut s = server();
    let list = |n: u64| Value::from(vec![n]);
    let text = "{\"brew_online\":true,\"calls\":[2],\"last_heard\":[4],\"log\":[3],\"ms\":[1],\
                \"type\":\"snapshot\"}";
    s.handle_telemetry(&TelemetryEvent::BrewConnected { connected: true }, Instant::now());
    assert_eq!(s.snapshot(&list(1), &list(2), &list(3), &list(4)).as_deref(), Some(text));
    let offline = snapshot_to_ws_msg(&list(1), &list(2), &list(3), false, &list(4)).unwrap();
    assert_eq!(offline, text.replace("true", "false"));
}

#[test]
fn log_entries_have_messages() {
    let text = "{\"level\":\"INFO\",\"msg\":\"a \\\"b\\\"\",\"ts\":\"12:00\",\"type\":\"log\"}";
    assert_eq!(log_to_ws_msg("12:00", "INFO", "a \"b\"").as_deref(), Some(text));
    assert_eq!(server().push_log("12:00", "INFO", "a \"b\"").as_deref(), Some(text));
}
