use flowstation::dashboard::change::{
    backup_name, body_step, checked_step, config_file_name, decoded_step, headers_step, saved_step,
    temporary_name, ChangeStep, SaveProgress, SaveStep,
};
use flowstation::dashboard::command::{
    command_action, handle_ws_command, ControlCommand, Effect, MAX_WS_COMMAND_BYTES,
};
use flowstation::dashboard::http::{
    change_refusal, config_refusal, document_response, ends_headers, handle_ws, http_response,
    is_authorized, read_http_headers, route, route_of_text, serve_config_get, serve_html,
    ws_refusal, ws_request_authorized, Document, HttpHeaders, Inbound, Reaction, Route,
};
use flowstation::dashboard::server::DashboardServer;
use flowstation::service_control::ServiceAction;

const TOKEN: &str = "0123456789abcdef-._~";

fn some(text: &str) -> Option<String> {
    Some(text.to_string())
}

#[test]
fn requests_are_routed() {
    assert_eq!(route_of_text("GET /ws?token=x HTTP/1.1\r\nHost: y\r\n"), Route::WebSocket);
    assert_eq!(route_of_text("GET /api/config HTTP/1.1\r\n"), Route::ReadConfig);
    assert_eq!(route_of_text("POST /api/config HTTP/1.1"), Route::WriteConfig);
    assert_eq!(route_of_text("GET / HTTP/1.1\r\nReferer: /ws\r\n"), Route::Page);
    assert_eq!(route_of_text("PUT /api/config HTTP/1.1"), Route::Page);
    assert_eq!(route_of_text(""), Route::Page);
}

#[test]
fn requests_are_routed_by_their_bytes() {
    assert_eq!(route(b"GET /ws HTTP/1.1\r\n"), Route::WebSocket);
    assert_eq!(route(b"\xff\xfePOST /api/config\xc3"), Route::WriteConfig);
    assert_eq!(route("GET /api/config?é".as_bytes()), Route::ReadConfig);
    assert_eq!(route(b"GET /\xffws"), Route::Page);
    assert_eq!(route(b""), Route::Page);
}

fn headers(lines: &[&str]) -> HttpHeaders {
    read_http_headers(&lines.iter().map(|l| l.to_string()).collect())
}

#[test]
fn headers_are_read() {
    let h = headers(&[
        "POST /api/config HTTP/1.1\r\n",
        "CONTENT-Length : 42\r\n",
        "x-dashboard-token:  secret \r\n",
        "\r\n",
        "Content-Length: 7\r\n",
    ]);
    assert_eq!((h.content_length, h.token.as_deref()), (42, Some("secret")));
    let h = headers(&["Authorization: Bearer  abc \n", "\n"]);
    assert_eq!((h.content_length, h.token.as_deref()), (0, Some("abc")));
    let h = headers(&["Authorization: Basic abc\r\n", "Content-Length: x\r\n", "broken\r\n", ""]);
    assert_eq!((h.content_length, h.token), (0, None));
    let h = headers(&["Content-Length: 99999999999999999999\r\n"]);
    assert_eq!(h.content_length, 0);
    assert!(ends_headers("") && ends_headers("\n") && ends_headers("\r\n"));
    assert!(!ends_headers(" \r\n"));
}

#[test]
fn valid_tokens_are_understood() {
    let line = format!("Authorization: Bearer {}\r\n", TOKEN);
    assert_eq!(headers(&[&line]).token.as_deref(), Some(TOKEN));
    let line = format!("X-Dashboard-Token: {}\r\n", TOKEN);
    assert_eq!(headers(&[&line]).token.as_deref(), Some(TOKEN));
    let query = format!("token={}", TOKEN);
    assert!(ws_request_authorized(Some(&query), Some(TOKEN)));
}

#[test]
fn tokens_give_access() {
    assert!(is_authorized(&None, &None) && is_authorized(&some("x"), &None));
    assert!(is_authorized(&some("x"), &some("x")));
    assert!(!is_authorized(&some("y"), &some("x")) && !is_authorized(&None, &some("x")));
    assert!(ws_request_authorized(None, None));
    assert!(!ws_request_authorized(None, Some("x")));
    assert!(ws_request_authorized(Some("a=b&token=x"), Some("x")));
    assert!(!ws_request_authorized(Some("token=xy&tokens=x&token"), Some("x")));
    assert!(ws_request_authorized(Some("token=a=b"), Some("a=b")));
    assert_eq!(ws_refusal(None, Some("x")), Some("401 Unauthorized"));
    assert_eq!(ws_refusal(Some("token=x"), Some("x")), None);
}

#[test]
fn configuration_access_is_refused() {
    let refusal = |allowed, given: Option<String>| {
        config_refusal(allowed, &given, &some("x")).map(|r| (r.code, r.body))
    };
    assert_eq!(refusal(false, some("x")), Some((403, "dashboard config API disabled".to_string())));
    assert_eq!(refusal(true, None), Some((401, "dashboard auth required".to_string())));
    assert_eq!(refusal(true, some("x")), None);
    let change = |content_length| {
        let h = HttpHeaders { content_length, token: some("x") };
        change_refusal(true, &h, &some("x")).map(|r| (r.code, r.body))
    };
    let too_long = Some((413, "invalid config body size".to_string()));
    assert_eq!(change(0), too_long);
    assert_eq!(change(262_145), too_long);
    assert_eq!(change(262_144), None);
    let h = HttpHeaders { content_length: 0, token: None };
    assert_eq!(change_refusal(true, &h, &some("x")).unwrap().code, 401);
    assert_eq!(change_refusal(false, &h, &some("x")).unwrap().code, 403);
}

#[test]
fn server_refuses_by_its_settings() {
    let s: DashboardServer<u8> = DashboardServer::new("c".to_string(), true, true, some("x"));
    let h = HttpHeaders { content_length: 5, token: some("x") };
    assert!(s.read_refusal(&h).is_none());
    assert!(matches!(s.change_step(&h), ChangeStep::Read(5)));
    assert_eq!(s.connection_refusal(Some("token=y")), Some("401 Unauthorized"));
    let open: DashboardServer<u8> = DashboardServer::new("c".to_string(), false, false, None);
    assert_eq!(open.read_refusal(&h).unwrap().code, 403);
    assert_eq!(told(open.change_step(&h)), "403 dashboard config API disabled");
    assert_eq!(open.connection_refusal(None), None);
}

fn told(step: ChangeStep) -> String {
    match step {
        ChangeStep::Reply(reply) => format!("{} {}", reply.code, reply.body),
        ChangeStep::Read(n) => format!("read {}", n),
        ChangeStep::Check(text) => format!("check {}", text),
        ChangeStep::Save(text) => format!("save {}", text),
    }
}

fn failed<T>() -> Result<T, String> {
    Err("e".to_string())
}

#[test]
fn changes_go_step_by_step() {
    let h = HttpHeaders { content_length: 7, token: some("x") };
    assert_eq!(told(headers_step(true, &h, &some("x"))), "read 7");
    assert_eq!(told(headers_step(true, &h, &some("y"))), "401 dashboard auth required");
    assert_eq!(told(body_step(Ok("a = 'é'".as_bytes().to_vec()))), "check a = 'é'");
    assert_eq!(told(body_step(failed())), "400 failed reading request body: e");
    assert_eq!(told(decoded_step(Ok("a".to_string()))), "check a");
    assert_eq!(told(decoded_step(failed())), "400 config must be UTF-8: e");
    assert_eq!(told(checked_step("a".to_string(), Ok(()))), "save a");
    assert_eq!(told(checked_step("a".to_string(), failed())), "400 invalid config: e");
    assert_eq!(told(ChangeStep::Reply(saved_step(Ok(())))), "200 OK");
    assert_eq!(told(ChangeStep::Reply(saved_step(failed()))), "500 e");
}

#[test]
fn body_must_be_utf8() {
    for body in [&b"a\xff"[..], &b"\xc3"[..], &b"\xed\xa0\x80"[..], &b"\xc0\x80"[..]] {
        let step = told(body_step(Ok(body.to_vec())));
        let words = String::from_utf8(body.to_vec()).unwrap_err().to_string();
        assert_eq!(step, format!("400 config must be UTF-8: {}", words));
    }
    assert_eq!(told(body_step(Ok(Vec::new()))), "check ");
}

#[test]
fn accepted_body_is_saved_unchanged() {
    let body = "a = \"\u{1f4e1}\"\r\n".as_bytes().to_vec();
    let ChangeStep::Check(text) = body_step(Ok(body.clone())) else { panic!("not checked") };
    let ChangeStep::Save(kept) = checked_step(text, Ok(())) else { panic!("not saved") };
    assert_eq!(kept.as_bytes(), &body[..]);
}

#[test]
fn replies_have_texts() {
    assert_eq!(
        http_response(200, "OK"),
        "HTTP/1.1 200 OK\r\nContent-Type: text/plain\r\nContent-Length: 2\r\nConnection: close\r\n\r\nOK"
    );
    assert_eq!(
        http_response(401, "é"),
        "HTTP/1.1 401 Error\r\nContent-Type: text/plain\r\nContent-Length: 2\r\nConnection: close\r\n\r\né"
    );
    assert_eq!(
        document_response(Document::Config, "a"),
        "HTTP/1.1 200 OK\r\nContent-Type: text/plain; charset=utf-8\r\nContent-Length: 1\r\nConnection: close\r\n\r\na"
    );
    assert_eq!(
        serve_html("<p>{{STACK_VERSION}}</p>", "1.2"),
        "HTTP/1.1 200 OK\r\nContent-Type: text/html; charset=utf-8\r\nContent-Length: 10\r\nConnection: close\r\n\r\n<p>1.2</p>"
    );
    assert_eq!(serve_config_get(Ok("a".to_string())), document_response(Document::Config, "a"));
    assert_eq!(serve_config_get(Err("gone".to_string())), http_response(500, "gone"));
}

/// The steps that are taken where those in `failing` fail, and how saving ends.
fn save(present: bool, failing: &[SaveStep]) -> (Vec<SaveStep>, Result<(), String>) {
    let mut step = SaveStep::first();
    let mut taken = Vec::new();
    loop {
        taken.push(step);
        let done = if failing.contains(&step) { failed() } else { Ok(()) };
        match step.next(present, done) {
            SaveProgress::Next(next) => step = next,
            SaveProgress::Ended(end) => return (taken, end),
        }
    }
}

#[test]
fn configuration_is_saved_step_by_step() {
    let all = vec![
        SaveStep::WriteTemporary,
        SaveStep::SyncTemporary,
        SaveStep::Backup,
        SaveStep::Rename,
        SaveStep::SyncDirectory,
    ];
    assert_eq!(save(true, &[]), (all.clone(), Ok(())));
    assert_eq!(save(true, &[SaveStep::Backup, SaveStep::SyncDirectory]), (all.clone(), Ok(())));
    let without: Vec<SaveStep> = all.iter().copied().filter(|s| *s != SaveStep::Backup).collect();
    assert_eq!(save(false, &[]), (without, Ok(())));
    assert_eq!(save(true, &[SaveStep::WriteTemporary]), (all[..1].to_vec(), failed()));
    assert_eq!(save(true, &[SaveStep::SyncTemporary]), (all[..2].to_vec(), failed()));
    assert_eq!(save(true, &[SaveStep::Rename]), (all[..4].to_vec(), failed()));
}

#[test]
fn files_have_names() {
    assert_eq!(config_file_name(None), "config.toml");
    assert_eq!(config_file_name(Some("a.toml")), "a.toml");
    assert_eq!(temporary_name("a.toml", 12, 345), ".a.toml.tmp.12.345");
    assert_ne!(temporary_name("a", 1, 23), temporary_name("a", 12, 3));
    assert_eq!(backup_name("a.toml"), "a.toml.bak");
}

#[test]
fn messages_are_handled() {
    assert_eq!(handle_ws(Inbound::Text, true), Reaction::Command);
    assert_eq!(handle_ws(Inbound::Text, false), Reaction::Ignore);
    assert_eq!(handle_ws(Inbound::Ping, false), Reaction::Pong);
    assert_eq!(handle_ws(Inbound::Close, true), Reaction::End);
    assert_eq!(handle_ws(Inbound::Failed, true), Reaction::End);
    assert_eq!(handle_ws(Inbound::Other, true), Reaction::Ignore);
    assert_eq!(handle_ws(Inbound::Nothing, true), Reaction::Ignore);
}

#[test]
fn stations_are_kicked() {
    let action = handle_ws_command("{\"type\":\"kick\",\"issi\":16777215}").unwrap();
    assert!(matches!(
        action.effect,
        Effect::Command(ControlCommand::KickMs { issi: 16777215 })
    ));
    assert_eq!(action.log, "Kick requested for ISSI 16777215");
    for text in [
        "{\"type\":\"kick\",\"issi\":0}",
        "{\"type\":\"kick\",\"issi\":16777216}",
        "{\"type\":\"kick\",\"issi\":-1}",
        "{\"type\":\"kick\",\"issi\":1.0}",
        "{\"type\":\"kick\",\"issi\":\"1\"}",
        "{\"type\":\"kick\"}",
    ] {
        assert!(handle_ws_command(text).is_none(), "{}", text);
    }
}

#[test]
fn short_messages_are_sent() {
    let action =
        handle_ws_command("{\"type\":\"sds\",\"dest_issi\":5,\"message\":\"h\\u00e9\"}").unwrap();
    assert_eq!(action.log, "SDS sent to 5: hé");
    match action.effect {
        Effect::Command(ControlCommand::SendSds {
            handle,
            source_ssi,
            dest_ssi,
            dest_is_group,
            len_bits,
            payload,
        }) => {
            assert_eq!((handle, source_ssi, dest_ssi, dest_is_group), (0, 9999, 5, false));
            assert_eq!((len_bits, payload), (24, "hé".as_bytes().to_vec()));
        }
        _ => panic!("another effect"),
    }
    let sds = |n: usize| {
        let text = "x".repeat(n);
        handle_ws_command(&format!(
            "{{\"type\":\"sds\",\"dest_issi\":5,\"message\":\"{}\"}}",
            text
        ))
    };
    assert!(sds(140).is_some() && sds(141).is_none() && sds(0).is_none());
    assert!(handle_ws_command("{\"type\":\"sds\",\"message\":\"x\"}").is_none());
    assert!(handle_ws_command("{\"type\":\"sds\",\"dest_issi\":5}").is_none());
    assert!(handle_ws_command("{\"type\":\"sds\",\"dest_issi\":0,\"message\":\"x\"}").is_none());
}

#[test]
fn service_is_controlled() {
    let action = handle_ws_command("{\"type\":\"restart\"}").unwrap();
    assert!(matches!(action.effect, Effect::Service(ServiceAction::Restart)));
    assert_eq!(action.log, "Service restart requested");
    let action = handle_ws_command("{\"type\":\"shutdown\",\"issi\":0}").unwrap();
    assert!(matches!(action.effect, Effect::Service(ServiceAction::Stop)));
    assert_eq!(action.log, "Service shutdown requested");
}

#[test]
fn other_commands_are_dropped() {
    for text in [
        "{\"type\":\"Restart\"}",
        "{\"type\":\"stop\"}",
        "{\"type\":7}",
        "{}",
        "[1]",
        "null",
        "{\"type\":\"kick\",\"issi\":1",
        "",
    ] {
        assert!(handle_ws_command(text).is_none(), "{}", text);
    }
    let mut long = "{\"type\":\"kick\",\"issi\":1}".to_string();
    while long.len() < MAX_WS_COMMAND_BYTES {
        long.push(' ');
    }
    assert!(handle_ws_command(&long).is_some());
    long.push(' ');
    assert!(handle_ws_command(&long).is_none());
}

#[test]
fn commands_act_on_their_fields() {
    assert!(command_action(None, Some(1), Some(1), some("x")).is_none());
    assert!(command_action(some("kick"), None, Some(1), some("x")).is_none());
    assert_eq!(
        command_action(some("kick"), Some(3), None, None).unwrap().log,
        "Kick requested for ISSI 3"
    );
    assert_eq!(
        command_action(some("sds"), None, Some(4), some("x")).unwrap().log,
        "SDS sent to 4: x"
    );
    assert!(matches!(
        command_action(some("restart"), Some(1), Some(1), some("x")).unwrap().effect,
        Effect::Service(ServiceAction::Restart)
    ));
    assert!(command_action(some("other"), Some(1), Some(1), some("x")).is_none());
}
