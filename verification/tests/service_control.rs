use flowstation::service_control::{
    failure_report, normalize_service_unit, output_error, resolve_service_unit,
    service_unit_from_cgroup_text, service_user, user_of_answer, ServiceAction, ServiceAttempt,
    ServiceProgress, DEFAULT_SERVICE_UNIT,
};

#[test]
fn finds_service_unit_in_cgroup_v2() {
    let text = "0::/system.slice/tetra-bluestation.service\n";
    assert_eq!(
        service_unit_from_cgroup_text(text).as_deref(),
        Some("tetra-bluestation.service")
    );
}

#[test]
fn normalizes_unit_without_suffix() {
    assert_eq!(
        normalize_service_unit("tetra-bluestation").as_deref(),
        Some("tetra-bluestation.service")
    );
}

#[test]
fn rejects_path_like_unit_names() {
    assert!(normalize_service_unit("../tetra").is_none());
}

#[test]
fn units_are_normalized() {
    assert_eq!(normalize_service_unit(" a.service\n").as_deref(), Some("a.service"));
    assert_eq!(normalize_service_unit("a@b:c\\d_e-f.1").as_deref(), Some("a@b:c\\d_e-f.1.service"));
    assert_eq!(normalize_service_unit(".service").as_deref(), Some(".service"));
    assert_eq!(normalize_service_unit("  "), None);
    assert_eq!(normalize_service_unit("a b"), None);
    assert_eq!(normalize_service_unit("a\0"), None);
    assert_eq!(normalize_service_unit("é"), None);
    let once = normalize_service_unit(" tetra ").unwrap();
    assert_eq!(normalize_service_unit(&once), Some(once));
}

#[test]
fn cgroup_lines_are_searched_in_order() {
    assert_eq!(
        service_unit_from_cgroup_text("1:/x\n0::/b d.service\n0::/a/c.service/e.service\n").as_deref(),
        Some("c.service")
    );
    assert_eq!(service_unit_from_cgroup_text("0::/user.slice\n"), None);
    assert_eq!(service_unit_from_cgroup_text(""), None);
}

#[test]
fn unit_is_resolved() {
    let listing = "0::/system.slice/b.service";
    assert_eq!(resolve_service_unit(Some("a"), Some(listing)), "a.service");
    assert_eq!(resolve_service_unit(Some("a/b"), Some(listing)), "b.service");
    assert_eq!(resolve_service_unit(None, Some(listing)), "b.service");
    assert_eq!(resolve_service_unit(Some(""), Some("0::/")), "tetra-bluestation.service");
    assert_eq!(resolve_service_unit(None, None), DEFAULT_SERVICE_UNIT);
}

#[test]
fn actions_have_names() {
    assert_eq!(ServiceAction::Restart.systemctl_verb(), "restart");
    assert_eq!(ServiceAction::Stop.systemctl_verb(), "stop");
    assert_eq!(ServiceAction::Restart.label(), "restart");
    assert_eq!(ServiceAction::Stop.label(), "shutdown");
}

#[test]
fn action_is_tried_twice() {
    let first = ServiceAttempt::Systemctl;
    let command = first.command(ServiceAction::Stop, "a.service");
    assert_eq!(command.program, "systemctl");
    assert_eq!(command.args, vec!["stop", "a.service"]);
    let second = match first.next(Err("denied".to_string())) {
        ServiceProgress::Retry(attempt) => attempt,
        ServiceProgress::Done(_) => panic!("no second attempt"),
    };
    let command = second.command(ServiceAction::Restart, "a.service");
    assert_eq!(command.program, "sudo");
    assert_eq!(command.args, vec!["-n", "systemctl", "restart", "a.service"]);
    match second.next(Err("no tty".to_string())) {
        ServiceProgress::Done(Err(text)) => {
            assert_eq!(text, "systemctl: denied; sudo -n: no tty")
        }
        _ => panic!("not done"),
    }
    assert!(matches!(
        ServiceAttempt::Systemctl.next(Ok(())),
        ServiceProgress::Done(Ok(()))
    ));
}

#[test]
fn program_output_is_reported() {
    assert_eq!(failure_report("exit status: 1", " bad \n", "x"), "exit status: 1: bad");
    assert_eq!(failure_report("exit status: 1", " \n", " x\n"), "exit status: 1: x");
    assert_eq!(failure_report("exit status: 1", "", ""), "exit status: 1");
    assert_eq!(user_of_answer(true, "\n").as_deref(), Some("root"));
    assert_eq!(user_of_answer(true, "tetra\n").as_deref(), Some("tetra"));
    assert_eq!(user_of_answer(false, "tetra\n"), None);
}

#[test]
fn program_output_is_read_from_bytes() {
    assert_eq!(output_error("exit status: 1", b" bad \n", b"x"), "exit status: 1: bad");
    assert_eq!(output_error("exit status: 1", b"", "\u{e9}\n".as_bytes()), "exit status: 1: \u{e9}");
    assert_eq!(output_error("exit status: 1", b"a\xffb", b""), "exit status: 1: a\u{fffd}b");
    assert_eq!(service_user(true, b"tetra\n").as_deref(), Some("tetra"));
    assert_eq!(service_user(true, b"").as_deref(), Some("root"));
    assert_eq!(service_user(false, b"tetra"), None);
}
