use shellfleet::api_v1::get_agent;
use shellfleet::access::AgentAccess;
use shellfleet::agent_dispatch::Sent;
use shellfleet::agent_reports::{backup_report, probe_id, probe_transition, upgrade_report};
use shellfleet::db::HealthProbeRow;
use shellfleet::ee_recording::{b64, enabled, recording_url, OpenSessions, Recorder, Tap};
use shellfleet::fan_out::{attribution, check_create, create_audit, mark, message_for, payload};
use shellfleet::health::{
    check_upsert, default_interval, default_timeout, deleted, parse_kind, probes_to_push, row_to_spec, row_with_id,
    snapshot, stored_env, stored_secs, to_out, upsert_audit,
};
use shellfleet::hub::{AppState, DisconnectState, Return, UiClient};
use shellfleet::message::{DockerContainer, HealthProbeKind, HealthProbeResult, HealthProbeState, Message};
use shellfleet::notifications::{delete_reply, list_limit, mark_read_reply, only_unread};
use shellfleet::probe_library::catalog;
use shellfleet::ui_gate::{RequestSecurity, UiRequest, UiStep};
use shellfleet::ee::Approval;

fn strings(list: &[&str]) -> Vec<String> {
    list.iter().map(|s| s.to_string()).collect()
}

fn client(access: AgentAccess) -> UiClient {
    UiClient { login: "ada".into(), client_ip: "192.0.2.1".into(), agent_access: access }
}

fn probe(id: i64, agent: &str, enabled: i64, state: Option<&str>) -> HealthProbeRow {
    HealthProbeRow {
        id,
        agent_id: agent.into(),
        name: "disk".into(),
        kind: "exec".into(),
        target: "disk-usage.sh".into(),
        interval_secs: 0,
        timeout_secs: 7,
        expect_status: Some(200),
        expect_body: None,
        enabled,
        last_run_at: 0,
        last_state: state.map(String::from),
        last_latency_ms: None,
        last_detail: None,
        updated_at: 0,
        env_json: "[\"A=1\"]".into(),
    }
}

#[test]
fn an_agent_registers_and_leaves() {
    let mut s = AppState::new();
    let r = s.register(1, "web", 18, strings(&["docker"]));
    assert_eq!(r.agent_id, "web-id");
    assert_eq!(r.back, Return::Quiet);
    assert_eq!(r.audit.detail.as_deref(), Some("protocol_version=18"));
    assert_eq!(s.connection_of("web-id"), Some(1));
    assert!(!s.update_capabilities("web-id", strings(&["docker"])));
    assert!(s.update_capabilities("web-id", strings(&["docker", "k8s"])));
    assert!(!s.update_capabilities("db-id", strings(&["docker"])));
    assert!(s.close(1, "web-id", 7));
    assert_eq!(s.connection_of("web-id"), None);
}

#[test]
fn the_end_of_an_older_connection_changes_nothing() {
    let mut s = AppState::new();
    s.register(1, "web", 18, vec![]);
    s.register(2, "web", 18, vec![]);
    assert!(!s.close(1, "web-id", 7));
    assert_eq!(s.connection_of("web-id"), Some(2));
}

#[test]
fn short_absences_are_not_told() {
    let mut s = AppState::new();
    s.register(1, "web", 18, vec![]);
    assert!(s.close(1, "web-id", 7));
    assert_eq!(s.register(2, "web", 18, vec![]).back, Return::InTime { timer: 7 });
    assert!(!s.grace_elapsed("web-id", 100));
    assert!(s.close(2, "web-id", 8));
    assert!(s.grace_elapsed("web-id", 100));
    assert!(!s.grace_elapsed("web-id", 101));
    assert_eq!(s.register(3, "web", 18, vec![]).back, Return::Announced);
    assert_eq!(s.register(3, "web", 18, vec![]).back, Return::Quiet);
}

#[test]
fn agents_that_stay_away_are_told_of_again() {
    let mut s = AppState::new();
    s.disconnect_states.insert("a".into(), DisconnectState::Confirmed { since: 0, last_alert: 0 });
    s.disconnect_states.insert("b".into(), DisconnectState::Confirmed { since: 5, last_alert: 50 });
    s.disconnect_states.insert("c".into(), DisconnectState::Pending(1));
    assert_eq!(s.due_alerts(100, 60), vec![("a".to_string(), 100)]);
    assert_eq!(s.due_alerts(100, 60), vec![]);
    assert_eq!(s.due_alerts(110, 60), vec![("b".to_string(), 105)]);
}

#[test]
fn users_see_the_agents_they_may_see() {
    let mut s = AppState::new();
    s.register(1, "web", 18, strings(&["docker"]));
    s.register(2, "db", 18, vec![]);
    let seen = s.agent_list(&AgentAccess::restricted(&strings(&["web-id"])));
    assert_eq!(seen.len(), 1);
    assert_eq!(seen[0].agent_id, "web-id");
    assert_eq!(seen[0].capabilities, strings(&["docker"]));
    assert_eq!(s.agent_list(&AgentAccess::Unrestricted).len(), 2);
    assert!(s.agent_list(&AgentAccess::nothing()).is_empty());
    let web = get_agent(&s, &AgentAccess::restricted(&strings(&["web-id"])), "web").unwrap();
    assert_eq!(web.agent_id, "web-id");
    assert_eq!(web.capabilities, seen[0].capabilities);
    for (access, name) in [(AgentAccess::nothing(), "web"), (AgentAccess::Unrestricted, "mail")] {
        let told = get_agent(&s, &access, name).err().unwrap();
        assert_eq!((told.status, told.body.as_str()), (404, "agent not found"));
    }
}

#[test]
fn messages_go_to_those_who_may_see_the_agent() {
    let mut s = AppState::new();
    s.join(1, client(AgentAccess::Unrestricted));
    s.join(2, client(AgentAccess::nothing()));
    let m = Message::Other { kind: "X".into(), body: "{}".into() };
    assert_eq!(s.receive("web-id", &m).recipients, vec![1]);
    s.merge_access(2, "web-id", &AgentAccess::restricted(&strings(&["web-id"])));
    let mut got = s.receive("web-id", &m).recipients;
    got.sort();
    assert_eq!(got, vec![1, 2]);
    s.set_access(1, AgentAccess::nothing());
    assert_eq!(s.receive("web-id", &m).recipients, vec![2]);
    s.drop_client(2);
    assert!(s.receive("web-id", &m).recipients.is_empty());
}

#[test]
fn output_goes_to_the_owner_of_its_operation() {
    let mut s = AppState::new();
    s.join(1, client(AgentAccess::Unrestricted));
    s.join(2, client(AgentAccess::Unrestricted));
    let start = Message::StartTerminalRequest { session_id: "t".into() };
    let data = Message::TerminalData { session_id: "t".into(), data: vec![1] };
    assert!(s.claim_operation(1, "web-id", &start));
    assert!(!s.claim_operation(2, "web-id", &start));
    assert!(!s.claim_operation(2, "web-id", &data));
    assert!(s.claim_operation(2, "web-id", &Message::AptStatusRequest));
    assert_eq!(s.receive("web-id", &data).recipients, vec![1]);
    assert!(s.receive("db-id", &data).recipients.is_empty());
    s.leave(1);
    assert!(s.receive("web-id", &data).recipients.is_empty());
    assert!(s.claim_operation(2, "web-id", &start));
}

#[test]
fn answers_find_who_waits_for_them() {
    let mut s = AppState::new();
    s.pending_backup_lists.push("web-id", 1);
    s.pending_backup_lists.push("web-id", 2);
    s.pending_backup_restores.push("web-id", 3);
    let list = Message::BackupListArchivesResponse { body: "{}".into() };
    let restore = Message::BackupRestoreResponse { body: "{}".into() };
    assert_eq!(s.receive("web-id", &list).waiter, Some(1));
    assert_eq!(s.receive("db-id", &list).waiter, None);
    assert_eq!(s.receive("web-id", &restore).waiter, Some(3));
    assert_eq!(s.receive("web-id", &list).waiter, Some(2));
    assert_eq!(s.receive("web-id", &list).waiter, None);

    s.pending_exec.enter("r", "web-id", true, "uptime", 5).unwrap();
    let answer = Message::RunCommandResponse {
        request_id: "r".into(),
        exit_code: 0,
        stdout: String::new(),
        stderr: String::new(),
        error: None,
        truncated: false,
        timed_out: false,
        duration_ms: 1,
    };
    s.join(9, client(AgentAccess::Unrestricted));
    assert!(!s.receive("db-id", &answer).answers_command);
    let got = s.receive("web-id", &answer);
    assert!(got.answers_command);
    assert!(got.recipients.is_empty());

    let report = Message::AptUpgradeResponse { success: true, log: String::new(), error: None };
    assert!(!s.receive("web-id", &report).reports_upgrade);
    s.scheduled_apt_runs.start("web-id");
    assert!(s.receive("web-id", &report).reports_upgrade);
    assert!(!s.receive("web-id", &report).reports_upgrade);
}

#[test]
fn base64_matches_known_vectors() {
    assert_eq!(b64(b""), "");
    assert_eq!(b64(b"f"), "Zg==");
    assert_eq!(b64(b"fo"), "Zm8=");
    assert_eq!(b64(b"foo"), "Zm9v");
    assert_eq!(b64(b"foob"), "Zm9vYg==");
    assert_eq!(b64(b"hello world"), "aGVsbG8gd29ybGQ=");
}

#[test]
fn base64_uses_the_whole_alphabet() {
    let all: Vec<u8> = (0..=255u8).collect();
    assert_eq!(b64(&all), data_encoding::BASE64.encode(&all));
}

#[test]
fn sessions_are_recorded_from_start_to_stop() {
    assert!(enabled(true, " Yes "));
    assert!(!enabled(false, "yes"));
    assert!(!enabled(true, ""));
    assert_eq!(recording_url("https://ee//", "start"), "https://ee/internal/recording/start");
    let mut recorder = Recorder::default();
    let mut open = OpenSessions::new();
    let start = Message::StartTerminalRequest { session_id: "t".into() };
    let data = Message::TerminalData { session_id: "t".into(), data: vec![] };
    let stop = Message::StopTerminalRequest { session_id: "t".into() };
    assert_eq!(open.tap(&mut recorder, false, &start), Tap::Nothing);
    assert_eq!(open.tap(&mut recorder, true, &data), Tap::Nothing);
    assert_eq!(open.tap(&mut recorder, true, &start), Tap::Start);
    assert_eq!(open.tap(&mut recorder, true, &start), Tap::Nothing);
    assert_eq!(open.tap(&mut recorder, true, &data), Tap::Frame);
    assert_eq!(open.tap(&mut recorder, true, &stop), Tap::Stop);
    assert_eq!(open.tap(&mut recorder, true, &stop), Tap::Nothing);
    let nameless = Message::StartTerminalRequest { session_id: String::new() };
    assert_eq!(open.tap(&mut recorder, true, &nameless), Tap::Nothing);
    assert_eq!(open.tap(&mut recorder, true, &start), Tap::Start);
    assert!(recorder.start(true, "other"));
    assert_eq!(open.close(&mut recorder), strings(&["t"]));
    assert!(!recorder.frame("t"));
    assert!(recorder.frame("other"));
}

#[test]
fn probes_are_checked_before_they_are_stored() {
    assert_eq!(parse_kind("http"), Some(HealthProbeKind::Http));
    assert_eq!(parse_kind("HTTP"), None);
    assert_eq!(check_upsert("icmp", "n", "t").unwrap().body, "kind must be http, tcp, or exec");
    assert_eq!(check_upsert("tcp", "", "t").unwrap().body, "name required");
    assert_eq!(check_upsert("tcp", "n", "").unwrap().body, "target required");
    assert!(check_upsert("tcp", "n", "t").is_none());
    assert_eq!((default_interval(), default_timeout()), (30, 5));
    assert_eq!((stored_secs(-3), stored_secs(9)), (1, 9));
    assert_eq!(stored_env(&strings(&["A=1", "B=\"x\""])), "[\"A=1\",\"B=\\\"x\\\"\"]");
    assert_eq!(
        upsert_audit("ada", "web-id", "n", "tcp", "t").detail.as_deref(),
        Some("name=n kind=tcp target=t")
    );
    assert_eq!(deleted("ada", &None).0.status, 404);
    let gone = deleted("ada", &Some(("web-id".to_string(), "n".to_string())));
    assert_eq!(gone.1.unwrap().detail.as_deref(), Some("name=n"));
}

#[test]
fn agents_get_their_enabled_probes() {
    let mut odd = probe(3, "web-id", 1, None);
    odd.kind = "icmp".into();
    let rows = [probe(1, "web-id", 1, None), probe(2, "web-id", 0, None), odd];
    let specs = probes_to_push(&rows);
    assert_eq!(specs.len(), 1);
    assert_eq!(specs[0].id, "1");
    assert_eq!(specs[0].interval_secs, 1);
    assert_eq!(specs[0].timeout_secs, 7);
    assert_eq!(specs[0].expect_status, Some(200));
    assert_eq!(specs[0].env, strings(&["A=1"]));
    assert_eq!(row_with_id(&rows, 2), Some(1));
    assert_eq!(row_with_id(&rows, 9), None);
    let mut broken = probe(4, "web-id", 1, None);
    broken.env_json = "nonsense".into();
    broken.expect_status = Some(65_736);
    let spec = row_to_spec(&broken).unwrap();
    assert!(spec.env.is_empty());
    assert_eq!(spec.expect_status, Some(200));
    assert!(to_out(broken).env.is_empty());
    assert!(!to_out(probe(2, "web-id", 0, None)).enabled);
}

#[test]
fn snapshots_count_by_agent() {
    let rows = [
        probe(1, "web-id", 1, Some("green")),
        probe(2, "db-id", 1, Some("red")),
        probe(3, "web-id", 1, Some("red")),
        probe(4, "web-id", 1, None),
        probe(5, "web-id", 0, Some("red")),
        probe(6, "app-id", 0, Some("red")),
    ];
    let got: Vec<(String, u32, u32, u32, u32)> = snapshot(&rows)
        .into_iter()
        .map(|s| (s.agent_id, s.total, s.green, s.red, s.unknown))
        .collect();
    assert_eq!(got, vec![("db-id".to_string(), 1, 0, 1, 0), ("web-id".to_string(), 3, 1, 1, 1)]);
}

fn result(state: HealthProbeState) -> HealthProbeResult {
    HealthProbeResult { id: "7".into(), state, at: 5, latency_ms: 3, detail: "93%".into() }
}

#[test]
fn probe_changes_are_told() {
    let red = result(HealthProbeState::Red);
    let green = result(HealthProbeState::Green);
    assert_eq!(probe_id(&red), Some(7));
    assert!(probe_transition("web-id", 7, &red, Some("red"), 1).is_none());
    let t = probe_transition("web-id", 7, &red, Some("green"), 1).unwrap();
    assert_eq!(t.audit.kind, "health_probe.red");
    assert!(!t.audit.ok);
    assert_eq!(t.audit.detail.as_deref(), Some("id=7 93%"));
    let (notice, event) = t.alert.unwrap();
    assert_eq!(notice.title, "health probe #7 on web → red");
    assert_eq!(notice.level, "error");
    assert_eq!(event.headline, "sys-manager health probe `#7`");
    let first = probe_transition("web-id", 7, &green, None, 1).unwrap();
    assert!(first.alert.is_none());
    assert!(probe_transition("web-id", 7, &red, None, 1).unwrap().alert.is_some());
}

#[test]
fn backup_reports_are_told() {
    let m = |id: &str, success: bool, error: Option<&str>| Message::BackupRunResponse {
        id: id.into(),
        name: "etc".into(),
        success,
        archive_path: "/b/etc.tar".into(),
        bytes: 12,
        log: "log".into(),
        error: error.map(String::from),
    };
    let (job, good) = backup_report("web-id", &m("4", true, None), 9).unwrap();
    assert_eq!(job, 4);
    assert_eq!(good.status, "success");
    assert_eq!(good.notice.title, "backup 'etc' on web → success");
    assert_eq!(good.notice.body.as_deref(), Some("12 bytes → /b/etc.tar"));
    assert_eq!(good.audit.detail.as_deref(), Some("name=etc bytes=12 archive=/b/etc.tar"));
    assert_eq!(good.event.log, "12 bytes → /b/etc.tar");
    let (_, bad) = backup_report("web-id", &m("4", false, Some("disk full")), 9).unwrap();
    assert_eq!(bad.log, "log\n[error] disk full");
    assert_eq!(bad.event.log, "log\n[error] disk full");
    assert_eq!(bad.notice.body.as_deref(), Some("disk full"));
    assert!(backup_report("web-id", &m("four", true, None), 9).is_none());
    assert!(backup_report("web-id", &Message::Ping, 9).is_none());
}

#[test]
fn upgrade_reports_are_told() {
    let r = upgrade_report("web-id", false, "a\nb", &Some("boom".to_string()), 9);
    assert_eq!(r.status, "failed");
    assert_eq!(r.log, "a\nb\n[error] boom");
    assert_eq!(r.notice.title, "apt upgrade on web → failed");
    assert_eq!(r.notice.body.as_deref(), Some("a\nb\n[error] boom"));
    assert_eq!(r.audit.detail.as_deref(), Some("boom"));
    let quiet = upgrade_report("web-id", true, "", &None, 9);
    assert_eq!(quiet.notice.body, None);
    assert_eq!(quiet.notice.level, "info");
}

#[test]
fn runs_go_to_several_agents() {
    assert_eq!(message_for("apt-status", None), Some(Message::AptStatusRequest));
    assert_eq!(
        message_for("apt-upgrade", Some("curl".into())),
        Some(Message::AptUpgradeRequest { package: Some("curl".into()) })
    );
    assert_eq!(message_for("docker-list", None), Some(Message::DockerListRequest));
    assert_eq!(message_for("reboot", None), None);
    assert_eq!(check_create("reboot", 1).unwrap().body, "unsupported kind");
    assert_eq!(check_create("apt-status", 0).unwrap().status, 400);
    assert!(check_create("apt-status", 1).is_none());
    assert_eq!(payload(&Some("curl".into())).as_deref(), Some("{\"package\":\"curl\"}"));
    assert_eq!(
        create_audit("ada", "apt-status", 2, &Some("we\"b".into())).detail.as_deref(),
        Some("kind=apt-status agents=2 label=\"we\\\"b\"")
    );
    assert_eq!(mark(Sent::Queued).status, "pending");
    assert_eq!(mark(Sent::Offline).detail.as_deref(), Some("agent not connected"));
    assert_eq!(mark(Sent::Failed).detail.as_deref(), Some("send failed"));
    assert!(!mark(Sent::Queued).finished);
}

#[test]
fn answers_are_taken_as_results() {
    let r = attribution(&Message::AptStatusResponse {
        available: true,
        upgradable: strings(&["a", "b"]),
        error: None,
    })
    .unwrap();
    assert_eq!((r.kind.as_str(), r.status.as_str(), r.detail.as_str()), ("apt-status", "success", "2 upgradable"));
    let r = attribution(&Message::AptStatusResponse { available: false, upgradable: vec![], error: None }).unwrap();
    assert_eq!((r.status.as_str(), r.detail.as_str()), ("failed", "apt unavailable"));
    let r = attribution(&Message::AptUpgradeResponse {
        success: true,
        log: "one\ntwo\nthree\nfour".into(),
        error: None,
    })
    .unwrap();
    assert_eq!(r.detail, "four | three | two");
    let r = attribution(&Message::AptUpgradeResponse { success: true, log: String::new(), error: None }).unwrap();
    assert_eq!(r.detail, "ok");
    let container = |state: &str| DockerContainer { name: "c".into(), state: state.into() };
    let r = attribution(&Message::DockerListResponse {
        available: true,
        swarm_role: "Manager".into(),
        containers: vec![container("running"), container("exited")],
        error: None,
    })
    .unwrap();
    assert_eq!(r.detail, "1/2 running (Manager)");
    let r = attribution(&Message::DockerListResponse {
        available: true,
        swarm_role: "Manager".into(),
        containers: vec![],
        error: Some("denied".into()),
    })
    .unwrap();
    assert_eq!((r.status.as_str(), r.detail.as_str()), ("failed", "error: denied"));
    assert!(attribution(&Message::Pong).is_none());
}

#[test]
fn the_inbox_answers() {
    assert_eq!((list_limit(None), list_limit(Some(0)), list_limit(Some(9999))), (100, 1, 500));
    assert!(only_unread(Some(true)));
    assert!(!only_unread(None));
    assert_eq!(mark_read_reply(true).status, 200);
    assert_eq!(mark_read_reply(false).body, "not found or already read");
    assert_eq!(delete_reply(true).body, "deleted");
    assert_eq!(delete_reply(false).status, 404);
}

#[test]
fn stock_probes_are_listed() {
    let all = catalog();
    assert_eq!(all.len(), 10);
    assert_eq!(all[0].script, "apt-pending-count.sh");
    assert_eq!(all[1].default_env[0].key, "THRESHOLD");
    assert_eq!(all[7].interval_secs, 21600);
    assert!(all.iter().all(|e| e.timeout_secs < e.interval_secs));
}

fn request(requires_admin: bool, requires_approval: bool) -> UiRequest {
    UiRequest {
        login: "ada".into(),
        agent_id: "web-id".into(),
        variant: "ControlServiceRequest".into(),
        agent_allowed: true,
        security: Some(RequestSecurity {
            action: Some("service:Restart".into()),
            requires_admin,
            requires_approval,
        }),
        ee_active: true,
        dev_mode: false,
        role: None,
        permitted: None,
        approval: None,
        owned: None,
    }
}

fn reason(step: UiStep) -> String {
    match step {
        UiStep::Deny { reason, .. } => reason,
        _ => panic!("not refused"),
    }
}

#[test]
fn a_message_passes_all_gates() {
    let mut q = request(true, true);
    assert_eq!(q.next(), UiStep::AskRole);
    q.role = Some(Some("admin".into()));
    assert_eq!(q.next(), UiStep::AskApproval { action: "service:Restart".into() });
    q.approval = Some(Approval::NotNeeded);
    assert_eq!(q.next(), UiStep::ClaimOperation);
    q.owned = Some(true);
    assert_eq!(q.next(), UiStep::Deliver);
    q.owned = Some(false);
    assert_eq!(reason(q.next()), "operation is owned by another client");
}

#[test]
fn a_message_is_stopped_at_each_gate() {
    let mut q = request(true, true);
    q.agent_allowed = false;
    assert_eq!(reason(q.next()), "not in your allowed agents");
    let mut q = request(true, true);
    q.security = None;
    assert_eq!(reason(q.next()), "message is not an allowed UI request");
    let mut q = request(true, true);
    q.role = Some(Some("viewer".into()));
    assert_eq!(q.next(), UiStep::AskPermission { action: "service:Restart".into() });
    q.permitted = Some(false);
    assert_eq!(reason(q.next()), "denied: service:Restart");
    q.permitted = Some(true);
    match q.next() {
        UiStep::Deny { reason, audit, .. } => {
            assert_eq!(reason, "admin only");
            assert_eq!(audit.unwrap().detail.as_deref(), Some("role=viewer variant=ControlServiceRequest"));
        }
        _ => panic!("a viewer went on"),
    }
    let mut q = request(false, true);
    q.role = Some(Some("admin".into()));
    q.approval = Some(Approval::Held { request_id: 12 });
    assert_eq!(
        reason(q.next()),
        "held for approval — request #12; a second admin must approve it in the Approvals tab"
    );
    q.approval = Some(Approval::Unavailable);
    assert_eq!(reason(q.next()), "approval system unavailable — action blocked (fail-closed)");
    q.security = Some(RequestSecurity { action: None, requires_admin: false, requires_approval: true });
    assert_eq!(reason(q.next()), "request has no approval action mapping");
}

#[test]
fn without_a_sidecar_the_role_alone_counts() {
    let mut q = request(true, true);
    q.ee_active = false;
    assert_eq!(q.next(), UiStep::AskRole);
    q.role = Some(None);
    assert_eq!(reason(q.next()), "admin only");
    q.role = Some(Some("admin".into()));
    assert_eq!(q.next(), UiStep::ClaimOperation);
    q.dev_mode = true;
    q.role = None;
    assert_eq!(q.next(), UiStep::ClaimOperation);
}
