use shellfleet::access::AgentAccess;
use shellfleet::agent_session::{AgentSession, AgentStep};
use shellfleet::ee_recording::Tap;
use shellfleet::fan_out::targets;
use shellfleet::hub::{AppState, Return, UiClient};
use shellfleet::message::Message;
use shellfleet::metrics::{
    conclude, find_panel, prepare, resolve, Config, Panel, QueryRefusal, RawPrometheus, Upstream,
};
use shellfleet::strmap::StrMap;
use shellfleet::throttle::{CheckResult, Throttle, MAX_FAILS};
use shellfleet::ui_session::UiSession;

fn register(hostname: &str) -> Message {
    Message::Register {
        hostname: hostname.into(),
        protocol_version: 18,
        capabilities: vec!["docker".into()],
        metadata: "{}".into(),
    }
}

fn session(conn: u64) -> AgentSession {
    AgentSession { conn, shared_token: false, agent_id: None }
}

#[test]
fn a_registration_is_acknowledged() {
    let mut hub = AppState::new();
    let mut s = session(1);
    match s.on_message(&mut hub, register("web"), Some("web"), 5) {
        AgentStep::Registered { registered, ack } => {
            assert_eq!(registered.agent_id, "web-id");
            assert_eq!(registered.back, Return::Quiet);
            assert!(matches!(ack, Message::RegisterAck { agent_id } if agent_id == "web-id"));
        }
        _ => panic!("not registered"),
    }
    assert_eq!(s.agent_id.as_deref(), Some("web-id"));
    assert_eq!(hub.connection_of("web-id"), Some(1));
    assert!(s.end(&mut hub, 3));
    assert_eq!(hub.connection_of("web-id"), None);
}

#[test]
fn a_token_of_another_host_is_refused() {
    let mut hub = AppState::new();
    let mut s = session(1);
    match s.on_message(&mut hub, register("web"), Some("db"), 5) {
        AgentStep::Refuse { audit } => {
            assert_eq!(audit.detail.as_deref(), Some("token bound to 'db', got 'web'"));
            assert!(!audit.ok);
        }
        _ => panic!("not refused"),
    }
    assert_eq!(s.agent_id, None);
    assert_eq!(hub.connection_of("web-id"), None);

    let mut shared = AgentSession { conn: 2, shared_token: true, agent_id: None };
    let step = shared.on_message(&mut hub, register("web"), Some("db"), 5);
    assert!(matches!(step, AgentStep::Registered { .. }));
}

#[test]
fn strangers_are_not_heard() {
    let mut hub = AppState::new();
    let mut s = session(1);
    let report = Message::AptUpgradeResponse { success: true, log: "ok".into(), error: None };
    assert!(matches!(s.on_message(&mut hub, report, None, 5), AgentStep::Nothing));
    let caps = Message::CapabilitiesUpdate { capabilities: vec!["k8s".into()] };
    assert!(matches!(s.on_message(&mut hub, caps, None, 5), AgentStep::Nothing));
    assert!(!s.end(&mut hub, 3));
}

#[test]
fn heartbeats_are_answered() {
    let mut hub = AppState::new();
    let mut s = session(1);
    let step = s.on_message(&mut hub, Message::Ping, None, 5);
    assert!(matches!(step, AgentStep::Answer { message: Message::Pong }));
}

#[test]
fn new_capabilities_are_announced_once() {
    let mut hub = AppState::new();
    let mut s = session(1);
    s.on_message(&mut hub, register("web"), None, 5);
    let caps = || Message::CapabilitiesUpdate { capabilities: vec!["k8s".into()] };
    assert!(matches!(s.on_message(&mut hub, caps(), None, 5), AgentStep::Announce));
    assert!(matches!(s.on_message(&mut hub, caps(), None, 5), AgentStep::Nothing));
}

#[test]
fn an_upgrade_is_reported_where_it_was_scheduled() {
    let mut hub = AppState::new();
    let mut s = session(1);
    s.on_message(&mut hub, register("web"), None, 5);
    let answer = || Message::AptUpgradeResponse {
        success: false,
        log: "a\nb".into(),
        error: Some("broken".into()),
    };
    match s.on_message(&mut hub, answer(), None, 9) {
        AgentStep::Pass { upgrade, fan_out, backup, .. } => {
            assert!(upgrade.is_none());
            assert_eq!(fan_out.map(|r| (r.kind, r.status)), Some(("apt-upgrade".into(), "failed".into())));
            assert!(backup.is_none());
        }
        _ => panic!("not passed"),
    }
    hub.scheduled_apt_runs.start("web-id");
    match s.on_message(&mut hub, answer(), None, 9) {
        AgentStep::Pass { upgrade, .. } => {
            let report = upgrade.unwrap();
            assert_eq!(report.status, "failed");
            assert_eq!(report.log, "a\nb\n[error] broken");
            assert_eq!(report.audit.kind, "update_window.result");
        }
        _ => panic!("not passed"),
    }
    assert!(!hub.scheduled_apt_runs.finish("web-id"));
}

#[test]
fn a_dispatch_finds_the_agent_and_the_recording() {
    let mut hub = AppState::new();
    let mut agent = session(4);
    agent.on_message(&mut hub, register("web"), None, 5);
    let mut ui = UiSession::new(9);
    hub.join(
        9,
        UiClient { login: "ada".into(), client_ip: "192.0.2.1".into(), agent_access: AgentAccess::Unrestricted },
    );
    let start = Message::StartTerminalRequest { session_id: "s1".into() };
    assert!(hub.claim_operation(9, "web-id", &start));
    let d = ui.dispatch(&mut hub, true, "web-id", &start);
    assert!(matches!(d.tap, Tap::Start));
    assert_eq!(d.conn, Some(4));
    let d = ui.dispatch(&mut hub, true, "db-id", &Message::Ping);
    assert!(matches!(d.tap, Tap::Nothing));
    assert_eq!(d.conn, None);

    assert_eq!(ui.end(&mut hub), vec!["s1".to_string()]);
    assert!(!hub.recorder.frame("s1"));
    assert!(!hub.ui_clients.contains_key(&9));
    assert!(hub.claim_operation(10, "web-id", &start));
}

#[test]
fn runs_mark_who_is_away() {
    let mut hub = AppState::new();
    session(4).on_message(&mut hub, register("web"), None, 5);
    let list = targets(&hub, &["web-id".to_string(), "db-id".to_string()]);
    assert_eq!(list.len(), 2);
    assert_eq!((list[0].agent_id.as_str(), list[0].conn), ("web-id", Some(4)));
    assert_eq!((list[0].mark.status.as_str(), list[0].mark.finished), ("pending", false));
    assert_eq!((list[1].agent_id.as_str(), list[1].conn), ("db-id", None));
    assert_eq!((list[1].mark.status.as_str(), list[1].mark.finished), ("offline", true));
}

fn config() -> Config {
    resolve(
        Some(RawPrometheus {
            url: "https://prom".into(),
            bearer_token: None,
            basic_auth: None,
            insecure_skip_verify: None,
            timeout_secs: None,
        }),
        vec![Panel {
            id: "cpu".into(),
            title: "CPU".into(),
            description: None,
            query: "up{i=\"{instance}\"}".into(),
            unit: "percent".into(),
        }],
        StrMap::new(),
    )
    .unwrap()
}

#[test]
fn queries_come_from_panels() {
    let cfg = config();
    let mut t = Throttle::new();
    match prepare(None, &mut t, "ada", "cpu", "web-id", "1h", 100_000) {
        Err(QueryRefusal::Reply { reply }) => assert_eq!(reply.status, 503),
        _ => panic!("not refused"),
    }
    match prepare(Some(&cfg), &mut t, "ada", "disk", "web-id", "1h", 100_000) {
        Err(QueryRefusal::Reply { reply }) => assert_eq!(reply.status, 404),
        _ => panic!("not refused"),
    }
    match prepare(Some(&cfg), &mut t, "ada", "cpu", "web-id", "1h", 100_000) {
        Ok(q) => assert_eq!((q.query.as_str(), q.start), ("up{i=\"web\"}", 96_400)),
        _ => panic!("refused"),
    }
}

#[test]
fn a_dead_database_is_not_asked_forever() {
    let cfg = config();
    let mut t = Throttle::new();
    let panel = find_panel(Some(&cfg), "cpu").unwrap();
    let q = match prepare(Some(&cfg), &mut t, "ada", "cpu", "web-id", "1h", 100_000) {
        Ok(q) => q,
        _ => panic!("refused"),
    };
    let away = Upstream::Unreachable { error: "timed out".into() };
    for _ in 0..MAX_FAILS {
        let r = conclude(&mut t, "ada", panel, &q, &away, 100_000).unwrap_err();
        assert_eq!((r.status, r.body.as_str()), (502, "prometheus: timed out"));
    }
    match prepare(Some(&cfg), &mut t, "ada", "cpu", "web-id", "1h", 100_000) {
        Err(QueryRefusal::Locked { retry_after_secs, reply }) => {
            assert_eq!(retry_after_secs, 900);
            assert_eq!(reply.status, 429);
        }
        _ => panic!("not locked"),
    }
    assert!(matches!(t.check("metrics:eve", 100_000), CheckResult::Allowed));

    let answered = Upstream::Answered { status: Some("success".into()), error: None };
    let head = conclude(&mut t, "ada", panel, &q, &answered, 100_000).unwrap();
    assert!(head.has_series);
    assert_eq!((head.panel_id.as_str(), head.unit.as_str()), ("cpu", "percent"));
    assert!(matches!(t.check("metrics:ada", 100_000), CheckResult::Allowed));

    let blank = Upstream::Answered { status: None, error: Some("bad query".into()) };
    let head = conclude(&mut t, "ada", panel, &q, &blank, 100_000).unwrap();
    assert_eq!((head.upstream_status.as_str(), head.has_series), ("error", false));
    assert_eq!(head.upstream_error.as_deref(), Some("bad query"));

    let broken = Upstream::BodyUnreadable { error: "eof".into() };
    assert_eq!(conclude(&mut t, "ada", panel, &q, &broken, 1).unwrap_err().body, "prometheus body: eof");
    let refused = Upstream::Refused { code: 400, body: "parse".into() };
    assert_eq!(conclude(&mut t, "ada", panel, &q, &refused, 1).unwrap_err().body, "prometheus 400: parse");
    let html = Upstream::NotJson { error: "line 1".into() };
    assert_eq!(conclude(&mut t, "ada", panel, &q, &html, 1).unwrap_err().body, "prometheus json: line 1");
}
