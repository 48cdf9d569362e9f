use shellfleet::agent_dispatch::{DispatchError, PendingExec};
use shellfleet::message::Message;
use shellfleet::operation_routing::{
    agent_operation, ui_operation, AgentOperation, OperationKey, OperationOwners, UiOperation,
};

#[test]
fn terminal_and_kubernetes_exec_share_session_ownership() {
    let host = Message::StartTerminalRequest { session_id: "host-session".into() };
    assert_eq!(
        ui_operation(&host),
        Some(UiOperation::Start(OperationKey::Terminal("host-session".into())))
    );
    let k8s = Message::K8sExecRequest {
        session_id: "k8s-session".into(),
        namespace: "default".into(),
        pod_name: "api".into(),
        container: None,
        command: vec![],
    };
    assert_eq!(
        ui_operation(&k8s),
        Some(UiOperation::Start(OperationKey::Terminal("k8s-session".into())))
    );
}

#[test]
fn terminal_continuations_and_stop_require_the_same_owner() {
    let data = Message::TerminalData { session_id: "session".into(), data: b"id\n".to_vec() };
    assert_eq!(
        ui_operation(&data),
        Some(UiOperation::Use(OperationKey::Terminal("session".into())))
    );
    let stop = Message::StopTerminalRequest { session_id: "session".into() };
    assert_eq!(
        ui_operation(&stop),
        Some(UiOperation::Stop(OperationKey::Terminal("session".into())))
    );
}

#[test]
fn docker_exec_uses_an_agent_scoped_singleton_key() {
    let start = Message::DockerExecStartRequest { container_id: "container".into(), shell: "sh".into() };
    assert_eq!(ui_operation(&start), Some(UiOperation::Start(OperationKey::DockerExec)));
    let output = Message::TerminalData { session_id: String::new(), data: vec![1] };
    assert_eq!(
        agent_operation(&output),
        Some(AgentOperation { key: OperationKey::DockerExec, ends: false })
    );
}

#[test]
fn log_chunks_route_to_requester_and_end_releases_ownership() {
    let request = Message::K8sLogsRequest {
        stream_id: "logs".into(),
        namespace: "default".into(),
        pod_name: "api".into(),
        container: None,
        tail_lines: 100,
        follow: true,
    };
    assert_eq!(
        ui_operation(&request),
        Some(UiOperation::Start(OperationKey::K8sLogs("logs".into())))
    );
    let end = Message::K8sLogsEnd { stream_id: "logs".into(), error: None };
    assert_eq!(
        agent_operation(&end),
        Some(AgentOperation { key: OperationKey::K8sLogs("logs".into()), ends: true })
    );
}

#[test]
fn an_operation_has_exactly_one_client_owner() {
    let mut owners = OperationOwners::default();
    let key = OperationKey::Terminal("session".into());

    assert!(owners.claim("agent-a", key.clone(), 10));
    assert!(owners.claim("agent-a", key.clone(), 10));
    assert!(!owners.claim("agent-a", key.clone(), 11));
    assert_eq!(owners.owner("agent-a", &key), Some(10));
    assert!(!owners.release("agent-a", &key, 11));
    assert!(owners.release("agent-a", &key, 10));
    assert_eq!(owners.owner("agent-a", &key), None);
}

#[test]
fn disconnect_releases_only_that_clients_operations() {
    let mut owners = OperationOwners::default();
    owners.claim("agent-a", OperationKey::DockerExec, 10);
    owners.claim("agent-b", OperationKey::DockerExec, 11);

    owners.release_client(10);

    assert_eq!(owners.owner("agent-a", &OperationKey::DockerExec), None);
    assert_eq!(owners.owner("agent-b", &OperationKey::DockerExec), Some(11));
}

#[test]
fn trusted_root_ciphertext_routes_only_to_request_owner() {
    let request = Message::TrustedOperationClient {
        request_id: "trusted-1".into(),
        start: true,
        close: false,
        payload: vec![1, 2, 3],
    };
    assert_eq!(
        ui_operation(&request),
        Some(UiOperation::Start(OperationKey::Trusted("trusted-1".into())))
    );
    let response = Message::TrustedOperationHost {
        request_id: "trusted-1".into(),
        complete: false,
        payload: vec![9, 8, 7],
    };
    assert_eq!(
        agent_operation(&response),
        Some(AgentOperation { key: OperationKey::Trusted("trusted-1".into()), ends: false })
    );
    let mut owners = OperationOwners::default();
    let key = OperationKey::Trusted("trusted-1".into());
    assert!(owners.claim("host", key.clone(), 10));
    assert_eq!(owners.owner("host", &key), Some(10));
    assert!(!owners.claim("host", key, 11));
}

#[test]
fn an_agent_that_leaves_frees_its_operations() {
    let mut owners = OperationOwners::default();
    owners.claim("agent-a", OperationKey::DockerExec, 10);
    owners.claim("agent-b", OperationKey::DockerExec, 10);
    owners.release_agent("agent-a");
    assert_eq!(owners.owner("agent-a", &OperationKey::DockerExec), None);
    assert_eq!(owners.owner("agent-b", &OperationKey::DockerExec), Some(10));
    owners.release_agent_operation("agent-b", &OperationKey::DockerExec);
    assert_eq!(owners.owner("agent-b", &OperationKey::DockerExec), None);
}

#[test]
fn using_and_stopping_need_ownership() {
    let mut owners = OperationOwners::default();
    let key = OperationKey::Terminal("s".into());
    assert!(!owners.apply("a", &UiOperation::Use(key.clone()), 1));
    assert!(owners.apply("a", &UiOperation::Start(key.clone()), 1));
    assert!(owners.apply("a", &UiOperation::Use(key.clone()), 1));
    assert!(!owners.apply("a", &UiOperation::Stop(key.clone()), 2));
    assert!(owners.apply("a", &UiOperation::Stop(key.clone()), 1));
    assert_eq!(owners.owner("a", &key), None);
}

#[test]
fn a_command_is_answered_once_and_by_the_agent_that_was_asked() {
    let mut pending = PendingExec::new();
    assert_eq!(
        pending.dispatch_run_command("web-id", false, "uptime", 5),
        Err(DispatchError::AgentNotFound)
    );
    let (id, message) = pending.dispatch_run_command("web-id", true, "uptime", 5).unwrap();
    let groups: Vec<usize> = id.split('-').map(str::len).collect();
    assert_eq!(groups, vec![8, 4, 4, 4, 12]);
    assert_eq!(id.chars().nth(14), Some('4'));
    assert_eq!(id.len(), 36);
    assert_eq!(
        message,
        Message::RunCommandRequest { request_id: id.clone(), command: "uptime".into(), timeout_secs: 5 }
    );
    assert!(!pending.resolve(&id, "db-id"));
    assert!(pending.resolve(&id, "web-id"));
    assert!(!pending.resolve(&id, "web-id"));
}

#[test]
fn commands_of_an_agent_that_left_are_forgotten() {
    let mut pending = PendingExec::new();
    pending.enter("r1", "web-id", true, "a", 1).unwrap();
    pending.enter("r2", "db-id", true, "b", 1).unwrap();
    pending.enter("r3", "db-id", true, "c", 1).unwrap();
    pending.forget_agent("web-id");
    pending.forget("r3");
    assert!(!pending.resolve("r1", "web-id"));
    assert!(pending.resolve("r2", "db-id"));
    assert!(!pending.resolve("r3", "db-id"));
}
