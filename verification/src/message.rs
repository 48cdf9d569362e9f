//! The messages exchanged with agents, as far as the server looks into them.

use vstd::prelude::*;
use crate::text::{opt_text, texts};

verus! {

/// What one health probe found.
#[derive(Debug, Clone, Copy, PartialEq, Eq, Structural)]
pub enum HealthProbeState {
    Green,
    Red,
}

/// One result of a health probe report.
#[derive(Debug, Clone, PartialEq, Eq)]
pub struct HealthProbeResult {
    pub id: String,
    pub state: HealthProbeState,
    pub at: i64,
    pub latency_ms: u64,
    pub detail: String,
}

/// How a health probe looks at its target.
#[derive(Debug, Clone, Copy, PartialEq, Eq, Structural)]
pub enum HealthProbeKind {
    Http,
    Tcp,
    Exec,
}

/// A health probe as an agent runs it.
#[derive(Debug, Clone, PartialEq, Eq)]
pub struct HealthProbeSpec {
    pub id: String,
    pub name: String,
    pub kind: HealthProbeKind,
    pub target: String,
    pub interval_secs: u32,
    pub timeout_secs: u32,
    pub expect_status: Option<u16>,
    pub expect_body: Option<String>,
    pub env: Vec<String>,
}

/// The view of `HealthProbeSpec`.
pub struct HealthProbeView {
    pub id: Seq<char>,
    pub name: Seq<char>,
    pub kind: HealthProbeKind,
    pub target: Seq<char>,
    pub interval_secs: u32,
    pub timeout_secs: u32,
    pub expect_status: Option<u16>,
    pub expect_body: Option<Seq<char>>,
    pub env: Seq<Seq<char>>,
}

impl View for HealthProbeSpec {
    type V = HealthProbeView;

    open spec fn view(&self) -> HealthProbeView {
        HealthProbeView {
            id: self.id@,
            name: self.name@,
            kind: self.kind,
            target: self.target@,
            interval_secs: self.interval_secs,
            timeout_secs: self.timeout_secs,
            expect_status: self.expect_status,
            expect_body: opt_text(self.expect_body),
            env: texts(self.env@),
        }
    }
}

/// A container as an agent lists it: its name and its state.
#[derive(Debug, Clone, PartialEq, Eq)]
pub struct DockerContainer {
    pub name: String,
    pub state: String,
}

/// A message between the server and an agent. Messages that the server only
/// passes on are `Other`: their wire name and their body.
#[derive(Debug, Clone, PartialEq, Eq)]
pub enum Message {
    Register {
        hostname: String,
        protocol_version: u32,
        capabilities: Vec<String>,
        metadata: String,
    },
    RegisterAck { agent_id: String },
    CapabilitiesUpdate { capabilities: Vec<String> },
    Ping,
    Pong,
    StartTerminalRequest { session_id: String },
    StopTerminalRequest { session_id: String },
    TerminalData { session_id: String, data: Vec<u8> },
    TerminalResize { session_id: String, cols: u16, rows: u16 },
    K8sExecRequest {
        session_id: String,
        namespace: String,
        pod_name: String,
        container: Option<String>,
        command: Vec<String>,
    },
    K8sExecResponse { session_id: String, success: bool, error: Option<String> },
    DockerExecStartRequest { container_id: String, shell: String },
    DockerExecStartResponse { success: bool, error: Option<String> },
    DockerExecStopRequest,
    K8sLogsRequest {
        stream_id: String,
        namespace: String,
        pod_name: String,
        container: Option<String>,
        tail_lines: u32,
        follow: bool,
    },
    K8sLogsStop { stream_id: String },
    K8sLogsChunk { stream_id: String, data: String },
    K8sLogsEnd { stream_id: String, error: Option<String> },
    DockerLogsRequest { container_id: String, tail: u32, follow: bool },
    DockerLogsStop { container_id: String },
    DockerLogsChunk { container_id: String, data: String },
    DockerLogsEnd { container_id: String, error: Option<String> },
    JournalLogsRequest { unit: String, lines: u32, follow: bool },
    JournalLogsStop { unit: String },
    JournalLogsChunk { unit: String, data: String },
    JournalLogsEnd { unit: String, error: Option<String> },
    JournalStreamRequest { stream_id: String, filter: String },
    JournalStreamStop { stream_id: String },
    JournalStreamChunk { stream_id: String, data: String },
    JournalStreamEnd { stream_id: String, error: Option<String> },
    TrustedOperationClient { request_id: String, start: bool, close: bool, payload: Vec<u8> },
    TrustedOperationHost { request_id: String, complete: bool, payload: Vec<u8> },
    HealthProbeSyncRequest { probes: Vec<HealthProbeSpec> },
    HealthProbeReport { results: Vec<HealthProbeResult> },
    RunCommandRequest { request_id: String, command: String, timeout_secs: u64 },
    RunCommandResponse {
        request_id: String,
        exit_code: i32,
        stdout: String,
        stderr: String,
        error: Option<String>,
        truncated: bool,
        timed_out: bool,
        duration_ms: u64,
    },
    ControlServiceRequest { name: String, action: String },
    BackupRunRequest { id: String, name: String, paths: Vec<String>, dest: String },
    BackupRunResponse {
        id: String,
        name: String,
        success: bool,
        archive_path: String,
        bytes: u64,
        log: String,
        error: Option<String>,
    },
    BackupListArchivesResponse { body: String },
    BackupRestoreResponse { body: String },
    AptStatusRequest,
    AptStatusResponse { available: bool, upgradable: Vec<String>, error: Option<String> },
    AptUpgradeRequest { package: Option<String> },
    AptUpgradeResponse { success: bool, log: String, error: Option<String> },
    DockerListRequest,
    DockerListResponse {
        available: bool,
        /// The name of the host's part in a swarm.
        swarm_role: String,
        containers: Vec<DockerContainer>,
        error: Option<String>,
    },
    DriftSnapshotResponse { snapshot_id: String, body: String },
    Other { kind: String, body: String },
}

} // verus!
