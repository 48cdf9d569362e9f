//! One command to several agents, and what each of them answered.

use vstd::prelude::*;
use crate::agent_dispatch::Sent;
use crate::hub::{AgentEntry, AppState};
use crate::message::{DockerContainer, Message};
use crate::record::{Audit, AuditView, Reply, answer, reply};
use crate::text::{cat2, cat3, cat5, decimal, is_blank, join, joined, lines, lines_of, opt_text, quote,
    quoted, str_eq, texts, u64_text};

verus! {

/// The kind that asks for the state of the packages.
pub const KIND_APT_STATUS: &'static str = "apt-status";

/// The kind that upgrades packages.
pub const KIND_APT_UPGRADE: &'static str = "apt-upgrade";

/// The kind that lists containers.
pub const KIND_DOCKER_LIST: &'static str = "docker-list";

/// Whether a message is the one that a kind of command sends.
pub open spec fn is_message_for(m: Message, kind: Seq<char>, package: Option<Seq<char>>) -> bool {
    if kind == KIND_APT_STATUS@ {
        m is AptStatusRequest
    } else if kind == KIND_APT_UPGRADE@ {
        m matches Message::AptUpgradeRequest { package: p } && opt_text(p) == package
    } else {
        kind == KIND_DOCKER_LIST@ && m is DockerListRequest
    }
}

/// Whether there is such a kind of command.
pub open spec fn is_kind(kind: Seq<char>) -> bool {
    kind == KIND_APT_STATUS@ || kind == KIND_APT_UPGRADE@ || kind == KIND_DOCKER_LIST@
}

/// The message that a kind of command sends, where there is such a kind.
pub fn message_for(kind: &str, package: Option<String>) -> (r: Option<Message>)
    ensures
        r is Some <==> is_kind(kind@),
        r matches Some(m) ==> is_message_for(m, kind@, opt_text(package)),
{
    if str_eq(kind, KIND_APT_STATUS) {
        Some(Message::AptStatusRequest)
    } else if str_eq(kind, KIND_APT_UPGRADE) {
        Some(Message::AptUpgradeRequest { package })
    } else if str_eq(kind, KIND_DOCKER_LIST) {
        Some(Message::DockerListRequest)
    } else {
        None
    }
}

/// What a request for a run is refused with, where it is: `targets` is how many
/// agents it would go to.
pub fn check_create(kind: &str, targets: usize) -> (r: Option<Reply>)
    ensures
        r is None <==> is_kind(kind@) && targets > 0,
        r matches Some(reply) ==> reply@ == (if !is_kind(kind@) {
            answer(400, "unsupported kind"@)
        } else {
            answer(
                400,
                "no targets — provide agent_ids or a label that resolves to at least one agent"@,
            )
        }),
{
    if message_for(kind, None).is_none() {
        return Some(reply(400, "unsupported kind"));
    }
    if targets == 0 {
        return Some(
            reply(
                400,
                "no targets — provide agent_ids or a label that resolves to at least one agent",
            ),
        );
    }
    None
}

/// The payload that is kept with a run, where a package was named.
pub open spec fn payload_of(package: Option<Seq<char>>) -> Option<Seq<char>> {
    match package {
        Some(p) => Some("{\"package\":\""@ + p + "\"}"@),
        None => None,
    }
}

/// The payload that is kept with a run, where a package was named.
pub fn payload(package: &Option<String>) -> (r: Option<String>)
    ensures
        opt_text(r) == payload_of(opt_text(*package)),
{
    match package {
        Some(p) => Some(cat3("{\"package\":\"", p.as_str(), "\"}")),
        None => None,
    }
}

/// The audit entry of a run.
pub fn create_audit(actor: &str, kind: &str, targets: usize, label: &Option<String>) -> (r: Audit)
    ensures
        r@ == (AuditView {
            actor: Some(actor@),
            agent_id: None,
            kind: "fan_out.create"@,
            ok: true,
            detail: Some(
                "kind="@ + kind@ + " agents="@ + decimal(targets as nat) + " label="@ + quoted(
                    match *label {
                        Some(l) => l@,
                        None => ""@,
                    },
                ),
            ),
        }),
{
    let shown = match label {
        Some(l) => quote(l.as_str()),
        None => quote(""),
    };
    let count = u64_text(targets as u64);
    let head = cat5("kind=", kind, " agents=", count.as_str(), " label=");
    Audit {
        actor: Some(actor.to_owned()),
        agent_id: None,
        kind: "fan_out.create".to_owned(),
        ok: true,
        detail: Some(cat2(head.as_str(), shown.as_str())),
    }
}

/// How one agent stands in a run.
#[derive(Debug, Clone, PartialEq, Eq)]
pub struct Mark {
    pub status: String,
    pub detail: Option<String>,
    /// Whether that is the last word of it.
    pub finished: bool,
}

/// The view of `Mark`.
pub struct MarkView {
    pub status: Seq<char>,
    pub detail: Option<Seq<char>>,
    pub finished: bool,
}

impl View for Mark {
    type V = MarkView;

    open spec fn view(&self) -> MarkView {
        MarkView { status: self.status@, detail: opt_text(self.detail), finished: self.finished }
    }
}

/// How an agent stands once the command was sent, or was not.
pub open spec fn mark_of(sent: Sent) -> MarkView {
    match sent {
        Sent::Offline => MarkView {
            status: "offline"@,
            detail: Some("agent not connected"@),
            finished: true,
        },
        Sent::Queued => MarkView { status: "pending"@, detail: None, finished: false },
        Sent::Failed => MarkView {
            status: "failed"@,
            detail: Some("send failed"@),
            finished: true,
        },
    }
}

/// How an agent stands once the command was sent, or was not.
pub fn mark(sent: Sent) -> (r: Mark)
    ensures
        r@ == mark_of(sent),
{
    match sent {
        Sent::Offline => Mark {
            status: "offline".to_owned(),
            detail: Some("agent not connected".to_owned()),
            finished: true,
        },
        Sent::Queued => Mark { status: "pending".to_owned(), detail: None, finished: false },
        Sent::Failed => Mark {
            status: "failed".to_owned(),
            detail: Some("send failed".to_owned()),
            finished: true,
        },
    }
}

/// What an agent's message says of a run: the kind of run, whether it went well,
/// and a line on it.
pub struct ResultView {
    pub kind: Seq<char>,
    pub status: Seq<char>,
    pub detail: Seq<char>,
}

/// What an agent's message says of a run.
#[derive(Debug, Clone, PartialEq, Eq)]
pub struct RunResult {
    pub kind: String,
    pub status: String,
    pub detail: String,
}

impl View for RunResult {
    type V = ResultView;

    open spec fn view(&self) -> ResultView {
        ResultView { kind: self.kind@, status: self.status@, detail: self.detail@ }
    }
}

/// The word for what went well and for what did not.
pub open spec fn status_word(good: bool) -> Seq<char> {
    if good {
        "success"@
    } else {
        "failed"@
    }
}

/// The word for what went well and for what did not.
pub fn status_text(good: bool) -> (r: &'static str)
    ensures
        r@ == status_word(good),
{
    if good {
        "success"
    } else {
        "failed"
    }
}

/// The test for a container that runs.
pub open spec fn running() -> spec_fn(DockerContainer) -> bool {
    |c: DockerContainer| c.state@ == "running"@
}

/// The last `n` lines, the last one first.
pub open spec fn last_lines(s: Seq<char>, n: nat) -> Seq<Seq<char>> {
    let all = lines_of(s);
    Seq::new(
        if all.len() < n {
            all.len()
        } else {
            n
        },
        |i: int| all[all.len() - 1 - i],
    )
}

/// What an agent's message says of a run, where it answers one.
pub open spec fn result_of(m: Message) -> Option<ResultView> {
    match m {
        Message::AptStatusResponse { available, upgradable, error } => Some(
            ResultView {
                kind: KIND_APT_STATUS@,
                status: status_word(error is None && available),
                detail: match error {
                    Some(e) => "error: "@ + e@,
                    None => if available {
                        decimal(upgradable@.len()) + " upgradable"@
                    } else {
                        "apt unavailable"@
                    },
                },
            },
        ),
        Message::AptUpgradeResponse { success, log, error } => Some(
            ResultView {
                kind: KIND_APT_UPGRADE@,
                status: status_word(success),
                detail: if success {
                    let snippet = joined(last_lines(log@, 3), " | "@);
                    if snippet.len() == 0 {
                        "ok"@
                    } else {
                        snippet
                    }
                } else {
                    match error {
                        Some(e) => e@,
                        None => "failed"@,
                    }
                },
            },
        ),
        Message::DockerListResponse { available, swarm_role, containers, error } => Some(
            ResultView {
                kind: KIND_DOCKER_LIST@,
                status: status_word(error is None && available),
                detail: match error {
                    Some(e) => "error: "@ + e@,
                    None => if available {
                        decimal(containers@.filter(running()).len()) + "/"@ + decimal(
                            containers@.len(),
                        ) + " running ("@ + swarm_role@ + ")"@
                    } else {
                        "docker unavailable"@
                    },
                },
            },
        ),
        _ => None,
    }
}

/// How many containers run.
fn count_running(containers: &Vec<DockerContainer>) -> (r: usize)
    ensures
        r == containers@.filter(running()).len(),
{
    let mut n: usize = 0;
    let mut i: usize = 0;
    proof {
        reveal(Seq::filter);
        assert(containers@.take(0).filter(running()).len() == 0);
    }
    while i < containers.len()
        invariant
            i <= containers.len(),
            n <= i,
            n == containers@.take(i as int).filter(running()).len(),
        decreases containers.len() - i,
    {
        proof {
            crate::text::lemma_filter_push(
                containers@.take(i as int),
                containers@[i as int],
                running(),
            );
            assert(containers@.take(i + 1) =~= containers@.take(i as int).push(
                containers@[i as int],
            ));
        }
        if str_eq(containers[i].state.as_str(), "running") {
            n += 1;
        }
        i += 1;
    }
    assert(containers@.take(i as int) =~= containers@);
    n
}

/// The last lines of a log in one, the last one first.
fn log_snippet(log: &str, most: usize) -> (r: String)
    ensures
        r@ == joined(last_lines(log@, most as nat), " | "@),
{
    let all = lines(log);
    let n: usize = if all.len() < most {
        all.len()
    } else {
        most
    };
    let mut parts: Vec<String> = Vec::new();
    let mut i: usize = 0;
    while i < n
        invariant
            i <= n <= all.len(),
            parts@.len() == i,
            forall|k: int|
                0 <= k < i ==> (#[trigger] parts@[k])@ == all@[all@.len() - 1 - k]@,
        decreases n - i,
    {
        parts.push(all[all.len() - 1 - i].clone());
        i += 1;
    }
    proof {
        assert forall|k: int| 0 <= k < n implies (#[trigger] texts(parts@)[k]) == last_lines(
            log@,
            most as nat,
        )[k] by {
            assert(texts(all@)[all@.len() - 1 - k] == all@[all@.len() - 1 - k]@);
            assert(parts@[k]@ == all@[all@.len() - 1 - k]@);
        }
        assert(texts(parts@) =~= last_lines(log@, most as nat));
    }
    join(parts.as_slice(), " | ")
}

/// The view of an optional result.
pub open spec fn opt_result(o: Option<RunResult>) -> Option<ResultView> {
    match o {
        Some(r) => Some(r@),
        None => None,
    }
}

/// What an agent's message says of a run, where it answers one.
pub fn attribution(m: &Message) -> (r: Option<RunResult>)
    ensures
        opt_result(r) == result_of(*m),
{
    match m {
        Message::AptStatusResponse { available, upgradable, error } => {
            let detail = match error {
                Some(e) => cat2("error: ", e.as_str()),
                None => if *available {
                    let n = u64_text(upgradable.len() as u64);
                    cat2(n.as_str(), " upgradable")
                } else {
                    "apt unavailable".to_owned()
                },
            };
            Some(
                RunResult {
                    kind: KIND_APT_STATUS.to_owned(),
                    status: status_text(error.is_none() && *available).to_owned(),
                    detail,
                },
            )
        },
        Message::AptUpgradeResponse { success, log, error } => {
            let detail = if *success {
                let snippet = log_snippet(log.as_str(), 3);
                if is_blank(snippet.as_str()) {
                    "ok".to_owned()
                } else {
                    snippet
                }
            } else {
                match error {
                    Some(e) => e.clone(),
                    None => "failed".to_owned(),
                }
            };
            Some(
                RunResult {
                    kind: KIND_APT_UPGRADE.to_owned(),
                    status: status_text(*success).to_owned(),
                    detail,
                },
            )
        },
        Message::DockerListResponse { available, swarm_role, containers, error } => {
            let detail = match error {
                Some(e) => cat2("error: ", e.as_str()),
                None => if *available {
                    let up = u64_text(count_running(containers) as u64);
                    let n = u64_text(containers.len() as u64);
                    let head = cat5(up.as_str(), "/", n.as_str(), " running (", swarm_role.as_str());
                    cat2(head.as_str(), ")")
                } else {
                    "docker unavailable".to_owned()
                },
            };
            Some(
                RunResult {
                    kind: KIND_DOCKER_LIST.to_owned(),
                    status: status_text(error.is_none() && *available).to_owned(),
                    detail,
                },
            )
        },
        _ => None,
    }
}

/// What an agent's message says of a run is said of one of the kinds, and is a
/// success or a failure.
pub proof fn law_answers_fit_their_kind(m: Message)
    requires
        result_of(m) is Some,
    ensures
        is_kind(result_of(m)->0.kind),
        result_of(m)->0.status == "success"@ || result_of(m)->0.status == "failed"@,
{
}

/// An agent that a run goes to: its connection, where it is connected, and how it
/// stands.
pub struct Target {
    pub agent_id: String,
    pub conn: Option<u64>,
    pub mark: Mark,
}

/// Whether a target is that of an agent: pending where it is connected, else
/// offline.
pub open spec fn is_target(t: Target, agents: Map<Seq<char>, AgentEntry>, agent: Seq<char>) -> bool {
    &&& t.agent_id@ == agent
    &&& t.conn == (if agents.contains_key(agent) {
        Some(agents[agent].conn)
    } else {
        None
    })
    &&& t.mark@ == mark_of(
        if agents.contains_key(agent) {
            Sent::Queued
        } else {
            Sent::Offline
        },
    )
}

/// The agents that a run goes to, in order, each with its connection and how it
/// stands before the command is sent.
pub fn targets(hub: &AppState, agent_ids: &[String]) -> (r: Vec<Target>)
    ensures
        r@.len() == agent_ids@.len(),
        forall|i: int|
            0 <= i < r@.len() ==> is_target(#[trigger] r@[i], hub.agents@, agent_ids@[i]@),
{
    let mut out: Vec<Target> = Vec::new();
    let mut i: usize = 0;
    while i < agent_ids.len()
        invariant
            i <= agent_ids.len(),
            out@.len() == i,
            forall|k: int|
                0 <= k < i ==> is_target(#[trigger] out@[k], hub.agents@, agent_ids@[k]@),
        decreases agent_ids.len() - i,
    {
        let conn: Option<u64> = hub.connection_of(agent_ids[i].as_str());
        let state = if conn.is_some() {
            mark(Sent::Queued)
        } else {
            mark(Sent::Offline)
        };
        out.push(Target { agent_id: agent_ids[i].clone(), conn, mark: state });
        i += 1;
    }
    out
}

/// A run asks every agent for what its kind names: the upgrades that wait, an upgrade
/// of the package that was named or of all, or the containers. No other kind exists.
pub proof fn law_runs_ask_for_their_kind(m: Message, kind: Seq<char>, package: Option<Seq<char>>)
    ensures
        is_kind(kind) <==> kind == "apt-status"@ || kind == "apt-upgrade"@ || kind == "docker-list"@,
        is_message_for(m, "apt-status"@, package) <==> m is AptStatusRequest,
        is_message_for(m, "apt-upgrade"@, package) <==> (m matches Message::AptUpgradeRequest {
            package: p,
        } && opt_text(p) == package),
        is_message_for(m, "docker-list"@, package) <==> m is DockerListRequest,
        !is_kind(kind) ==> !is_message_for(m, kind, package),
{
    reveal_strlit("apt-status");
    reveal_strlit("apt-upgrade");
    reveal_strlit("docker-list");
    assert("apt-status"@[0] == 'a' && "apt-upgrade"@[0] == 'a' && "docker-list"@[0] == 'd');
    assert("apt-status"@[4] == 's' && "apt-upgrade"@[4] == 'u');
}

/// What an agent answers counts for the run of the kind that it was asked for, and as
/// a success exactly where the agent could do it. Other messages count for none.
pub proof fn law_answers_count_for_their_run(m: Message)
    ensures
        result_of(m) is Some <==> m is AptStatusResponse || m is AptUpgradeResponse
            || m is DockerListResponse,
        m matches Message::AptStatusResponse { available, upgradable, error } ==> {
            let r = result_of(m)->0;
            &&& r.kind == "apt-status"@
            &&& error is None && available ==> r.status == "success"@ && r.detail == decimal(
                upgradable@.len(),
            ) + " upgradable"@
            &&& error is Some ==> r.status == "failed"@ && r.detail == "error: "@ + error->0@
            &&& error is None && !available ==> r.status == "failed"@ && r.detail
                == "apt unavailable"@
        },
        m matches Message::AptUpgradeResponse { success, log, error } ==> {
            let r = result_of(m)->0;
            &&& r.kind == "apt-upgrade"@
            &&& success ==> r.status == "success"@
            &&& !success ==> r.status == "failed"@
            &&& !success && error is Some ==> r.detail == error->0@
            &&& !success && error is None ==> r.detail == "failed"@
            &&& success && log@.len() == 0 ==> r.detail == "ok"@
        },
        m matches Message::DockerListResponse { available, swarm_role, containers, error } ==> {
            let r = result_of(m)->0;
            &&& r.kind == "docker-list"@
            &&& error is None && available ==> r.status == "success"@
            &&& error is Some ==> r.status == "failed"@ && r.detail == "error: "@ + error->0@
            &&& error is None && !available ==> r.status == "failed"@ && r.detail
                == "docker unavailable"@
        },
{
    if let Message::AptUpgradeResponse { success, log, error } = m {
        if success && log@.len() == 0 {
            assert(log@ =~= Seq::<char>::empty());
            lemma_no_lines();
        }
    }
}

proof fn lemma_no_lines()
    ensures
        joined(last_lines(Seq::<char>::empty(), 3), " | "@).len() == 0,
{
    let s = Seq::<char>::empty();
    assert(lines_of(s).len() == 0);
    assert(last_lines(s, 3) =~= Seq::<Seq<char>>::empty());
}

/// Of a list of containers, those that run are counted, and all of them.
pub proof fn law_running_containers_are_counted(m: Message, r: ResultView)
    requires
        m is DockerListResponse,
        m->DockerListResponse_available,
        m->DockerListResponse_error is None,
        result_of(m) == Some(r),
    ensures
        r.detail == decimal(
            m->containers@.filter(|c: DockerContainer| c.state@ == "running"@).len(),
        ) + "/"@ + decimal(m->containers@.len()) + " running ("@ + m->swarm_role@ + ")"@,
{
    assert(running() =~= (|c: DockerContainer| c.state@ == "running"@));
}

/// The last lines of a log come last line first: line `i` from the end at place `i`.
pub proof fn law_last_lines_come_backwards(s: Seq<char>, n: nat, i: int)
    requires
        0 <= i < n,
        i < lines_of(s).len(),
    ensures
        last_lines(s, n)[i] == lines_of(s)[lines_of(s).len() - 1 - i],
        last_lines(s, n).len() <= n,
        last_lines(s, n).len() <= lines_of(s).len(),
{
}

/// An agent that is not there is done with at once; one that was asked is waited for.
pub proof fn law_absent_agents_are_marked_offline(
    t: Target,
    agents: Map<Seq<char>, AgentEntry>,
    agent: Seq<char>,
)
    requires
        is_target(t, agents, agent),
    ensures
        t.agent_id@ == agent,
        agents.contains_key(agent) ==> t.conn == Some(agents[agent].conn) && t.mark@.status
            == "pending"@ && !t.mark@.finished,
        !agents.contains_key(agent) ==> t.conn is None && t.mark@.status == "offline"@
            && t.mark@.finished,
        mark_of(Sent::Failed).status == "failed"@ && mark_of(Sent::Failed).finished,
{
}

/// A run says which package it is about, where it is about one.
pub proof fn law_runs_name_their_package(p: Seq<char>, q: Seq<char>)
    ensures
        payload_of(None) is None,
        payload_of(Some(p)) is Some,
        payload_of(Some(p)) == payload_of(Some(q)) ==> p == q,
        status_word(true) == "success"@,
        status_word(false) == "failed"@,
{
    let a = "{\"package\":\""@;
    let b = "\"}"@;
    if a + p + b == a + q + b {
        assert((a + p + b).len() == a.len() + p.len() + b.len());
        assert((a + q + b).len() == a.len() + q.len() + b.len());
        assert((a + p + b).subrange(a.len() as int, (a.len() + p.len()) as int) =~= p);
        assert((a + q + b).subrange(a.len() as int, (a.len() + q.len()) as int) =~= q);
    }
}

} // verus!
