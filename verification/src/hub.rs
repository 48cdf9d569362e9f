//! Everything that is connected: the agents, the users that look at them, and what
//! waits for an answer.

use vstd::prelude::*;
use crate::access::{AgentAccess, agent_allowed_by_access, allows, merge_exact_agent_access, merged};
use crate::agent_dispatch::{PendingExec, after_answer, awaited};
use crate::ee_recording::Recorder;
use crate::message::Message;
use crate::operation_routing::{
    OpKey, OperationOwners, after_apply, agent_operation, agent_operation_of, is_first_word,
    is_last_word, is_piece, law_messages_of_one_operation_belong_together, may_apply, owner_of,
    ui_operation, ui_operation_of,
};
use crate::record::{Audit, AuditView};
use crate::strmap::{KeyMap, StrMap, kept};
use crate::text::{cat2, decimal, str_eq, texts, u64_text};
use crate::update_windows::ScheduledRuns;

verus! {

/// How many seconds an agent may be gone before that is told.
pub const DISCONNECT_GRACE_SECS: u64 = 50;

/// A connected agent: its connection, and what it can do.
pub struct AgentEntry {
    pub conn: u64,
    pub capabilities: Vec<String>,
}

/// An agent that is gone.
#[derive(Debug, Clone, Copy, PartialEq, Eq, Structural)]
pub enum DisconnectState {
    /// It may still be back in time. The timer with this number decides.
    Pending(u64),
    /// That it is gone was told, at `since`, and last again at `last_alert`.
    Confirmed { since: i64, last_alert: i64 },
}

/// A user who looks at the agents.
pub struct UiClient {
    pub login: String,
    pub client_ip: String,
    pub agent_access: AgentAccess,
}

/// Those who wait for an answer of an agent, by tickets, in the order they came.
pub struct Waiters {
    queues: StrMap<Vec<u64>>,
}

impl View for Waiters {
    type V = Map<Seq<char>, Vec<u64>>;

    closed spec fn view(&self) -> Map<Seq<char>, Vec<u64>> {
        self.queues@
    }
}

/// Those who wait for an agent.
pub open spec fn waiting(m: Map<Seq<char>, Vec<u64>>, agent: Seq<char>) -> Seq<u64> {
    if m.contains_key(agent) {
        m[agent]@
    } else {
        Seq::empty()
    }
}

impl Waiters {
    /// Nobody waits.
    pub fn new() -> (r: Self)
        ensures
            r@ == Map::<Seq<char>, Vec<u64>>::empty(),
    {
        Waiters { queues: StrMap::new() }
    }

    /// One more waits for an agent.
    pub fn push(&mut self, agent_id: &str, ticket: u64)
        ensures
            waiting(final(self)@, agent_id@) == waiting(old(self)@, agent_id@).push(ticket),
            final(self)@.remove(agent_id@) == old(self)@.remove(agent_id@),
    {
        let ghost before = self.queues@;
        let key = agent_id.to_owned();
        let mut queue: Vec<u64> = match self.queues.remove(&key) {
            Some(q) => q,
            None => Vec::new(),
        };
        assert(queue@ =~= waiting(before, agent_id@));
        queue.push(ticket);
        self.queues.insert(key, queue);
        assert(self.queues@.remove(agent_id@) =~= before.remove(agent_id@));
    }

    /// An agent answered: takes out the one who has waited longest.
    pub fn pop(&mut self, agent_id: &str) -> (r: Option<u64>)
        ensures
            r == (if waiting(old(self)@, agent_id@).len() > 0 {
                Some(waiting(old(self)@, agent_id@)[0])
            } else {
                None
            }),
            waiting(final(self)@, agent_id@) == (if waiting(old(self)@, agent_id@).len() > 0 {
                waiting(old(self)@, agent_id@).skip(1)
            } else {
                waiting(old(self)@, agent_id@)
            }),
            final(self)@.remove(agent_id@) == old(self)@.remove(agent_id@),
    {
        let ghost before = self.queues@;
        let key = agent_id.to_owned();
        match self.queues.remove(&key) {
            None => {
                assert(self.queues@.remove(agent_id@) =~= before.remove(agent_id@));
                None
            },
            Some(q) => {
                let mut queue: Vec<u64> = q;
                let first: Option<u64> = if queue.len() > 0 {
                    Some(queue.remove(0))
                } else {
                    None
                };
                assert(before[agent_id@]@.len() > 0 ==> queue@ =~= before[agent_id@]@.skip(1));
                self.queues.insert(key, queue);
                assert(self.queues@.remove(agent_id@) =~= before.remove(agent_id@));
                first
            },
        }
    }
}

/// Everything that is connected.
pub struct AppState {
    pub agents: StrMap<AgentEntry>,
    pub disconnect_states: StrMap<DisconnectState>,
    pub ui_clients: KeyMap<u64, UiClient>,
    pub operation_owners: OperationOwners,
    pub pending_exec: PendingExec,
    pub scheduled_apt_runs: ScheduledRuns,
    pub pending_backup_lists: Waiters,
    pub pending_backup_restores: Waiters,
    pub recorder: Recorder,
}

/// Whether two states differ in the agents and in who of them is gone at most.
pub open spec fn same_users(a: AppState, b: AppState) -> bool {
    &&& a.ui_clients == b.ui_clients
    &&& a.operation_owners == b.operation_owners
    &&& a.pending_exec == b.pending_exec
    &&& same_waits(a, b)
}

/// Whether two states have the same runs, waits and recordings under way.
pub open spec fn same_waits(a: AppState, b: AppState) -> bool {
    &&& a.scheduled_apt_runs == b.scheduled_apt_runs
    &&& a.pending_backup_lists == b.pending_backup_lists
    &&& a.pending_backup_restores == b.pending_backup_restores
    &&& a.recorder == b.recorder
}

/// Whether two states have the same agents, connected and gone.
pub open spec fn same_agents(a: AppState, b: AppState) -> bool {
    &&& a.agents == b.agents
    &&& a.disconnect_states == b.disconnect_states
    &&& a.pending_exec == b.pending_exec
}

/// The name of the agent on a host.
pub open spec fn agent_name(hostname: Seq<char>) -> Seq<char> {
    hostname + "-id"@
}

/// How an agent comes back.
#[derive(Debug, Clone, Copy, PartialEq, Eq, Structural)]
pub enum Return {
    /// It was not missed.
    Quiet,
    /// It is back in time: its timer is stopped, and nothing is told.
    InTime { timer: u64 },
    /// That it was gone had been told: that it is back is told too.
    Announced,
}

/// How an agent comes back that was in a state.
pub open spec fn return_of(states: Map<Seq<char>, DisconnectState>, id: Seq<char>) -> Return {
    if !states.contains_key(id) {
        Return::Quiet
    } else {
        match states[id] {
            DisconnectState::Pending(timer) => Return::InTime { timer },
            DisconnectState::Confirmed { .. } => Return::Announced,
        }
    }
}

/// Whether an agent that was confirmed as gone is due to be told of again.
pub open spec fn alert_due(s: DisconnectState, now: i64, every: i64) -> bool {
    s matches DisconnectState::Confirmed { last_alert, .. } && now - last_alert >= every
}

/// An agent that is gone after it was told of again, if it was due.
pub open spec fn alerted(s: DisconnectState, now: i64, every: i64) -> DisconnectState {
    match s {
        DisconnectState::Confirmed { since, last_alert } if now - last_alert >= every => {
            DisconnectState::Confirmed { since, last_alert: now }
        },
        _ => s,
    }
}

/// Whether the times of the agents that are gone can be counted up to `now`.
pub open spec fn times_fit(states: Map<Seq<char>, DisconnectState>, now: i64) -> bool {
    forall|k: Seq<char>| #[trigger]
        states.contains_key(k) ==> (states[k] matches DisconnectState::Confirmed {
            since,
            last_alert,
        } ==> i64::MIN <= now - since <= i64::MAX && i64::MIN <= now - last_alert <= i64::MAX)
}

/// An agent as it is listed.
#[derive(Debug, Clone, PartialEq, Eq)]
pub struct AgentInfo {
    pub agent_id: String,
    pub capabilities: Vec<String>,
}

/// The view of `AgentInfo`.
pub struct AgentInfoView {
    pub agent_id: Seq<char>,
    pub capabilities: Seq<Seq<char>>,
}

impl View for AgentInfo {
    type V = AgentInfoView;

    open spec fn view(&self) -> AgentInfoView {
        AgentInfoView { agent_id: self.agent_id@, capabilities: texts(self.capabilities@) }
    }
}

/// Whether a list holds exactly the connected agents that an access covers, each
/// once and with what it can do.
pub open spec fn lists_agents(
    infos: Seq<AgentInfo>,
    agents: Map<Seq<char>, AgentEntry>,
    access: Option<Set<Seq<char>>>,
) -> bool {
    &&& forall|i: int|
        0 <= i < infos.len() ==> agents.contains_key((#[trigger] infos[i])@.agent_id) && allows(
            access,
            infos[i]@.agent_id,
        ) && infos[i]@.capabilities == texts(agents[infos[i]@.agent_id].capabilities@)
    &&& forall|i: int, j: int|
        0 <= i < j < infos.len() ==> (#[trigger] infos[i])@.agent_id != (
        #[trigger] infos[j])@.agent_id
    &&& forall|id: Seq<char>| #[trigger]
        agents.contains_key(id) && allows(access, id) ==> exists|i: int|
            0 <= i < infos.len() && (#[trigger] infos[i])@.agent_id == id
}

fn copy_texts(list: &Vec<String>) -> (r: Vec<String>)
    ensures
        texts(r@) == texts(list@),
{
    let mut out: Vec<String> = Vec::new();
    let mut k: usize = 0;
    while k < list.len()
        invariant
            k <= list.len(),
            out@.len() == k,
            forall|x: int| 0 <= x < k ==> (#[trigger] out@[x])@ == list@[x]@,
        decreases list.len() - k,
    {
        out.push(list[k].clone());
        k += 1;
    }
    assert forall|x: int| 0 <= x < out@.len() implies texts(out@)[x] == texts(list@)[x] by {
        assert(out@[x]@ == list@[x]@);
    }
    out
}

/// What an agent's registration comes to.
pub struct Registered {
    pub agent_id: String,
    pub back: Return,
    pub audit: Audit,
}

/// Whether a registration turns one state into another: from now on the agent is
/// connected through that connection, and it is no longer gone.
pub open spec fn registers(
    before: AppState,
    after: AppState,
    conn: u64,
    hostname: Seq<char>,
    protocol_version: u32,
    capabilities: Vec<String>,
    r: Registered,
) -> bool {
    let id = agent_name(hostname);
    &&& r.agent_id@ == id
    &&& r.back == return_of(before.disconnect_states@, id)
    &&& r.audit@ == (AuditView {
        actor: None,
        agent_id: Some(id),
        kind: "agent.register"@,
        ok: true,
        detail: Some("protocol_version="@ + decimal(protocol_version as nat)),
    })
    &&& after.agents@ == before.agents@.insert(id, AgentEntry { conn, capabilities })
    &&& after.disconnect_states@ == before.disconnect_states@.remove(id)
    &&& same_users(after, before)
}

/// Whether a change of what an agent can do turns one state into another, and is
/// news.
pub open spec fn updates_capabilities(
    before: AppState,
    after: AppState,
    agent: Seq<char>,
    capabilities: Vec<String>,
    news: bool,
) -> bool {
    &&& news == (before.agents@.contains_key(agent) && texts(before.agents@[agent].capabilities@)
        != texts(capabilities@))
    &&& news ==> after.agents@ == before.agents@.insert(
        agent,
        AgentEntry { conn: before.agents@[agent].conn, capabilities },
    )
    &&& !news ==> after.agents == before.agents
    &&& after.disconnect_states == before.disconnect_states
    &&& same_users(after, before)
}

/// The test for an operation that is not on an agent.
pub open spec fn elsewhere(agent: Seq<char>) -> spec_fn((Seq<char>, OpKey), u64) -> bool {
    |k: (Seq<char>, OpKey), owner: u64| k.0 != agent
}

/// The test for a command that another agent was sent.
pub open spec fn asked_another(agent: Seq<char>) -> spec_fn(Seq<char>, String) -> bool {
    |k: Seq<char>, expected: String| expected@ != agent
}

/// The test for an operation that another user owns.
pub open spec fn owned_by_another(client: u64) -> spec_fn((Seq<char>, OpKey), u64) -> bool {
    |k: (Seq<char>, OpKey), owner: u64| owner != client
}

/// Whether an agent is connected through this connection.
pub open spec fn connected_by(agents: Map<Seq<char>, AgentEntry>, id: Seq<char>, conn: u64) -> bool {
    agents.contains_key(id) && agents[id].conn == conn
}

/// Whether the end of a connection turns one state into another, and whether the
/// agent is gone by that.
pub open spec fn closes(
    before: AppState,
    after: AppState,
    conn: u64,
    agent: Seq<char>,
    timer: u64,
    gone: bool,
) -> bool {
    &&& gone == connected_by(before.agents@, agent, conn)
    &&& !gone ==> after == before
    &&& gone ==> {
        &&& after.agents@ == before.agents@.remove(agent)
        &&& after.disconnect_states@ == before.disconnect_states@.insert(
            agent,
            DisconnectState::Pending(timer),
        )
        &&& after.pending_exec@ == kept(before.pending_exec@, asked_another(agent))
        &&& after.operation_owners@ == kept(before.operation_owners@, elsewhere(agent))
        &&& after.ui_clients == before.ui_clients
        &&& same_waits(after, before)
    }
}

/// Whether the end of the time an agent had to come back turns one state into
/// another, and whether the agent counts as gone by that.
pub open spec fn runs_out(
    before: AppState,
    after: AppState,
    agent: Seq<char>,
    now: i64,
    told: bool,
) -> bool {
    &&& told == (before.disconnect_states@.contains_key(agent)
        && before.disconnect_states@[agent] is Pending)
    &&& told ==> after.disconnect_states@ == before.disconnect_states@.insert(
        agent,
        DisconnectState::Confirmed { since: now, last_alert: now },
    )
    &&& !told ==> after.disconnect_states == before.disconnect_states
    &&& after.agents == before.agents
    &&& same_users(after, before)
}

fn same_list(a: &Vec<String>, b: &Vec<String>) -> (r: bool)
    ensures
        r == (texts(a@) == texts(b@)),
{
    if a.len() != b.len() {
        assert(texts(a@).len() != texts(b@).len());
        return false;
    }
    let mut i: usize = 0;
    while i < a.len()
        invariant
            i <= a.len(),
            a.len() == b.len(),
            forall|j: int| 0 <= j < i ==> (#[trigger] a@[j])@ == b@[j]@,
        decreases a.len() - i,
    {
        if !str_eq(a[i].as_str(), b[i].as_str()) {
            assert(texts(a@)[i as int] != texts(b@)[i as int]);
            return false;
        }
        i += 1;
    }
    assert(texts(a@) =~= texts(b@)) by {
        assert forall|j: int| 0 <= j < a@.len() implies texts(a@)[j] == texts(b@)[j] by {
            assert(a@[j]@ == b@[j]@);
        }
    }
    true
}

impl AppState {
    /// Nothing is connected.
    pub fn new() -> (r: Self)
        ensures
            r.agents@ == Map::<Seq<char>, AgentEntry>::empty(),
            r.disconnect_states@ == Map::<Seq<char>, DisconnectState>::empty(),
            r.ui_clients@ == Map::<u64, UiClient>::empty(),
            r.operation_owners@ == Map::<(Seq<char>, OpKey), u64>::empty(),
            r.pending_exec@ == Map::<Seq<char>, String>::empty(),
            r.scheduled_apt_runs@ == Set::<Seq<char>>::empty(),
            r.pending_backup_lists@ == Map::<Seq<char>, Vec<u64>>::empty(),
            r.pending_backup_restores@ == Map::<Seq<char>, Vec<u64>>::empty(),
            r.recorder@ == Set::<Seq<char>>::empty(),
    {
        AppState {
            agents: StrMap::new(),
            disconnect_states: StrMap::new(),
            ui_clients: KeyMap::new(),
            operation_owners: OperationOwners::default(),
            pending_exec: PendingExec::new(),
            scheduled_apt_runs: ScheduledRuns::new(),
            pending_backup_lists: Waiters::new(),
            pending_backup_restores: Waiters::new(),
            recorder: Recorder::new(),
        }
    }

    /// An agent registered through a connection. From now on it is connected
    /// through that one, and it is no longer gone.
    pub fn register(
        &mut self,
        conn: u64,
        hostname: &str,
        protocol_version: u32,
        capabilities: Vec<String>,
    ) -> (r: Registered)
        ensures
            registers(
                *old(self),
                *final(self),
                conn,
                hostname@,
                protocol_version,
                capabilities,
                r,
            ),
    {
        let id = cat2(hostname, "-id");
        self.agents.insert(id.clone(), AgentEntry { conn, capabilities });
        let back = match self.disconnect_states.remove(&id) {
            None => Return::Quiet,
            Some(DisconnectState::Pending(timer)) => Return::InTime { timer },
            Some(DisconnectState::Confirmed { .. }) => Return::Announced,
        };
        let version = u64_text(protocol_version as u64);
        let audit = Audit {
            actor: None,
            agent_id: Some(id.clone()),
            kind: "agent.register".to_owned(),
            ok: true,
            detail: Some(cat2("protocol_version=", version.as_str())),
        };
        Registered { agent_id: id, back, audit }
    }

    /// An agent can do other things than before: whether that is news.
    pub fn update_capabilities(&mut self, agent_id: &str, capabilities: Vec<String>) -> (r: bool)
        ensures
            updates_capabilities(*old(self), *final(self), agent_id@, capabilities, r),
    {
        let key = agent_id.to_owned();
        let conn: u64 = match self.agents.get(&key) {
            None => return false,
            Some(entry) => {
                if same_list(&entry.capabilities, &capabilities) {
                    return false;
                }
                entry.conn
            },
        };
        self.agents.insert(key, AgentEntry { conn, capabilities });
        true
    }

    /// The connection of an agent, where it is connected.
    pub fn connection_of(&self, agent_id: &str) -> (r: Option<u64>)
        ensures
            r == (if self.agents@.contains_key(agent_id@) {
                Some(self.agents@[agent_id@].conn)
            } else {
                None
            }),
    {
        let key = agent_id.to_owned();
        match self.agents.get(&key) {
            Some(entry) => Some(entry.conn),
            None => None,
        }
    }

    /// A connected agent that an access covers, with what it can do.
    pub fn agent_info(&self, access: &AgentAccess, agent_id: &str) -> (r: Option<AgentInfo>)
        ensures
            match r {
                Some(info) => self.agents@.contains_key(agent_id@) && allows(access@, agent_id@)
                    && info@.agent_id == agent_id@ && info@.capabilities == texts(
                    self.agents@[agent_id@].capabilities@,
                ),
                None => !self.agents@.contains_key(agent_id@) || !allows(access@, agent_id@),
            },
    {
        if !agent_allowed_by_access(agent_id, access) {
            return None;
        }
        let key = agent_id.to_owned();
        match self.agents.get(&key) {
            Some(entry) => Some(
                AgentInfo {
                    agent_id: agent_id.to_owned(),
                    capabilities: copy_texts(&entry.capabilities),
                },
            ),
            None => None,
        }
    }

    /// The connected agents that an access covers, with what they can do.
    pub fn agent_list(&self, access: &AgentAccess) -> (r: Vec<AgentInfo>)
        ensures
            lists_agents(r@, self.agents@, access@),
    {
        let n: usize = self.agents.len();
        let ghost all = self.agents.list();
        let ghost mut from: Seq<int> = Seq::empty();
        let mut out: Vec<AgentInfo> = Vec::new();
        let mut i: usize = 0;
        while i < n
            invariant
                i <= n,
                n == all.len(),
                all == self.agents.list(),
                out@.len() == from.len(),
                forall|x: int|
                    0 <= x < from.len() ==> 0 <= #[trigger] from[x] < i && out@[x]@.agent_id
                        == all[from[x]].0@ && allows(access@, all[from[x]].0@)
                        && out@[x]@.capabilities == texts(all[from[x]].1.capabilities@),
                forall|x: int, y: int|
                    0 <= x < y < from.len() ==> #[trigger] from[x] < #[trigger] from[y],
                forall|x: int|
                    0 <= x < i && allows(access@, (#[trigger] all[x]).0@) ==> from.contains(x),
            decreases n - i,
        {
            let (id, entry) = self.agents.entry(i);
            let ghost before = from;
            if agent_allowed_by_access(id.as_str(), access) {
                let capabilities = copy_texts(&entry.capabilities);
                out.push(AgentInfo { agent_id: id.clone(), capabilities });
                proof {
                    from = from.push(i as int);
                    assert(from[from.len() - 1] == i);
                }
            }
            proof {
                assert forall|x: int|
                    0 <= x < i + 1 && allows(access@, (#[trigger] all[x]).0@) implies from.contains(x) by {
                    if x < i {
                        let k = choose|k: int| 0 <= k < before.len() && before[k] == x;
                        assert(from[k] == x);
                    } else {
                        assert(from[from.len() - 1] == x);
                    }
                }
            }
            i += 1;
        }
        proof {
            assert forall|x: int| 0 <= x < out@.len() implies self.agents@.contains_key(
                (#[trigger] out@[x])@.agent_id,
            ) && allows(access@, out@[x]@.agent_id) && out@[x]@.capabilities == texts(
                self.agents@[out@[x]@.agent_id].capabilities@,
            ) by {
                assert(0 <= from[x] < n);
                assert(self.agents@.contains_key(all[from[x]].0@));
            }
            assert forall|x: int, y: int| 0 <= x < y < out@.len() implies (#[trigger] out@[x])@.agent_id
                != (#[trigger] out@[y])@.agent_id by {
                assert(from[x] < from[y]);
                assert(all[from[x]].0@ != all[from[y]].0@);
            }
            assert forall|id: Seq<char>| #[trigger]
                self.agents@.contains_key(id) && allows(access@, id) implies exists|x: int|
                0 <= x < out@.len() && (#[trigger] out@[x])@.agent_id == id by {
                let a = choose|a: int| 0 <= a < all.len() && (#[trigger] all[a]).0@ == id;
                assert(from.contains(a));
                let x = choose|x: int| 0 <= x < from.len() && from[x] == a;
                assert(out@[x]@.agent_id == id);
            }
        }
        out
    }

    /// A connection of an agent ended: whether the agent is gone by that. Where a
    /// newer connection has taken its place, nothing happens. Else it is no longer
    /// connected, nobody waits for its answers, nobody owns an operation on it,
    /// and the timer with the number `timer` decides when it counts as gone.
    pub fn close(&mut self, conn: u64, agent_id: &str, timer: u64) -> (r: bool)
        ensures
            closes(*old(self), *final(self), conn, agent_id@, timer, r),
    {
        let key = agent_id.to_owned();
        let ours = match self.agents.get(&key) {
            Some(entry) => entry.conn == conn,
            None => false,
        };
        if !ours {
            return false;
        }
        self.agents.remove(&key);
        let ghost exec = self.pending_exec@;
        let ghost owners = self.operation_owners@;
        self.pending_exec.forget_agent(agent_id);
        self.operation_owners.release_agent(agent_id);
        assert(self.pending_exec@ =~= kept(exec, asked_another(agent_id@)));
        assert(self.operation_owners@ =~= kept(owners, elsewhere(agent_id@)));
        self.disconnect_states.insert(key, DisconnectState::Pending(timer));
        true
    }

    /// The time an agent had to come back is over: whether it counts as gone now.
    pub fn grace_elapsed(&mut self, agent_id: &str, now: i64) -> (r: bool)
        ensures
            runs_out(*old(self), *final(self), agent_id@, now, r),
    {
        let key = agent_id.to_owned();
        let pending = match self.disconnect_states.get(&key) {
            Some(DisconnectState::Pending(_)) => true,
            _ => false,
        };
        if pending {
            self.disconnect_states.insert(
                key,
                DisconnectState::Confirmed { since: now, last_alert: now },
            );
        }
        pending
    }

    /// The agents that are still gone and are due to be told of again, each with
    /// the seconds it has been gone. They count as told of now.
    pub fn due_alerts(&mut self, now: i64, every: i64) -> (r: Vec<(String, i64)>)
        requires
            times_fit(old(self).disconnect_states@, now),
            every > 0,
        ensures
            forall|i: int|
                0 <= i < r@.len() ==> old(self).disconnect_states@.contains_key(
                    (#[trigger] r@[i]).0@,
                ) && alert_due(old(self).disconnect_states@[r@[i].0@], now, every) && r@[i].1 == now
                    - old(self).disconnect_states@[r@[i].0@]->since,
            forall|i: int, j: int|
                0 <= i < j < r@.len() ==> (#[trigger] r@[i]).0@ != (#[trigger] r@[j]).0@,
            forall|k: Seq<char>| #[trigger]
                old(self).disconnect_states@.contains_key(k) && alert_due(
                    old(self).disconnect_states@[k],
                    now,
                    every,
                ) ==> exists|i: int| 0 <= i < r@.len() && (#[trigger] r@[i]).0@ == k,
            final(self).disconnect_states@ == old(self).disconnect_states@.map_values(
                |s: DisconnectState| alerted(s, now, every),
            ),
            final(self).agents == old(self).agents,
            same_users(*final(self), *old(self)),
    {
        let ghost start = self.disconnect_states@;
        let n: usize = self.disconnect_states.len();
        let ghost list = self.disconnect_states.list();
        let mut due: Vec<(String, i64)> = Vec::new();
        let mut since_of: Vec<i64> = Vec::new();
        let ghost mut from: Seq<int> = Seq::empty();
        let mut i: usize = 0;
        while i < n
            invariant
                i <= n,
                n == list.len(),
                list == self.disconnect_states.list(),
                start == self.disconnect_states@,
                times_fit(start, now),
                every > 0,
                forall|x: int|
                    0 <= x < list.len() ==> start.contains_key((#[trigger] list[x]).0@)
                        && start[list[x].0@] == list[x].1,
                due@.len() == since_of@.len(),
                due@.len() == from.len(),
                forall|x: int|
                    0 <= x < from.len() ==> 0 <= #[trigger] from[x] < i && due@[x].0@
                        == list[from[x]].0@ && alert_due(list[from[x]].1, now, every) && since_of@[x]
                        == list[from[x]].1->since && due@[x].1 == now - since_of@[x],
                forall|x: int, y: int|
                    0 <= x < y < from.len() ==> #[trigger] from[x] < #[trigger] from[y],
                forall|x: int|
                    0 <= x < i && alert_due((#[trigger] list[x]).1, now, every) ==> from.contains(x),
            decreases n - i,
        {
            let (id, state) = self.disconnect_states.entry(i);
            let ghost before = from;
            assert(start.contains_key(list[i as int].0@));
            if let DisconnectState::Confirmed { since, last_alert } = state {
                if now - *last_alert >= every {
                    due.push((id.clone(), now - *since));
                    since_of.push(*since);
                    proof {
                        from = from.push(i as int);
                        assert(from[from.len() - 1] == i);
                    }
                }
            }
            proof {
                assert forall|x: int|
                    0 <= x < i + 1 && alert_due((#[trigger] list[x]).1, now, every) implies from.contains(
                    x,
                ) by {
                    if x < i {
                        let k = choose|k: int| 0 <= k < before.len() && before[k] == x;
                        assert(from[k] == x);
                    } else {
                        assert(from[from.len() - 1] == x);
                    }
                }
            }
            i += 1;
        }
        let mut j: usize = 0;
        while j < due.len()
            invariant
                j <= due.len(),
                due@.len() == since_of@.len(),
                due@.len() == from.len(),
                n == list.len(),
                self.agents == old(self).agents,
                same_users(*self, *old(self)),
                forall|x: int|
                    0 <= x < list.len() ==> start.contains_key((#[trigger] list[x]).0@)
                        && start[list[x].0@] == list[x].1,
                forall|x: int, y: int|
                    0 <= x < list.len() && 0 <= y < list.len() && x != y ==> (#[trigger] list[x]).0@
                        != (#[trigger] list[y]).0@,
                forall|x: int|
                    0 <= x < from.len() ==> 0 <= #[trigger] from[x] < n && due@[x].0@
                        == list[from[x]].0@ && alert_due(list[from[x]].1, now, every) && since_of@[x]
                        == list[from[x]].1->since,
                forall|x: int, y: int|
                    0 <= x < y < from.len() ==> #[trigger] from[x] < #[trigger] from[y],
                self.disconnect_states@.dom() == start.dom(),
                forall|x: int|
                    0 <= x < j ==> self.disconnect_states@[(#[trigger] due@[x]).0@]
                        == (DisconnectState::Confirmed { since: since_of@[x], last_alert: now }),
                forall|k: Seq<char>| #[trigger]
                    start.contains_key(k) && (forall|x: int|
                        0 <= x < j ==> (#[trigger] due@[x]).0@ != k) ==> self.disconnect_states@[k]
                        == start[k],
            decreases due.len() - j,
        {
            let ghost prev = self.disconnect_states@;
            let ghost here = due@[j as int].0@;
            let state = DisconnectState::Confirmed { since: since_of[j], last_alert: now };
            assert(0 <= from[j as int] < n);
            assert(start.dom().contains(here));
            self.disconnect_states.insert(due[j].0.clone(), state);
            proof {
                assert(self.disconnect_states@.dom() =~= start.dom());
                assert forall|x: int| 0 <= x < j + 1 implies self.disconnect_states@[(#[trigger] due@[x]).0@]
                    == (DisconnectState::Confirmed { since: since_of@[x], last_alert: now }) by {
                    if x < j {
                        assert(from[x] < from[j as int]);
                        assert(due@[x].0@ != here);
                    }
                }
                assert forall|k: Seq<char>| #[trigger]
                    start.contains_key(k) && (forall|x: int|
                        0 <= x < j + 1 ==> (#[trigger] due@[x]).0@ != k) implies self.disconnect_states@[k]
                    == start[k] by {
                    assert(due@[j as int].0@ != k);
                    assert(forall|x: int| 0 <= x < j ==> (#[trigger] due@[x]).0@ != k);
                }
            }
            j += 1;
        }
        proof {
            let f = |s: DisconnectState| alerted(s, now, every);
            assert forall|k: Seq<char>| start.contains_key(k) implies self.disconnect_states@[k]
                == #[trigger] start.map_values(f)[k] by {
                let x = choose|x: int| 0 <= x < list.len() && (#[trigger] list[x]).0@ == k;
                assert(exists|x: int| 0 <= x < list.len() && (#[trigger] list[x]).0@ == k);
                if alert_due(start[k], now, every) {
                    assert(from.contains(x));
                    let y = choose|y: int| 0 <= y < from.len() && from[y] == x;
                    assert(due@[y].0@ == k);
                    assert(self.disconnect_states@[due@[y].0@] == (DisconnectState::Confirmed {
                        since: since_of@[y],
                        last_alert: now,
                    }));
                } else {
                    assert forall|y: int| 0 <= y < due@.len() implies (#[trigger] due@[y]).0@ != k by {
                        assert(0 <= from[y] < n);
                    }
                }
            }
            assert(self.disconnect_states@ =~= start.map_values(f));
            assert forall|a: int| 0 <= a < due@.len() implies start.contains_key((#[trigger] due@[a]).0@)
                && alert_due(start[due@[a].0@], now, every) && due@[a].1 == now
                - start[due@[a].0@]->since by {
                assert(0 <= from[a] < n);
                assert(start.contains_key(list[from[a]].0@));
            }
            assert forall|a: int, b: int| 0 <= a < b < due@.len() implies (#[trigger] due@[a]).0@ != (
            #[trigger] due@[b]).0@ by {
                assert(from[a] < from[b]);
            }
            assert forall|k: Seq<char>| #[trigger]
                start.contains_key(k) && alert_due(start[k], now, every) implies exists|a: int|
                0 <= a < due@.len() && (#[trigger] due@[a]).0@ == k by {
                let x = choose|x: int| 0 <= x < list.len() && (#[trigger] list[x]).0@ == k;
                assert(from.contains(x));
                let y = choose|y: int| 0 <= y < from.len() && from[y] == x;
                assert(due@[y].0@ == k);
            }
        }
        due
    }
}

/// What an agent's message comes to.
pub struct Received {
    /// Who waited for it, by ticket: for a list of archives or a restore.
    pub waiter: Option<u64>,
    /// Whether it answers a command that was waited for.
    pub answers_command: bool,
    /// Whether it reports on an upgrade that a window or a hand started.
    pub reports_upgrade: bool,
    /// Whether it is mirrored to a recording.
    pub mirrored: bool,
    /// The users who get it.
    pub recipients: Vec<u64>,
}

/// Who has waited longest for an agent.
pub open spec fn first_waiting(m: Map<Seq<char>, Vec<u64>>, agent: Seq<char>) -> Option<u64> {
    if waiting(m, agent).len() > 0 {
        Some(waiting(m, agent)[0])
    } else {
        None
    }
}

/// Those who wait for an agent after it answered one of them.
pub open spec fn one_less(
    before: Map<Seq<char>, Vec<u64>>,
    after: Map<Seq<char>, Vec<u64>>,
    agent: Seq<char>,
) -> bool {
    &&& after.remove(agent) == before.remove(agent)
    &&& waiting(after, agent) == (if waiting(before, agent).len() > 0 {
        waiting(before, agent).skip(1)
    } else {
        waiting(before, agent)
    })
}

/// Whether a user gets an agent's message: they are still there and may see the
/// agent, and the operation that it belongs to, where it belongs to one, is theirs.
/// Answers to commands go to nobody.
pub open spec fn gets(s: AppState, agent: Seq<char>, m: Message, id: u64) -> bool {
    &&& !(m is RunCommandResponse)
    &&& s.ui_clients@.contains_key(id)
    &&& allows(s.ui_clients@[id].agent_access@, agent)
    &&& match agent_operation_of(m) {
        Some((key, ends)) => owner_of(s.operation_owners@, agent, key) == Some(id),
        None => true,
    }
}

/// Whether a list holds exactly the users who get an agent's message, each once.
pub open spec fn are_recipients(ids: Seq<u64>, s: AppState, agent: Seq<char>, m: Message) -> bool {
    &&& ids.no_duplicates()
    &&& forall|id: u64| #[trigger] ids.contains(id) <==> gets(s, agent, m, id)
}

/// The owners after an agent's message: an operation that it ends has none.
pub open spec fn owners_after(
    owners: Map<(Seq<char>, OpKey), u64>,
    agent: Seq<char>,
    m: Message,
) -> Map<(Seq<char>, OpKey), u64> {
    match agent_operation_of(m) {
        Some((key, ends)) if ends && !(m is RunCommandResponse) => owners.remove((agent, key)),
        _ => owners,
    }
}

/// Whether an agent's message turns one state into another, and what it comes to.
/// Each part of the state changes by the one kind of message that concerns it.
pub open spec fn receives(
    before: AppState,
    after: AppState,
    agent: Seq<char>,
    m: Message,
    r: Received,
) -> bool {
    &&& are_recipients(r.recipients@, before, agent, m)
    &&& after.operation_owners@ == owners_after(before.operation_owners@, agent, m)
    &&& r.waiter == (match m {
        Message::BackupListArchivesResponse { .. } => first_waiting(
            before.pending_backup_lists@,
            agent,
        ),
        Message::BackupRestoreResponse { .. } => first_waiting(
            before.pending_backup_restores@,
            agent,
        ),
        _ => None,
    })
    &&& if m is BackupListArchivesResponse {
        one_less(before.pending_backup_lists@, after.pending_backup_lists@, agent)
    } else {
        after.pending_backup_lists == before.pending_backup_lists
    }
    &&& if m is BackupRestoreResponse {
        one_less(before.pending_backup_restores@, after.pending_backup_restores@, agent)
    } else {
        after.pending_backup_restores == before.pending_backup_restores
    }
    &&& match m {
        Message::RunCommandResponse { request_id, .. } => r.answers_command == (awaited(
            before.pending_exec@,
            request_id@,
        ) == Some(agent)) && after.pending_exec@ == after_answer(
            before.pending_exec@,
            request_id@,
            agent,
        ),
        _ => !r.answers_command && after.pending_exec == before.pending_exec,
    }
    &&& if m is AptUpgradeResponse {
        r.reports_upgrade == before.scheduled_apt_runs@.contains(agent)
            && after.scheduled_apt_runs@ == before.scheduled_apt_runs@.remove(agent)
    } else {
        !r.reports_upgrade && after.scheduled_apt_runs == before.scheduled_apt_runs
    }
    &&& r.mirrored == (m matches Message::TerminalData { session_id, .. } && session_id@.len() > 0
        && before.recorder@.contains(session_id@))
    &&& after.recorder == before.recorder
    &&& after.agents == before.agents
    &&& after.disconnect_states == before.disconnect_states
    &&& after.ui_clients == before.ui_clients
}

/// Whether a client has joined.
pub open spec fn joins(before: AppState, after: AppState, client_id: u64, client: UiClient) -> bool {
    &&& after.ui_clients@ == before.ui_clients@.insert(client_id, client)
    &&& after.operation_owners == before.operation_owners
    &&& same_agents(after, before)
    &&& same_waits(after, before)
}

/// Whether a client, if it is there, sees other agents from now on.
pub open spec fn gets_access(before: AppState, after: AppState, client_id: u64, access: AgentAccess) -> bool {
    &&& after.ui_clients@ == (if before.ui_clients@.contains_key(client_id) {
        before.ui_clients@.insert(
            client_id,
            (UiClient { agent_access: access, ..before.ui_clients@[client_id] }),
        )
    } else {
        before.ui_clients@
    })
    &&& after.operation_owners == before.operation_owners
    &&& same_agents(after, before)
    &&& same_waits(after, before)
}

/// Whether a client has left.
pub open spec fn leaves(before: AppState, after: AppState, client_id: u64) -> bool {
    &&& after.ui_clients@ == before.ui_clients@.remove(client_id)
    &&& after.operation_owners == before.operation_owners
    &&& same_agents(after, before)
    &&& same_waits(after, before)
}

impl AppState {
    /// A user came.
    pub fn join(&mut self, client_id: u64, client: UiClient)
        ensures
            joins(*old(self), *final(self), client_id, client),
    {
        self.ui_clients.insert(client_id, client);
    }

    /// What a user may see was found out anew.
    pub fn set_access(&mut self, client_id: u64, access: AgentAccess)
        ensures
            gets_access(*old(self), *final(self), client_id, access),
    {
        let ghost before = self.ui_clients@;
        match self.ui_clients.remove(&client_id) {
            None => {
                assert(self.ui_clients@ =~= before);
            },
            Some(client) => {
                let changed = UiClient {
                    login: client.login,
                    client_ip: client.client_ip,
                    agent_access: access,
                };
                let ghost c = changed;
                self.ui_clients.insert(client_id, changed);
                assert(self.ui_clients@ =~= before.insert(client_id, c));
            },
        }
    }

    /// Whether a user may see one agent was found out anew.
    pub fn merge_access(&mut self, client_id: u64, agent_id: &str, exact: &AgentAccess)
        ensures
            final(self).ui_clients@.remove(client_id) == old(self).ui_clients@.remove(client_id),
            final(self).ui_clients@.contains_key(client_id) == old(self).ui_clients@.contains_key(
                client_id,
            ),
            old(self).ui_clients@.contains_key(client_id) ==> {
                let before = old(self).ui_clients@[client_id];
                let after = final(self).ui_clients@[client_id];
                after.login == before.login && after.client_ip == before.client_ip
                    && after.agent_access@ == merged(before.agent_access@, agent_id@, exact@)
            },
            final(self).operation_owners == old(self).operation_owners,
            same_agents(*final(self), *old(self)),
            same_waits(*final(self), *old(self)),
    {
        let ghost before = self.ui_clients@;
        match self.ui_clients.remove(&client_id) {
            None => {
                assert(self.ui_clients@.remove(client_id) =~= before.remove(client_id));
            },
            Some(client) => {
                let mut access = client.agent_access;
                merge_exact_agent_access(&mut access, agent_id, exact);
                self.ui_clients.insert(
                    client_id,
                    UiClient {
                        login: client.login,
                        client_ip: client.client_ip,
                        agent_access: access,
                    },
                );
                assert(self.ui_clients@.remove(client_id) =~= before.remove(client_id));
            },
        }
    }

    /// A user cannot be reached any more. What they own stays theirs until their
    /// connection ends.
    pub fn drop_client(&mut self, client_id: u64)
        ensures
            leaves(*old(self), *final(self), client_id),
    {
        self.ui_clients.remove(&client_id);
    }

    /// A user's connection ended: they own nothing any more.
    pub fn leave(&mut self, client_id: u64)
        ensures
            final(self).ui_clients@ == old(self).ui_clients@.remove(client_id),
            final(self).operation_owners@ == kept(
                old(self).operation_owners@,
                owned_by_another(client_id),
            ),
            same_agents(*final(self), *old(self)),
            same_waits(*final(self), *old(self)),
    {
        let ghost owners = self.operation_owners@;
        self.ui_clients.remove(&client_id);
        self.operation_owners.release_client(client_id);
        assert(self.operation_owners@ =~= kept(owners, owned_by_another(client_id)));
    }

    /// A user sends a message to an agent: whether they may, as far as the
    /// operation it belongs to is concerned. They may start one that is free, and
    /// use and stop their own.
    pub fn claim_operation(&mut self, client_id: u64, agent_id: &str, m: &Message) -> (r: bool)
        ensures
            match ui_operation_of(*m) {
                None => r && final(self).operation_owners == old(self).operation_owners,
                Some(op) => r == may_apply(old(self).operation_owners@, agent_id@, op, client_id)
                    && final(self).operation_owners@ == after_apply(
                    old(self).operation_owners@,
                    agent_id@,
                    op,
                    client_id,
                ),
            },
            final(self).ui_clients == old(self).ui_clients,
            same_agents(*final(self), *old(self)),
            same_waits(*final(self), *old(self)),
    {
        match ui_operation(m) {
            None => true,
            Some(op) => self.operation_owners.apply(agent_id, &op, client_id),
        }
    }

    /// The users whose access covers an agent.
    fn all_watchers(&self, agent_id: &str) -> (r: Vec<u64>)
        ensures
            r@.no_duplicates(),
            forall|id: u64| #[trigger]
                r@.contains(id) <==> self.ui_clients@.contains_key(id) && allows(
                    self.ui_clients@[id].agent_access@,
                    agent_id@,
                ),
    {
        let n: usize = self.ui_clients.len();
        let ghost all = self.ui_clients.list();
        let ghost mut from: Seq<int> = Seq::empty();
        let mut out: Vec<u64> = Vec::new();
        let mut i: usize = 0;
        while i < n
            invariant
                i <= n,
                n == all.len(),
                all == self.ui_clients.list(),
                out@.len() == from.len(),
                forall|x: int|
                    0 <= x < from.len() ==> 0 <= #[trigger] from[x] < i && out@[x] == all[from[x]].0
                        && allows(all[from[x]].1.agent_access@, agent_id@),
                forall|x: int, y: int|
                    0 <= x < y < from.len() ==> #[trigger] from[x] < #[trigger] from[y],
                forall|x: int|
                    0 <= x < i && allows((#[trigger] all[x]).1.agent_access@, agent_id@)
                        ==> from.contains(x),
            decreases n - i,
        {
            let (id, client) = self.ui_clients.entry(i);
            let ghost before = from;
            if agent_allowed_by_access(agent_id, &client.agent_access) {
                out.push(*id);
                proof {
                    from = from.push(i as int);
                    assert(from[from.len() - 1] == i);
                }
            }
            proof {
                assert forall|x: int|
                    0 <= x < i + 1 && allows((#[trigger] all[x]).1.agent_access@, agent_id@) implies from.contains(
                    x,
                ) by {
                    if x < i {
                        let k = choose|k: int| 0 <= k < before.len() && before[k] == x;
                        assert(from[k] == x);
                    } else {
                        assert(from[from.len() - 1] == x);
                    }
                }
            }
            i += 1;
        }
        proof {
            assert forall|x: int, y: int| 0 <= x < out@.len() && 0 <= y < out@.len() && x != y implies out@[x]
                != out@[y] by {
                assert(from[x] != from[y]);
                assert(all[from[x]].0@ != all[from[y]].0@);
            }
            assert forall|id: u64| #[trigger] out@.contains(id) <==> self.ui_clients@.contains_key(id)
                && allows(self.ui_clients@[id].agent_access@, agent_id@) by {
                if out@.contains(id) {
                    let k = choose|k: int| 0 <= k < out@.len() && out@[k] == id;
                    assert(0 <= from[k] < n);
                    assert(self.ui_clients@.contains_key(all[from[k]].0@));
                }
                if self.ui_clients@.contains_key(id) && allows(
                    self.ui_clients@[id].agent_access@,
                    agent_id@,
                ) {
                    let a = choose|a: int| 0 <= a < all.len() && (#[trigger] all[a]).0@ == id;
                    assert(from.contains(a));
                    let x = choose|x: int| 0 <= x < from.len() && from[x] == a;
                    assert(out@[x] == id);
                }
            }
        }
        out
    }

    /// The users who get an agent's message. An operation that the message ends
    /// has no owner any more.
    fn route(&mut self, agent_id: &str, m: &Message) -> (r: Vec<u64>)
        requires
            !(*m is RunCommandResponse),
        ensures
            are_recipients(r@, *old(self), agent_id@, *m),
            final(self).operation_owners@ == owners_after(
                old(self).operation_owners@,
                agent_id@,
                *m,
            ),
            final(self).ui_clients == old(self).ui_clients,
            same_agents(*final(self), *old(self)),
            same_waits(*final(self), *old(self)),
    {
        match agent_operation(m) {
            None => self.all_watchers(agent_id),
            Some(op) => {
                let owner: Option<u64> = self.operation_owners.owner(agent_id, &op.key);
                if op.ends {
                    self.operation_owners.release_agent_operation(agent_id, &op.key);
                }
                let mut out: Vec<u64> = Vec::new();
                if let Some(id) = owner {
                    let there = match self.ui_clients.get(&id) {
                        Some(client) => agent_allowed_by_access(agent_id, &client.agent_access),
                        None => false,
                    };
                    if there {
                        out.push(id);
                        assert(out@[0] == id);
                    }
                }
                assert(are_recipients(out@, *old(self), agent_id@, *m));
                out
            },
        }
    }

    /// A registered agent sent a message that is neither a registration nor a sign
    /// of life: who waited for it, and who gets it.
    pub fn receive(&mut self, agent_id: &str, m: &Message) -> (r: Received)
        ensures
            receives(*old(self), *final(self), agent_id@, *m, r),
    {
        let mut waiter: Option<u64> = None;
        let mut reports_upgrade = false;
        let mut mirrored = false;
        match m {
            Message::RunCommandResponse { request_id, .. } => {
                let answers_command = self.pending_exec.resolve(request_id.as_str(), agent_id);
                let none: Vec<u64> = Vec::new();
                assert(are_recipients(none@, *old(self), agent_id@, *m));
                return Received {
                    waiter: None,
                    answers_command,
                    reports_upgrade: false,
                    mirrored: false,
                    recipients: none,
                };
            },
            Message::BackupListArchivesResponse { .. } => {
                waiter = self.pending_backup_lists.pop(agent_id);
            },
            Message::BackupRestoreResponse { .. } => {
                waiter = self.pending_backup_restores.pop(agent_id);
            },
            Message::AptUpgradeResponse { .. } => {
                reports_upgrade = self.scheduled_apt_runs.finish(agent_id);
            },
            Message::TerminalData { session_id, .. } => {
                mirrored = self.recorder.frame(session_id.as_str());
            },
            _ => {},
        }
        let recipients = self.route(agent_id, m);
        Received { waiter, answers_command: false, reports_upgrade, mirrored, recipients }
    }
}

/// Where a newer connection of an agent has registered, the end of an older one
/// changes nothing: the agent stays connected.
pub proof fn law_newer_connection_survives(
    before: AppState,
    between: AppState,
    after: AppState,
    older: u64,
    newer: u64,
    hostname: Seq<char>,
    protocol_version: u32,
    capabilities: Vec<String>,
    registered: Registered,
    timer: u64,
    gone: bool,
)
    requires
        newer != older,
        registers(before, between, newer, hostname, protocol_version, capabilities, registered),
        closes(between, after, older, agent_name(hostname), timer, gone),
    ensures
        !gone,
        after == between,
        connected_by(after.agents@, agent_name(hostname), newer),
{
}

/// An agent that is back in time is told of neither as gone nor as back: it comes
/// back quietly, and where its timer runs out all the same nothing comes of it.
pub proof fn law_disconnects_are_debounced(
    before: AppState,
    closed: AppState,
    back: AppState,
    after: AppState,
    conn: u64,
    timer: u64,
    newer: u64,
    hostname: Seq<char>,
    protocol_version: u32,
    capabilities: Vec<String>,
    registered: Registered,
    now: i64,
    told: bool,
)
    requires
        closes(before, closed, conn, agent_name(hostname), timer, true),
        registers(closed, back, newer, hostname, protocol_version, capabilities, registered),
        runs_out(back, after, agent_name(hostname), now, told),
    ensures
        registered.back == (Return::InTime { timer }),
        !told,
        after.disconnect_states == back.disconnect_states,
        connected_by(after.agents@, agent_name(hostname), newer),
{
}

/// An agent that is not back in time is told of as gone, once, and when it comes
/// back that is told too.
pub proof fn law_long_absences_are_told(
    before: AppState,
    closed: AppState,
    missed: AppState,
    again: AppState,
    back: AppState,
    conn: u64,
    timer: u64,
    newer: u64,
    hostname: Seq<char>,
    protocol_version: u32,
    capabilities: Vec<String>,
    registered: Registered,
    now: i64,
    later: i64,
    told: bool,
    told_again: bool,
)
    requires
        closes(before, closed, conn, agent_name(hostname), timer, true),
        runs_out(closed, missed, agent_name(hostname), now, told),
        runs_out(missed, again, agent_name(hostname), later, told_again),
        registers(again, back, newer, hostname, protocol_version, capabilities, registered),
    ensures
        told,
        !told_again,
        registered.back == Return::Announced,
        return_of(back.disconnect_states@, agent_name(hostname)) == Return::Quiet,
{
}

/// A user gets an agent's message only if they may see the agent, and what belongs
/// to no operation and answers no command all those get who may.
pub proof fn law_messages_reach_only_who_may_see(
    before: AppState,
    after: AppState,
    agent: Seq<char>,
    m: Message,
    r: Received,
    id: u64,
)
    requires
        receives(before, after, agent, m, r),
    ensures
        r.recipients@.contains(id) ==> before.ui_clients@.contains_key(id) && allows(
            before.ui_clients@[id].agent_access@,
            agent,
        ),
        agent_operation_of(m) is None && !(m is RunCommandResponse) ==> (r.recipients@.contains(id)
            <==> before.ui_clients@.contains_key(id) && allows(
            before.ui_clients@[id].agent_access@,
            agent,
        )),
{
}

/// The output of an operation goes to its owner and to nobody else.
pub proof fn law_output_reaches_only_its_owner(
    before: AppState,
    after: AppState,
    agent: Seq<char>,
    m: Message,
    r: Received,
    id: u64,
)
    requires
        agent_operation_of(m) is Some,
        receives(before, after, agent, m, r),
        r.recipients@.contains(id),
    ensures
        agent_operation_of(m) matches Some((key, ends)) ==> owner_of(
            before.operation_owners@,
            agent,
            key,
        ) == Some(id),
{
}

/// What a user has started comes to that user, for as long as they may see the agent,
/// and to nobody else. Output leaves it theirs, so that the next piece comes to them
/// too; its last word frees it, and only it.
pub proof fn law_output_reaches_who_started_it(
    earlier: Map<(Seq<char>, OpKey), u64>,
    before: AppState,
    after: AppState,
    agent: Seq<char>,
    start: Message,
    m: Message,
    r: Received,
    client: u64,
    id: u64,
)
    requires
        is_piece(start, m) || is_first_word(start, m) || is_last_word(start, m),
        ui_operation_of(start) is Some,
        may_apply(earlier, agent, ui_operation_of(start)->0, client),
        before.operation_owners@ == after_apply(earlier, agent, ui_operation_of(start)->0, client),
        receives(before, after, agent, m, r),
    ensures
        r.recipients@.contains(id) <==> id == client && before.ui_clients@.contains_key(id) && allows(
            before.ui_clients@[id].agent_access@,
            agent,
        ),
        !is_last_word(start, m) ==> after.operation_owners@ == before.operation_owners@,
        is_last_word(start, m) ==> may_apply(
            after.operation_owners@,
            agent,
            ui_operation_of(start)->0,
            id,
        ),
{
    law_messages_of_one_operation_belong_together(start, m);
}

/// A piece of a stream changes the owner of nothing. Only the end of a stream, a
/// failed start or a complete answer frees an operation.
pub proof fn law_only_ends_free_operations(
    before: AppState,
    after: AppState,
    agent: Seq<char>,
    m: Message,
    r: Received,
)
    requires
        receives(before, after, agent, m, r),
    ensures
        m is K8sLogsChunk || m is DockerLogsChunk || m is JournalLogsChunk || m is JournalStreamChunk
            || m is TerminalData ==> after.operation_owners@ == before.operation_owners@,
        after.operation_owners@ != before.operation_owners@ ==> m is K8sLogsEnd || m is DockerLogsEnd
            || m is JournalLogsEnd || m is JournalStreamEnd || (m matches Message::K8sExecResponse {
            success,
            ..
        } && !success) || (m matches Message::DockerExecStartResponse { success, .. } && !success) || (
        m matches Message::TrustedOperationHost { complete, .. } && complete),
{
}

/// What an agent sends about one of its operations touches no other operation, and
/// none of another agent.
pub proof fn law_ends_free_one_operation(
    before: AppState,
    after: AppState,
    agent: Seq<char>,
    m: Message,
    r: Received,
    other_agent: Seq<char>,
    other: OpKey,
)
    requires
        receives(before, after, agent, m, r),
        other_agent != agent || (agent_operation_of(m) matches Some((key, _)) ==> key != other),
    ensures
        owner_of(after.operation_owners@, other_agent, other)
            == owner_of(before.operation_owners@, other_agent, other),
{
}

/// Those who wait for an agent's archives, or for a restore, are served in turn, one
/// by each answer, and no answer serves those who wait for the other thing.
pub proof fn law_waiters_are_served_in_turn(
    before: AppState,
    after: AppState,
    agent: Seq<char>,
    m: Message,
    r: Received,
    first: u64,
    rest: Seq<u64>,
)
    requires
        receives(before, after, agent, m, r),
    ensures
        m is BackupListArchivesResponse && waiting(before.pending_backup_lists@, agent) == seq![first]
            + rest ==> r.waiter == Some(first) && waiting(after.pending_backup_lists@, agent) == rest
            && after.pending_backup_restores == before.pending_backup_restores,
        m is BackupRestoreResponse && waiting(before.pending_backup_restores@, agent) == seq![first]
            + rest ==> r.waiter == Some(first) && waiting(after.pending_backup_restores@, agent)
            == rest && after.pending_backup_lists == before.pending_backup_lists,
        m is BackupListArchivesResponse && waiting(before.pending_backup_lists@, agent).len() == 0
            ==> r.waiter is None,
        m is BackupRestoreResponse && waiting(before.pending_backup_restores@, agent).len() == 0
            ==> r.waiter is None,
        !(m is BackupListArchivesResponse || m is BackupRestoreResponse) ==> r.waiter is None
            && after.pending_backup_lists == before.pending_backup_lists
            && after.pending_backup_restores == before.pending_backup_restores,
{
    assert((seq![first] + rest).skip(1) =~= rest);
}

/// The answer to a command goes to who waits for it, and to no user. It is taken
/// from the agent that was asked, once.
pub proof fn law_command_answers_go_to_who_waits(
    before: AppState,
    after: AppState,
    agent: Seq<char>,
    m: Message,
    r: Received,
    asked: Seq<char>,
    id: u64,
)
    requires
        receives(before, after, agent, m, r),
        m is RunCommandResponse,
        awaited(before.pending_exec@, m->RunCommandResponse_request_id@)
            == Some(asked),
    ensures
        !r.recipients@.contains(id),
        r.answers_command <==> asked == agent,
        awaited(after.pending_exec@, m->RunCommandResponse_request_id@) == (
        if asked == agent {
            None
        } else {
            Some(asked)
        }),
{
}

/// An upgrade is reported on once for each time that one was started, and only by
/// the agent's answer to an upgrade.
pub proof fn law_upgrades_are_reported_once(
    before: AppState,
    after: AppState,
    agent: Seq<char>,
    m: Message,
    r: Received,
    last: AppState,
    again: Message,
    r2: Received,
)
    requires
        receives(before, after, agent, m, r),
        receives(after, last, agent, again, r2),
    ensures
        r.reports_upgrade <==> m is AptUpgradeResponse && before.scheduled_apt_runs@.contains(agent),
        m is AptUpgradeResponse ==> !r2.reports_upgrade,
        !(m is AptUpgradeResponse) ==> after.scheduled_apt_runs == before.scheduled_apt_runs,
{
}

/// What a terminal shows goes to its recording exactly where there is one.
pub proof fn law_recorded_terminals_are_mirrored(
    before: AppState,
    after: AppState,
    agent: Seq<char>,
    m: Message,
    r: Received,
)
    requires
        receives(before, after, agent, m, r),
    ensures
        r.mirrored ==> m is TerminalData,
        m matches Message::TerminalData { session_id, .. } ==> (r.mirrored <==> session_id@.len() > 0
            && before.recorder@.contains(session_id@)),
        after.recorder == before.recorder,
{
}

/// An agent that has registered is there under the name of its host, on the newest
/// connection, with what it says it can do. All others stay as they were.
pub proof fn law_registered_agents_are_there(
    before: AppState,
    after: AppState,
    conn: u64,
    hostname: Seq<char>,
    protocol_version: u32,
    capabilities: Vec<String>,
    r: Registered,
    other: Seq<char>,
)
    requires
        registers(before, after, conn, hostname, protocol_version, capabilities, r),
    ensures
        after.agents@.contains_key(hostname + "-id"@),
        after.agents@[hostname + "-id"@].conn == conn,
        after.agents@[hostname + "-id"@].capabilities == capabilities,
        r.agent_id@ == hostname + "-id"@,
        r.audit@.ok && r.audit@.agent_id == Some(hostname + "-id"@),
        other != hostname + "-id"@ ==> (after.agents@.contains_key(other)
            <==> before.agents@.contains_key(other)) && after.agents@[other] == before.agents@[other]
            && (after.disconnect_states@.contains_key(other)
            <==> before.disconnect_states@.contains_key(other)),
        !after.disconnect_states@.contains_key(hostname + "-id"@),
{
}

/// What an agent says that it can do counts from then on, on the same connection, and
/// is news exactly where it differs.
pub proof fn law_capabilities_are_the_last_ones(
    before: AppState,
    after: AppState,
    agent: Seq<char>,
    capabilities: Vec<String>,
    news: bool,
)
    requires
        updates_capabilities(before, after, agent, capabilities, news),
        before.agents@.contains_key(agent),
    ensures
        after.agents@.contains_key(agent),
        texts(after.agents@[agent].capabilities@) == texts(capabilities@),
        after.agents@[agent].conn == before.agents@[agent].conn,
        news <==> texts(before.agents@[agent].capabilities@) != texts(capabilities@),
{
}

/// An absence is told of again when the set time has passed since it was last told
/// of, no earlier, for as long as it lasts. One that was not told of yet is not.
pub proof fn law_absences_are_told_of_again_in_time(
    s: DisconnectState,
    now: i64,
    later: i64,
    every: i64,
)
    requires
        every > 0,
        now <= later,
    ensures
        s is Pending ==> !alert_due(s, now, every) && alerted(s, now, every) == s,
        s matches DisconnectState::Confirmed { since, last_alert } ==> {
            &&& alert_due(s, now, every) <==> last_alert + every <= now
            &&& alert_due(s, now, every) ==> (alert_due(alerted(s, now, every), later, every)
                <==> now + every <= later)
            &&& !alert_due(s, now, every) ==> alerted(s, now, every) == s
            &&& alerted(s, now, every)->since == since
        },
{
}

/// When an agent is gone, it is listed no more, what was asked of it is given up, and
/// what ran on it is free; other agents keep all of theirs.
pub proof fn law_departed_agents_leave_nothing(
    before: AppState,
    after: AppState,
    conn: u64,
    agent: Seq<char>,
    timer: u64,
    gone: bool,
    other: Seq<char>,
    key: OpKey,
    request_id: Seq<char>,
)
    requires
        closes(before, after, conn, agent, timer, gone),
    ensures
        gone <==> before.agents@.contains_key(agent) && before.agents@[agent].conn == conn,
        gone ==> !after.agents@.contains_key(agent),
        gone ==> after.disconnect_states@[agent] == DisconnectState::Pending(timer),
        gone ==> owner_of(after.operation_owners@, agent, key) is None,
        gone ==> awaited(after.pending_exec@, request_id) != Some(agent),
        other != agent ==> owner_of(after.operation_owners@, other, key)
            == owner_of(before.operation_owners@, other, key),
        other != agent ==> (after.agents@.contains_key(other) <==> before.agents@.contains_key(other)),
        awaited(before.pending_exec@, request_id) == Some(other) && other
            != agent ==> awaited(after.pending_exec@, request_id) == Some(other),
{
}

/// A user sees the agents that are connected and that they may see, each once and with
/// what it can do, and no others.
pub proof fn law_users_see_their_agents(
    infos: Seq<AgentInfo>,
    agents: Map<Seq<char>, AgentEntry>,
    access: Option<Set<Seq<char>>>,
    id: Seq<char>,
)
    requires
        lists_agents(infos, agents, access),
    ensures
        (exists|i: int| 0 <= i < infos.len() && (#[trigger] infos[i])@.agent_id == id) <==> agents.contains_key(
            id,
        ) && allows(access, id),
        forall|i: int|
            0 <= i < infos.len() ==> (#[trigger] infos[i])@.capabilities == texts(
                agents[infos[i]@.agent_id].capabilities@,
            ),
{
}

/// A client that joins is there with its own rights, what it may see can change, and when
/// it leaves it is gone. No other client, no agent and no running operation is touched.
pub proof fn law_clients_come_and_go_alone(
    before: AppState,
    joined: AppState,
    changed: AppState,
    left: AppState,
    id: u64,
    other: u64,
    client: UiClient,
    access: AgentAccess,
)
    requires
        joins(before, joined, id, client),
        gets_access(joined, changed, id, access),
        leaves(changed, left, id),
        other != id,
    ensures
        joined.ui_clients@.contains_key(id) && joined.ui_clients@[id] == client,
        changed.ui_clients@.contains_key(id) && changed.ui_clients@[id].agent_access == access
            && changed.ui_clients@[id].login == client.login && changed.ui_clients@[id].client_ip
            == client.client_ip,
        !left.ui_clients@.contains_key(id),
        left.ui_clients@.contains_key(other) == before.ui_clients@.contains_key(other),
        before.ui_clients@.contains_key(other) ==> left.ui_clients@[other] == before.ui_clients@[other]
            && changed.ui_clients@[other] == before.ui_clients@[other],
        left.agents == before.agents && left.operation_owners == before.operation_owners
            && left.disconnect_states == before.disconnect_states && left.pending_exec
            == before.pending_exec && left.recorder == before.recorder,
{
}

/// Nobody who has not joined can be given anything to see.
pub proof fn law_strangers_get_no_access(before: AppState, after: AppState, id: u64, access: AgentAccess)
    requires
        gets_access(before, after, id, access),
        !before.ui_clients@.contains_key(id),
    ensures
        after.ui_clients@ == before.ui_clients@,
{
}

} // verus!
