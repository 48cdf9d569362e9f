//! Which client owns a long-running operation on an agent, and which operation
//! a message belongs to.

use vstd::prelude::*;
use crate::message::Message;
use crate::strmap::{Key, KeyMap, kept};
use crate::text::str_eq;

verus! {

/// What tells one operation on an agent from another.
#[derive(Debug, Clone, PartialEq, Eq, Hash)]
pub enum OperationKey {
    Terminal(String),
    DockerExec,
    K8sLogs(String),
    DockerLogs(String),
    JournalLogs(String),
    JournalStream(String),
    Trusted(String),
}

/// What a client wants with an operation.
#[derive(Debug, Clone, PartialEq, Eq)]
pub enum UiOperation {
    Start(OperationKey),
    Use(OperationKey),
    Stop(OperationKey),
}

/// The operation that an agent's message belongs to, and whether the message
/// ends it.
#[derive(Debug, Clone, PartialEq, Eq)]
pub struct AgentOperation {
    pub key: OperationKey,
    pub ends: bool,
}

/// The view of `OperationKey`.
pub enum OpKey {
    Terminal(Seq<char>),
    DockerExec,
    K8sLogs(Seq<char>),
    DockerLogs(Seq<char>),
    JournalLogs(Seq<char>),
    JournalStream(Seq<char>),
    Trusted(Seq<char>),
}

/// The view of `UiOperation`.
pub enum UiOp {
    Start(OpKey),
    Use(OpKey),
    Stop(OpKey),
}

impl View for OperationKey {
    type V = OpKey;

    open spec fn view(&self) -> OpKey {
        match self {
            OperationKey::Terminal(s) => OpKey::Terminal(s@),
            OperationKey::DockerExec => OpKey::DockerExec,
            OperationKey::K8sLogs(s) => OpKey::K8sLogs(s@),
            OperationKey::DockerLogs(s) => OpKey::DockerLogs(s@),
            OperationKey::JournalLogs(s) => OpKey::JournalLogs(s@),
            OperationKey::JournalStream(s) => OpKey::JournalStream(s@),
            OperationKey::Trusted(s) => OpKey::Trusted(s@),
        }
    }
}

impl View for UiOperation {
    type V = UiOp;

    open spec fn view(&self) -> UiOp {
        match self {
            UiOperation::Start(k) => UiOp::Start(k@),
            UiOperation::Use(k) => UiOp::Use(k@),
            UiOperation::Stop(k) => UiOp::Stop(k@),
        }
    }
}

impl OperationKey {
    /// The same key once more.
    pub fn copy(&self) -> (r: OperationKey)
        ensures
            r@ == self@,
    {
        match self {
            OperationKey::Terminal(s) => OperationKey::Terminal(s.clone()),
            OperationKey::DockerExec => OperationKey::DockerExec,
            OperationKey::K8sLogs(s) => OperationKey::K8sLogs(s.clone()),
            OperationKey::DockerLogs(s) => OperationKey::DockerLogs(s.clone()),
            OperationKey::JournalLogs(s) => OperationKey::JournalLogs(s.clone()),
            OperationKey::JournalStream(s) => OperationKey::JournalStream(s.clone()),
            OperationKey::Trusted(s) => OperationKey::Trusted(s.clone()),
        }
    }

    /// Whether both keys name the same operation.
    pub fn same_operation(&self, other: &OperationKey) -> (r: bool)
        ensures
            r == (self@ == other@),
    {
        match (self, other) {
            (OperationKey::Terminal(a), OperationKey::Terminal(b)) => str_eq(
                a.as_str(),
                b.as_str(),
            ),
            (OperationKey::DockerExec, OperationKey::DockerExec) => true,
            (OperationKey::K8sLogs(a), OperationKey::K8sLogs(b)) => str_eq(a.as_str(), b.as_str()),
            (OperationKey::DockerLogs(a), OperationKey::DockerLogs(b)) => str_eq(
                a.as_str(),
                b.as_str(),
            ),
            (OperationKey::JournalLogs(a), OperationKey::JournalLogs(b)) => str_eq(
                a.as_str(),
                b.as_str(),
            ),
            (OperationKey::JournalStream(a), OperationKey::JournalStream(b)) => str_eq(
                a.as_str(),
                b.as_str(),
            ),
            (OperationKey::Trusted(a), OperationKey::Trusted(b)) => str_eq(a.as_str(), b.as_str()),
            _ => false,
        }
    }
}

/// An operation on a certain agent.
pub struct OwnedKey {
    pub agent_id: String,
    pub key: OperationKey,
}

impl View for OwnedKey {
    type V = (Seq<char>, OpKey);

    open spec fn view(&self) -> (Seq<char>, OpKey) {
        (self.agent_id@, self.key@)
    }
}

impl Key for OwnedKey {
    fn same(&self, other: &Self) -> (r: bool) {
        str_eq(self.agent_id.as_str(), other.agent_id.as_str()) && self.key.same_operation(
            &other.key,
        )
    }
}

fn owned(agent_id: &str, key: OperationKey) -> (r: OwnedKey)
    ensures
        r@ == (agent_id@, key@),
{
    OwnedKey { agent_id: agent_id.to_owned(), key }
}

/// Which client owns each running operation. No operation has two owners.
pub struct OperationOwners {
    owners: KeyMap<OwnedKey, u64>,
}

impl View for OperationOwners {
    type V = Map<(Seq<char>, OpKey), u64>;

    closed spec fn view(&self) -> Map<(Seq<char>, OpKey), u64> {
        self.owners@
    }
}

/// The owner of an operation.
pub open spec fn owner_of(m: Map<(Seq<char>, OpKey), u64>, agent: Seq<char>, key: OpKey) -> Option<
    u64,
> {
    if m.contains_key((agent, key)) {
        Some(m[(agent, key)])
    } else {
        None
    }
}

impl Default for OperationOwners {
    fn default() -> (r: Self)
        ensures
            r@ == Map::<(Seq<char>, OpKey), u64>::empty(),
    {
        OperationOwners { owners: KeyMap::new() }
    }
}

impl OperationOwners {
    /// Makes `client_id` the owner of an operation that has none. Tells whether
    /// `client_id` owns it afterwards.
    pub fn claim(&mut self, agent_id: &str, key: OperationKey, client_id: u64) -> (r: bool)
        ensures
            r == (owner_of(old(self)@, agent_id@, key@) == None::<u64> || owner_of(
                old(self)@,
                agent_id@,
                key@,
            ) == Some(client_id)),
            final(self)@ == (if owner_of(old(self)@, agent_id@, key@) is None {
                old(self)@.insert((agent_id@, key@), client_id)
            } else {
                old(self)@
            }),
    {
        let map_key = owned(agent_id, key);
        match self.owners.get(&map_key) {
            Some(owner) => *owner == client_id,
            None => {
                self.owners.insert(map_key, client_id);
                true
            },
        }
    }

    /// The client that owns an operation.
    pub fn owner(&self, agent_id: &str, key: &OperationKey) -> (r: Option<u64>)
        ensures
            r == owner_of(self@, agent_id@, key@),
    {
        let map_key = owned(agent_id, key.copy());
        match self.owners.get(&map_key) {
            Some(owner) => Some(*owner),
            None => None,
        }
    }

    /// Gives up an operation if `client_id` owns it, and tells whether it did.
    pub fn release(&mut self, agent_id: &str, key: &OperationKey, client_id: u64) -> (r: bool)
        ensures
            r == (owner_of(old(self)@, agent_id@, key@) == Some(client_id)),
            final(self)@ == (if r {
                old(self)@.remove((agent_id@, key@))
            } else {
                old(self)@
            }),
    {
        let owner = self.owner(agent_id, key);
        match owner {
            Some(id) => {
                if id == client_id {
                    let map_key = owned(agent_id, key.copy());
                    self.owners.remove(&map_key);
                    true
                } else {
                    false
                }
            },
            None => false,
        }
    }

    /// Gives up an operation, whoever owns it.
    pub fn release_agent_operation(&mut self, agent_id: &str, key: &OperationKey)
        ensures
            final(self)@ == old(self)@.remove((agent_id@, key@)),
    {
        let map_key = owned(agent_id, key.copy());
        self.owners.remove(&map_key);
    }

    /// Gives up every operation of a client.
    pub fn release_client(&mut self, client_id: u64)
        ensures
            final(self)@ == kept(
                old(self)@,
                |k: (Seq<char>, OpKey), owner: u64| owner != client_id,
            ),
    {
        let ghost p = |k: (Seq<char>, OpKey), owner: u64| owner != client_id;
        let keep = |k: &OwnedKey, owner: &u64| -> (b: bool)
            ensures
                b == (*owner != client_id),
        {
            *owner != client_id
        };
        self.owners.retain(keep, Ghost(p));
    }

    /// Gives up every operation on an agent.
    pub fn release_agent(&mut self, agent_id: &str)
        ensures
            final(self)@ == kept(
                old(self)@,
                |k: (Seq<char>, OpKey), owner: u64| k.0 != agent_id@,
            ),
    {
        let ghost p = |k: (Seq<char>, OpKey), owner: u64| k.0 != agent_id@;
        let keep = |k: &OwnedKey, owner: &u64| -> (b: bool)
            ensures
                b == (k@.0 != agent_id@),
        {
            !str_eq(k.agent_id.as_str(), agent_id)
        };
        self.owners.retain(keep, Ghost(p));
    }

    /// Does to the owners what `client_id` asks for, and tells whether it may.
    pub fn apply(&mut self, agent_id: &str, operation: &UiOperation, client_id: u64) -> (r: bool)
        ensures
            r == may_apply(old(self)@, agent_id@, operation@, client_id),
            final(self)@ == after_apply(old(self)@, agent_id@, operation@, client_id),
    {
        match operation {
            UiOperation::Start(key) => self.claim(agent_id, key.copy(), client_id),
            UiOperation::Use(key) => {
                match self.owner(agent_id, key) {
                    Some(id) => id == client_id,
                    None => false,
                }
            },
            UiOperation::Stop(key) => self.release(agent_id, key, client_id),
        }
    }
}

/// Whether a client may start, use or stop an operation: it may start one that
/// is free or its own, and use or stop its own only.
pub open spec fn may_apply(
    m: Map<(Seq<char>, OpKey), u64>,
    agent: Seq<char>,
    op: UiOp,
    client: u64,
) -> bool {
    match op {
        UiOp::Start(k) => owner_of(m, agent, k) is None || owner_of(m, agent, k) == Some(client),
        UiOp::Use(k) => owner_of(m, agent, k) == Some(client),
        UiOp::Stop(k) => owner_of(m, agent, k) == Some(client),
    }
}

/// The owners after a client's request.
pub open spec fn after_apply(
    m: Map<(Seq<char>, OpKey), u64>,
    agent: Seq<char>,
    op: UiOp,
    client: u64,
) -> Map<(Seq<char>, OpKey), u64> {
    match op {
        UiOp::Start(k) => if owner_of(m, agent, k) is None {
            m.insert((agent, k), client)
        } else {
            m
        },
        UiOp::Use(k) => m,
        UiOp::Stop(k) => if owner_of(m, agent, k) == Some(client) {
            m.remove((agent, k))
        } else {
            m
        },
    }
}

/// The key of a terminal session: the empty session is the container shell.
pub open spec fn terminal_key_of(session: Seq<char>) -> OpKey {
    if session.len() == 0 {
        OpKey::DockerExec
    } else {
        OpKey::Terminal(session)
    }
}

/// The key of a terminal session: the empty session is the container shell.
pub fn terminal_key(session_id: &str) -> (r: OperationKey)
    ensures
        r@ == terminal_key_of(session_id@),
{
    if str_eq(session_id, "") {
        proof {
            reveal_strlit("");
        }
        OperationKey::DockerExec
    } else {
        assert(session_id@.len() == 0 ==> session_id@ == ""@) by {
            reveal_strlit("");
            if session_id@.len() == 0 {
                assert(session_id@ =~= ""@);
            }
        }
        OperationKey::Terminal(session_id.to_owned())
    }
}

/// What a client's message does to an operation.
pub open spec fn ui_operation_of(message: Message) -> Option<UiOp> {
    match message {
        Message::StartTerminalRequest { session_id } => Some(
            UiOp::Start(OpKey::Terminal(session_id@)),
        ),
        Message::K8sExecRequest { session_id, .. } => Some(
            UiOp::Start(OpKey::Terminal(session_id@)),
        ),
        Message::DockerExecStartRequest { .. } => Some(UiOp::Start(OpKey::DockerExec)),
        Message::K8sLogsRequest { stream_id, .. } => Some(UiOp::Start(OpKey::K8sLogs(stream_id@))),
        Message::DockerLogsRequest { container_id, .. } => Some(
            UiOp::Start(OpKey::DockerLogs(container_id@)),
        ),
        Message::JournalLogsRequest { unit, .. } => Some(UiOp::Start(OpKey::JournalLogs(unit@))),
        Message::JournalStreamRequest { stream_id, .. } => Some(
            UiOp::Start(OpKey::JournalStream(stream_id@)),
        ),
        Message::TerminalData { session_id, .. } => Some(UiOp::Use(terminal_key_of(session_id@))),
        Message::TerminalResize { session_id, .. } => Some(UiOp::Use(terminal_key_of(session_id@))),
        Message::StopTerminalRequest { session_id } => Some(
            UiOp::Stop(terminal_key_of(session_id@)),
        ),
        Message::DockerExecStopRequest => Some(UiOp::Stop(OpKey::DockerExec)),
        Message::K8sLogsStop { stream_id } => Some(UiOp::Stop(OpKey::K8sLogs(stream_id@))),
        Message::DockerLogsStop { container_id } => Some(
            UiOp::Stop(OpKey::DockerLogs(container_id@)),
        ),
        Message::JournalLogsStop { unit } => Some(UiOp::Stop(OpKey::JournalLogs(unit@))),
        Message::JournalStreamStop { stream_id } => Some(
            UiOp::Stop(OpKey::JournalStream(stream_id@)),
        ),
        Message::TrustedOperationClient { request_id, start, close, .. } => Some(
            if start {
                UiOp::Start(OpKey::Trusted(request_id@))
            } else if close {
                UiOp::Stop(OpKey::Trusted(request_id@))
            } else {
                UiOp::Use(OpKey::Trusted(request_id@))
            },
        ),
        _ => None,
    }
}

/// What a client's message does to an operation, if it is about one.
pub fn ui_operation(message: &Message) -> (r: Option<UiOperation>)
    ensures
        (match r {
            Some(op) => Some(op@),
            None => None,
        }) == ui_operation_of(*message),
{
    match message {
        Message::StartTerminalRequest { session_id } => Some(
            UiOperation::Start(OperationKey::Terminal(session_id.clone())),
        ),
        Message::K8sExecRequest { session_id, .. } => Some(
            UiOperation::Start(OperationKey::Terminal(session_id.clone())),
        ),
        Message::DockerExecStartRequest { .. } => Some(
            UiOperation::Start(OperationKey::DockerExec),
        ),
        Message::K8sLogsRequest { stream_id, .. } => Some(
            UiOperation::Start(OperationKey::K8sLogs(stream_id.clone())),
        ),
        Message::DockerLogsRequest { container_id, .. } => Some(
            UiOperation::Start(OperationKey::DockerLogs(container_id.clone())),
        ),
        Message::JournalLogsRequest { unit, .. } => Some(
            UiOperation::Start(OperationKey::JournalLogs(unit.clone())),
        ),
        Message::JournalStreamRequest { stream_id, .. } => Some(
            UiOperation::Start(OperationKey::JournalStream(stream_id.clone())),
        ),
        Message::TerminalData { session_id, .. } => Some(
            UiOperation::Use(terminal_key(session_id.as_str())),
        ),
        Message::TerminalResize { session_id, .. } => Some(
            UiOperation::Use(terminal_key(session_id.as_str())),
        ),
        Message::StopTerminalRequest { session_id } => Some(
            UiOperation::Stop(terminal_key(session_id.as_str())),
        ),
        Message::DockerExecStopRequest => Some(UiOperation::Stop(OperationKey::DockerExec)),
        Message::K8sLogsStop { stream_id } => Some(
            UiOperation::Stop(OperationKey::K8sLogs(stream_id.clone())),
        ),
        Message::DockerLogsStop { container_id } => Some(
            UiOperation::Stop(OperationKey::DockerLogs(container_id.clone())),
        ),
        Message::JournalLogsStop { unit } => Some(
            UiOperation::Stop(OperationKey::JournalLogs(unit.clone())),
        ),
        Message::JournalStreamStop { stream_id } => Some(
            UiOperation::Stop(OperationKey::JournalStream(stream_id.clone())),
        ),
        Message::TrustedOperationClient { request_id, start, close, .. } => {
            let key = OperationKey::Trusted(request_id.clone());
            if *start {
                Some(UiOperation::Start(key))
            } else if *close {
                Some(UiOperation::Stop(key))
            } else {
                Some(UiOperation::Use(key))
            }
        },
        _ => None,
    }
}

/// The operation that an agent's message belongs to, and whether it ends it.
pub open spec fn agent_operation_of(message: Message) -> Option<(OpKey, bool)> {
    match message {
        Message::TerminalData { session_id, .. } => Some((terminal_key_of(session_id@), false)),
        Message::K8sExecResponse { session_id, success, .. } => Some(
            (OpKey::Terminal(session_id@), !success),
        ),
        Message::DockerExecStartResponse { success, .. } => Some((OpKey::DockerExec, !success)),
        Message::K8sLogsChunk { stream_id, .. } => Some((OpKey::K8sLogs(stream_id@), false)),
        Message::K8sLogsEnd { stream_id, .. } => Some((OpKey::K8sLogs(stream_id@), true)),
        Message::DockerLogsChunk { container_id, .. } => Some(
            (OpKey::DockerLogs(container_id@), false),
        ),
        Message::DockerLogsEnd { container_id, .. } => Some(
            (OpKey::DockerLogs(container_id@), true),
        ),
        Message::JournalLogsChunk { unit, .. } => Some((OpKey::JournalLogs(unit@), false)),
        Message::JournalLogsEnd { unit, .. } => Some((OpKey::JournalLogs(unit@), true)),
        Message::JournalStreamChunk { stream_id, .. } => Some(
            (OpKey::JournalStream(stream_id@), false),
        ),
        Message::JournalStreamEnd { stream_id, .. } => Some(
            (OpKey::JournalStream(stream_id@), true),
        ),
        Message::TrustedOperationHost { request_id, complete, .. } => Some(
            (OpKey::Trusted(request_id@), complete),
        ),
        _ => None,
    }
}

/// The operation that an agent's message belongs to, if it belongs to one.
pub fn agent_operation(message: &Message) -> (r: Option<AgentOperation>)
    ensures
        (match r {
            Some(op) => Some((op.key@, op.ends)),
            None => None,
        }) == agent_operation_of(*message),
{
    let (key, ends) = match message {
        Message::TerminalData { session_id, .. } => (terminal_key(session_id.as_str()), false),
        Message::K8sExecResponse { session_id, success, .. } => (
            OperationKey::Terminal(session_id.clone()),
            !*success,
        ),
        Message::DockerExecStartResponse { success, .. } => (OperationKey::DockerExec, !*success),
        Message::K8sLogsChunk { stream_id, .. } => (
            OperationKey::K8sLogs(stream_id.clone()),
            false,
        ),
        Message::K8sLogsEnd { stream_id, .. } => (OperationKey::K8sLogs(stream_id.clone()), true),
        Message::DockerLogsChunk { container_id, .. } => (
            OperationKey::DockerLogs(container_id.clone()),
            false,
        ),
        Message::DockerLogsEnd { container_id, .. } => (
            OperationKey::DockerLogs(container_id.clone()),
            true,
        ),
        Message::JournalLogsChunk { unit, .. } => (OperationKey::JournalLogs(unit.clone()), false),
        Message::JournalLogsEnd { unit, .. } => (OperationKey::JournalLogs(unit.clone()), true),
        Message::JournalStreamChunk { stream_id, .. } => (
            OperationKey::JournalStream(stream_id.clone()),
            false,
        ),
        Message::JournalStreamEnd { stream_id, .. } => (
            OperationKey::JournalStream(stream_id.clone()),
            true,
        ),
        Message::TrustedOperationHost { request_id, complete, .. } => (
            OperationKey::Trusted(request_id.clone()),
            *complete,
        ),
        _ => {
            return None;
        },
    };
    Some(AgentOperation { key, ends })
}

/// A client that may use an operation stays the only one that may, whatever
/// requests other clients make.
pub proof fn law_ownership_is_exclusive(
    m: Map<(Seq<char>, OpKey), u64>,
    agent: Seq<char>,
    key: OpKey,
    client: u64,
    other_agent: Seq<char>,
    op: UiOp,
    other: u64,
)
    requires
        owner_of(m, agent, key) == Some(client),
        other != client,
    ensures
        owner_of(after_apply(m, other_agent, op, other), agent, key) == Some(client),
        !may_apply(m, agent, UiOp::Start(key), other),
        !may_apply(m, agent, UiOp::Use(key), other),
        !may_apply(m, agent, UiOp::Stop(key), other),
{
}

/// After a client has started an operation it may use it, and after it has
/// stopped it nobody owns it.
pub proof fn law_start_use_stop(
    m: Map<(Seq<char>, OpKey), u64>,
    agent: Seq<char>,
    key: OpKey,
    client: u64,
)
    requires
        may_apply(m, agent, UiOp::Start(key), client),
    ensures
        ({
            let started = after_apply(m, agent, UiOp::Start(key), client);
            &&& may_apply(started, agent, UiOp::Use(key), client)
            &&& may_apply(started, agent, UiOp::Stop(key), client)
            &&& owner_of(after_apply(started, agent, UiOp::Stop(key), client), agent, key) is None
        }),
{
}

/// A client's departure frees its operations and leaves all others as they were.
pub proof fn law_departure_frees_only_own(
    m: Map<(Seq<char>, OpKey), u64>,
    agent: Seq<char>,
    key: OpKey,
    client: u64,
)
    ensures
        owner_of(
            kept(m, |k: (Seq<char>, OpKey), owner: u64| owner != client),
            agent,
            key,
        ) == (if owner_of(m, agent, key) == Some(client) {
            None
        } else {
            owner_of(m, agent, key)
        }),
{
}

/// Whether an agent's message is a piece of the output of what a request starts.
pub open spec fn is_piece(start: Message, m: Message) -> bool {
    match (start, m) {
        (Message::StartTerminalRequest { session_id: a }, Message::TerminalData { session_id: b, .. }) => {
            a@ == b@ && a@.len() > 0
        },
        (
            Message::K8sExecRequest { session_id: a, .. },
            Message::TerminalData { session_id: b, .. },
        ) => a@ == b@ && a@.len() > 0,
        (Message::DockerExecStartRequest { .. }, Message::TerminalData { session_id: b, .. }) => {
            b@.len() == 0
        },
        (
            Message::K8sLogsRequest { stream_id: a, .. },
            Message::K8sLogsChunk { stream_id: b, .. },
        ) => a@ == b@,
        (
            Message::DockerLogsRequest { container_id: a, .. },
            Message::DockerLogsChunk { container_id: b, .. },
        ) => a@ == b@,
        (
            Message::JournalLogsRequest { unit: a, .. },
            Message::JournalLogsChunk { unit: b, .. },
        ) => a@ == b@,
        (
            Message::JournalStreamRequest { stream_id: a, .. },
            Message::JournalStreamChunk { stream_id: b, .. },
        ) => a@ == b@,
        (
            Message::TrustedOperationClient { request_id: a, start: begins, .. },
            Message::TrustedOperationHost { request_id: b, complete, .. },
        ) => begins && a@ == b@ && !complete,
        _ => false,
    }
}

/// Whether an agent's message is the last word of what a request starts.
pub open spec fn is_last_word(start: Message, m: Message) -> bool {
    match (start, m) {
        (
            Message::K8sExecRequest { session_id: a, .. },
            Message::K8sExecResponse { session_id: b, success, .. },
        ) => a@ == b@ && !success,
        (
            Message::DockerExecStartRequest { .. },
            Message::DockerExecStartResponse { success, .. },
        ) => !success,
        (
            Message::K8sLogsRequest { stream_id: a, .. },
            Message::K8sLogsEnd { stream_id: b, .. },
        ) => a@ == b@,
        (
            Message::DockerLogsRequest { container_id: a, .. },
            Message::DockerLogsEnd { container_id: b, .. },
        ) => a@ == b@,
        (
            Message::JournalLogsRequest { unit: a, .. },
            Message::JournalLogsEnd { unit: b, .. },
        ) => a@ == b@,
        (
            Message::JournalStreamRequest { stream_id: a, .. },
            Message::JournalStreamEnd { stream_id: b, .. },
        ) => a@ == b@,
        (
            Message::TrustedOperationClient { request_id: a, start: begins, .. },
            Message::TrustedOperationHost { request_id: b, complete, .. },
        ) => begins && a@ == b@ && complete,
        _ => false,
    }
}

/// Whether an agent's message says that what a request asked for has begun.
pub open spec fn is_first_word(start: Message, m: Message) -> bool {
    match (start, m) {
        (
            Message::K8sExecRequest { session_id: a, .. },
            Message::K8sExecResponse { session_id: b, success, .. },
        ) => a@ == b@ && success,
        (
            Message::DockerExecStartRequest { .. },
            Message::DockerExecStartResponse { success, .. },
        ) => success,
        _ => false,
    }
}

/// Whether a user's message calls off what a request starts.
pub open spec fn calls_off(start: Message, m: Message) -> bool {
    match (start, m) {
        (
            Message::StartTerminalRequest { session_id: a },
            Message::StopTerminalRequest { session_id: b },
        ) => a@ == b@ && a@.len() > 0,
        (
            Message::K8sExecRequest { session_id: a, .. },
            Message::StopTerminalRequest { session_id: b },
        ) => a@ == b@ && a@.len() > 0,
        (
            Message::DockerExecStartRequest { .. },
            Message::StopTerminalRequest { session_id: b },
        ) => b@.len() == 0,
        (Message::DockerExecStartRequest { .. }, Message::DockerExecStopRequest) => true,
        (Message::K8sLogsRequest { stream_id: a, .. }, Message::K8sLogsStop { stream_id: b }) => {
            a@ == b@
        },
        (
            Message::DockerLogsRequest { container_id: a, .. },
            Message::DockerLogsStop { container_id: b },
        ) => a@ == b@,
        (Message::JournalLogsRequest { unit: a, .. }, Message::JournalLogsStop { unit: b }) => {
            a@ == b@
        },
        (
            Message::JournalStreamRequest { stream_id: a, .. },
            Message::JournalStreamStop { stream_id: b },
        ) => a@ == b@,
        (
            Message::TrustedOperationClient { request_id: a, start: begins, .. },
            Message::TrustedOperationClient { request_id: b, start: again, close, .. },
        ) => begins && a@ == b@ && !again && close,
        _ => false,
    }
}

/// Whether a user's message is input to what a request starts.
pub open spec fn is_input(start: Message, m: Message) -> bool {
    match (start, m) {
        (Message::StartTerminalRequest { session_id: a }, Message::TerminalData { session_id: b, .. }) => {
            a@ == b@ && a@.len() > 0
        },
        (
            Message::StartTerminalRequest { session_id: a },
            Message::TerminalResize { session_id: b, .. },
        ) => a@ == b@ && a@.len() > 0,
        (
            Message::K8sExecRequest { session_id: a, .. },
            Message::TerminalData { session_id: b, .. },
        ) => a@ == b@ && a@.len() > 0,
        (
            Message::K8sExecRequest { session_id: a, .. },
            Message::TerminalResize { session_id: b, .. },
        ) => a@ == b@ && a@.len() > 0,
        (Message::DockerExecStartRequest { .. }, Message::TerminalData { session_id: b, .. }) => {
            b@.len() == 0
        },
        (Message::DockerExecStartRequest { .. }, Message::TerminalResize { session_id: b, .. }) => {
            b@.len() == 0
        },
        (
            Message::TrustedOperationClient { request_id: a, start: begins, .. },
            Message::TrustedOperationClient { request_id: b, start: again, close, .. },
        ) => begins && a@ == b@ && !again && !close,
        _ => false,
    }
}

/// What a request starts, what is put into it, what comes out of it, and what ends
/// it, from either side, all count as one operation. Output, and the word that it
/// has begun, do not end it; its last word does.
pub proof fn law_messages_of_one_operation_belong_together(start: Message, m: Message)
    ensures
        is_piece(start, m) || is_first_word(start, m) ==> (ui_operation_of(start) matches Some(
            UiOp::Start(k),
        ) && agent_operation_of(m) == Some((k, false))),
        is_last_word(start, m) ==> (ui_operation_of(start) matches Some(UiOp::Start(k))
            && agent_operation_of(m) == Some((k, true))),
        calls_off(start, m) ==> (ui_operation_of(start) matches Some(UiOp::Start(k))
            && ui_operation_of(m) == Some(UiOp::Stop(k))),
        is_input(start, m) ==> (ui_operation_of(start) matches Some(UiOp::Start(k))
            && ui_operation_of(m) == Some(UiOp::Use(k))),
{
}

/// Two requests start the same operation only where they ask for the same kind of
/// thing under the same name.
pub proof fn law_operations_are_told_apart(a: Message, b: Message)
    requires
        ui_operation_of(a) is Some,
        ui_operation_of(a)->0 is Start,
        ui_operation_of(a) == ui_operation_of(b),
    ensures
        a matches Message::K8sLogsRequest { stream_id: x, .. } ==> (b matches Message::K8sLogsRequest {
            stream_id: y,
            ..
        } && x@ == y@),
        a matches Message::DockerLogsRequest { container_id: x, .. } ==> (
        b matches Message::DockerLogsRequest { container_id: y, .. } && x@ == y@),
        a matches Message::JournalLogsRequest { unit: x, .. } ==> (
        b matches Message::JournalLogsRequest { unit: y, .. } && x@ == y@),
        a matches Message::JournalStreamRequest { stream_id: x, .. } ==> (
        b matches Message::JournalStreamRequest { stream_id: y, .. } && x@ == y@),
        a is DockerExecStartRequest ==> b is DockerExecStartRequest,
        a matches Message::TrustedOperationClient { request_id: x, .. } ==> (
        b matches Message::TrustedOperationClient { request_id: y, start, .. } && x@ == y@ && start),
        a matches Message::StartTerminalRequest { session_id: x } ==> (match b {
            Message::StartTerminalRequest { session_id: y } => x@ == y@,
            Message::K8sExecRequest { session_id: y, .. } => x@ == y@,
            _ => false,
        }),
{
}

/// The messages that belong to no operation.
pub proof fn law_other_messages_belong_to_no_operation(m: Message)
    ensures
        agent_operation_of(m) is Some <==> m is TerminalData || m is K8sExecResponse
            || m is DockerExecStartResponse || m is K8sLogsChunk || m is K8sLogsEnd
            || m is DockerLogsChunk || m is DockerLogsEnd || m is JournalLogsChunk
            || m is JournalLogsEnd || m is JournalStreamChunk || m is JournalStreamEnd
            || m is TrustedOperationHost,
        ui_operation_of(m) is Some <==> m is StartTerminalRequest || m is K8sExecRequest
            || m is DockerExecStartRequest || m is K8sLogsRequest || m is DockerLogsRequest
            || m is JournalLogsRequest || m is JournalStreamRequest || m is TerminalData
            || m is TerminalResize || m is StopTerminalRequest || m is DockerExecStopRequest
            || m is K8sLogsStop || m is DockerLogsStop || m is JournalLogsStop
            || m is JournalStreamStop || m is TrustedOperationClient,
        m is TerminalData || m is K8sLogsChunk || m is DockerLogsChunk || m is JournalLogsChunk
            || m is JournalStreamChunk ==> (agent_operation_of(m) matches Some((_, ends)) && !ends),
        m is K8sLogsEnd || m is DockerLogsEnd || m is JournalLogsEnd || m is JournalStreamEnd ==> (
        agent_operation_of(m) matches Some((_, ends)) && ends),
{
}

/// A request touches the one operation that it is about, and only that.
pub proof fn law_requests_touch_one_operation(
    m: Map<(Seq<char>, OpKey), u64>,
    agent: Seq<char>,
    op: UiOp,
    client: u64,
    other_agent: Seq<char>,
    other: OpKey,
)
    requires
        other_agent != agent || (match op {
            UiOp::Start(k) => k != other,
            UiOp::Use(k) => k != other,
            UiOp::Stop(k) => k != other,
        }),
    ensures
        owner_of(after_apply(m, agent, op, client), other_agent, other) == owner_of(
            m,
            other_agent,
            other,
        ),
{
}

/// Anyone may start what nobody owns, and then owns it. Nobody can use or stop it.
pub proof fn law_free_operations_can_be_started(
    m: Map<(Seq<char>, OpKey), u64>,
    agent: Seq<char>,
    key: OpKey,
    client: u64,
)
    requires
        !m.contains_key((agent, key)),
    ensures
        may_apply(m, agent, UiOp::Start(key), client),
        !may_apply(m, agent, UiOp::Use(key), client),
        !may_apply(m, agent, UiOp::Stop(key), client),
        owner_of(after_apply(m, agent, UiOp::Start(key), client), agent, key) == Some(client),
        after_apply(m, agent, UiOp::Use(key), client) == m,
{
}

} // verus!
