//! One connection of a user to the dashboard's WebSocket.

use vstd::prelude::*;
use crate::ee_recording::{OpenSessions, Tap, open_after, recorded_after, tap_of};
use crate::hub::{AppState, owned_by_another, same_agents};
use crate::message::Message;
use crate::operation_routing::{OpKey, owner_of};
use crate::strmap::kept;
use crate::text::texts;

verus! {

/// One connection of a user: its number, and the terminal sessions it has opened.
pub struct UiSession {
    pub client_id: u64,
    pub sessions: OpenSessions,
}

/// Where a message that passed all gates goes.
pub struct Dispatch {
    /// What the recording of the session has to do with it.
    pub tap: Tap,
    /// The connection of the agent, where it is connected.
    pub conn: Option<u64>,
}

/// Whether two states differ in the recordings at most.
pub open spec fn same_but_recordings(a: AppState, b: AppState) -> bool {
    &&& same_agents(a, b)
    &&& a.ui_clients == b.ui_clients
    &&& a.operation_owners == b.operation_owners
    &&& a.scheduled_apt_runs == b.scheduled_apt_runs
    &&& a.pending_backup_lists == b.pending_backup_lists
    &&& a.pending_backup_restores == b.pending_backup_restores
}

/// Whether a message of a user is sent on so.
pub open spec fn dispatches(
    session: UiSession,
    after_session: UiSession,
    before: AppState,
    after: AppState,
    on: bool,
    agent_id: Seq<char>,
    m: Message,
    r: Dispatch,
) -> bool {
    &&& r.tap == tap_of(before.recorder@, on, m)
    &&& r.conn == (if before.agents@.contains_key(agent_id) {
        Some(before.agents@[agent_id].conn)
    } else {
        None
    })
    &&& after.recorder@ == recorded_after(before.recorder@, on, m)
    &&& same_but_recordings(after, before)
    &&& after_session.client_id == session.client_id
    &&& after_session.sessions@ == open_after(session.sessions@, m)
}

/// Whether a client is gone, and these of its recordings with it.
pub open spec fn hangs_up(
    before: AppState,
    after: AppState,
    client_id: u64,
    sessions: Set<Seq<char>>,
    stopped: Seq<Seq<char>>,
) -> bool {
    &&& after.ui_clients@ == before.ui_clients@.remove(client_id)
    &&& after.operation_owners@ == kept(before.operation_owners@, owned_by_another(client_id))
    &&& after.recorder@ == before.recorder@.difference(sessions)
    &&& stopped.to_set() == before.recorder@.intersect(sessions)
    &&& same_agents(after, before)
    &&& after.scheduled_apt_runs == before.scheduled_apt_runs
    &&& after.pending_backup_lists == before.pending_backup_lists
    &&& after.pending_backup_restores == before.pending_backup_restores
}

impl UiSession {
    /// A new connection.
    pub fn new(client_id: u64) -> (r: Self)
        ensures
            r.client_id == client_id,
            r.sessions@ == Set::<Seq<char>>::empty(),
    {
        UiSession { client_id, sessions: OpenSessions::new() }
    }

    /// Sends on a message that passed all gates: where to, and what the recording of
    /// the session has to do with it. `on` says whether sessions are recorded.
    pub fn dispatch(&mut self, hub: &mut AppState, on: bool, agent_id: &str, m: &Message) -> (r: Dispatch)
        ensures
            dispatches(*old(self), *final(self), *old(hub), *final(hub), on, agent_id@, *m, r),
    {
        let tap = self.sessions.tap(&mut hub.recorder, on, m);
        let conn: Option<u64> = hub.connection_of(agent_id);
        Dispatch { tap, conn }
    }

    /// The connection ended: the user is gone and owns nothing, and the recordings
    /// of the sessions that were left open end. Tells which ended.
    pub fn end(&self, hub: &mut AppState) -> (r: Vec<String>)
        ensures
            hangs_up(*old(hub), *final(hub), self.client_id, self.sessions@, texts(r@)),
    {
        hub.leave(self.client_id);
        self.sessions.close(&mut hub.recorder)
    }
}

/// Terminal sessions are not recorded beyond the connection that opened them: what
/// a connection's messages started to record is open in it, so that its end stops
/// it.
pub proof fn law_recordings_end_with_their_connection(
    recorded: Set<Seq<char>>,
    sessions: Set<Seq<char>>,
    on: bool,
    m: Message,
    session_id: Seq<char>,
)
    requires
        recorded_after(recorded, on, m).contains(session_id),
        !recorded.contains(session_id),
    ensures
        open_after(sessions, m).contains(session_id),
        !recorded_after(recorded, on, m).difference(open_after(sessions, m)).contains(session_id),
{
}

/// A message of a user goes to the connection of its agent, where there is one.
pub proof fn law_messages_go_to_their_agent(
    session: UiSession,
    after_session: UiSession,
    before: AppState,
    after: AppState,
    on: bool,
    agent_id: Seq<char>,
    m: Message,
    r: Dispatch,
)
    requires
        dispatches(session, after_session, before, after, on, agent_id, m, r),
    ensures
        r.conn is Some <==> before.agents@.contains_key(agent_id),
        r.conn is Some ==> r.conn->0 == before.agents@[agent_id].conn,
        after.agents == before.agents && after.ui_clients == before.ui_clients
            && after.operation_owners == before.operation_owners,
        after_session.client_id == session.client_id,
        m is StartTerminalRequest ==> after_session.sessions@.contains(
            m->StartTerminalRequest_session_id@,
        ),
        m is StopTerminalRequest ==> !after_session.sessions@.contains(
            m->StopTerminalRequest_session_id@,
        ),
        m is TerminalData && before.recorder@.contains(m->TerminalData_session_id@)
            && m->TerminalData_session_id@.len() > 0 ==> r.tap == Tap::Frame,
{
}

/// When a user's connection ends, the user is gone, what they ran is free, and their
/// recordings are stopped; what others run and record goes on.
pub proof fn law_hanging_up_ends_only_ones_own(
    before: AppState,
    after: AppState,
    client_id: u64,
    sessions: Set<Seq<char>>,
    stopped: Seq<Seq<char>>,
    other: u64,
    agent: Seq<char>,
    key: OpKey,
    session_id: Seq<char>,
)
    requires
        hangs_up(before, after, client_id, sessions, stopped),
        other != client_id,
    ensures
        !after.ui_clients@.contains_key(client_id),
        after.ui_clients@.contains_key(other) == before.ui_clients@.contains_key(other),
        owner_of(after.operation_owners@, agent, key) != Some(client_id),
        owner_of(before.operation_owners@, agent, key) == Some(other) ==> owner_of(
            after.operation_owners@,
            agent,
            key,
        ) == Some(other),
        before.recorder@.contains(session_id) && sessions.contains(session_id) ==> stopped.contains(
            session_id,
        ) && !after.recorder@.contains(session_id),
        !sessions.contains(session_id) ==> after.recorder@.contains(session_id)
            == before.recorder@.contains(session_id) && !stopped.contains(session_id),
        after.agents == before.agents,
{
    assert(stopped.to_set().contains(session_id) == stopped.contains(session_id));
}

} // verus!
