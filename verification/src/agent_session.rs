//! One connection of an agent, from its registration to its end.

use vstd::prelude::*;
use crate::agent_reports::{RunReport, RunReportView, backup_of, backup_report, opt_backup, upgrade_report,
    upgrade_report_of};
use crate::entrance::{check_binding, may_register};
use crate::fan_out::{RunResult, attribution, opt_result, result_of};
use crate::hub::{AppState, Received, Registered, agent_name, closes, receives, registers, updates_capabilities};
use crate::message::Message;
use crate::record::{Audit, AuditView};
use crate::text::{opt_str, opt_text};

verus! {

/// One connection of an agent.
pub struct AgentSession {
    /// The number of the connection.
    pub conn: u64,
    /// Whether its token is the secret that many agents share.
    pub shared_token: bool,
    /// The agent, once it has registered.
    pub agent_id: Option<String>,
}

/// What an agent's message calls for.
pub enum AgentStep {
    /// End the connection: its token belongs to another host.
    Refuse { audit: Audit },
    /// The agent is registered. Acknowledge it, and let the users know.
    Registered { registered: Registered, ack: Message },
    /// Let the users know what the agent can do now.
    Announce,
    /// Send this back.
    Answer { message: Message },
    /// Nothing to do.
    Nothing,
    /// Hand the message on, and store and tell what it reports.
    Pass {
        message: Message,
        received: Received,
        fan_out: Option<RunResult>,
        backup: Option<(i64, RunReport)>,
        upgrade: Option<RunReport>,
    },
}

/// What a message says of an upgrade that was waited for.
pub open spec fn upgrade_of(agent: Seq<char>, m: Message, waited: bool, at: i64) -> Option<RunReportView> {
    match m {
        Message::AptUpgradeResponse { success, log, error } if waited => Some(
            upgrade_report_of(agent, success, log@, opt_text(error), at),
        ),
        _ => None,
    }
}

/// The view of an optional report.
pub open spec fn opt_report(o: Option<RunReport>) -> Option<RunReportView> {
    match o {
        Some(r) => Some(r@),
        None => None,
    }
}

/// Whether a step refuses a registration because of its token.
pub open spec fn refuses_binding(step: AgentStep, bound: Option<Seq<char>>, hostname: Seq<char>) -> bool {
    step matches AgentStep::Refuse { audit } && audit@ == (AuditView {
        actor: None,
        agent_id: None,
        kind: "agent.register"@,
        ok: false,
        detail: Some("token bound to '"@ + bound->0 + "', got '"@ + hostname + "'"@),
    })
}

impl AgentSession {
    /// Whether a message calls for a step, and turns one state into another. Only a
    /// registered agent's reports count.
    pub open spec fn handles(
        self,
        after_session: AgentSession,
        before: AppState,
        after: AppState,
        m: Message,
        bound: Option<Seq<char>>,
        at: i64,
        step: AgentStep,
    ) -> bool {
        &&& after_session.conn == self.conn
        &&& after_session.shared_token == self.shared_token
        &&& match m {
            Message::Register { hostname, protocol_version, capabilities, .. } => {
                if !may_register(self.shared_token, bound, hostname@) {
                    refuses_binding(step, bound, hostname@) && after == before
                        && after_session.agent_id == self.agent_id
                } else {
                    &&& step matches AgentStep::Registered { registered, ack }
                    &&& registers(
                        before,
                        after,
                        self.conn,
                        hostname@,
                        protocol_version,
                        capabilities,
                        registered,
                    )
                    &&& ack matches Message::RegisterAck { agent_id }
                    &&& agent_id@ == agent_name(hostname@)
                    &&& opt_text(after_session.agent_id) == Some(agent_name(hostname@))
                }
            },
            Message::CapabilitiesUpdate { capabilities } => after_session.agent_id == self.agent_id
                && match self.agent_id {
                Some(id) => (step is Announce || step is Nothing) && updates_capabilities(
                    before,
                    after,
                    id@,
                    capabilities,
                    step is Announce,
                ),
                None => step is Nothing && after == before,
            },
            Message::Ping => (step matches AgentStep::Answer { message } && message is Pong) && after
                == before && after_session.agent_id == self.agent_id,
            _ => after_session.agent_id == self.agent_id && match self.agent_id {
                Some(id) => self.passes(id@, before, after, m, at, step),
                None => step is Nothing && after == before,
            },
        }
    }

    /// Whether a step hands a registered agent's message on.
    pub open spec fn passes(
        self,
        agent: Seq<char>,
        before: AppState,
        after: AppState,
        m: Message,
        at: i64,
        step: AgentStep,
    ) -> bool {
        &&& step matches AgentStep::Pass { message, received, fan_out, backup, upgrade }
        &&& message == m
        &&& receives(before, after, agent, m, received)
        &&& opt_result(fan_out) == result_of(m)
        &&& opt_backup(backup) == backup_of(agent, m, at)
        &&& opt_report(upgrade) == upgrade_of(agent, m, received.reports_upgrade, at)
    }

    /// What a message calls for. `bound` is the host that the connection's token has
    /// registered before, where it has registered one.
    pub fn on_message(&mut self, hub: &mut AppState, m: Message, bound: Option<&str>, at: i64) -> (r:
        AgentStep)
        ensures
            old(self).handles(*final(self), *old(hub), *final(hub), m, opt_str(bound), at, r),
    {
        match m {
            Message::Register { hostname, protocol_version, capabilities, .. } => {
                if let Some(audit) = check_binding(self.shared_token, bound, hostname.as_str()) {
                    return AgentStep::Refuse { audit };
                }
                let registered = hub.register(
                    self.conn,
                    hostname.as_str(),
                    protocol_version,
                    capabilities,
                );
                self.agent_id = Some(registered.agent_id.clone());
                let ack = Message::RegisterAck { agent_id: registered.agent_id.clone() };
                AgentStep::Registered { registered, ack }
            },
            Message::CapabilitiesUpdate { capabilities } => {
                let news = match &self.agent_id {
                    Some(id) => hub.update_capabilities(id.as_str(), capabilities),
                    None => false,
                };
                if news {
                    AgentStep::Announce
                } else {
                    AgentStep::Nothing
                }
            },
            Message::Ping => AgentStep::Answer { message: Message::Pong },
            other => {
                let id = match &self.agent_id {
                    Some(id) => id,
                    None => return AgentStep::Nothing,
                };
                let received = hub.receive(id.as_str(), &other);
                let fan_out = attribution(&other);
                let backup = backup_report(id.as_str(), &other, at);
                let upgrade = match &other {
                    Message::AptUpgradeResponse { success, log, error } => {
                        if received.reports_upgrade {
                            Some(
                                upgrade_report(id.as_str(), *success, log.as_str(), error, at),
                            )
                        } else {
                            None
                        }
                    },
                    _ => None,
                };
                AgentStep::Pass { message: other, received, fan_out, backup, upgrade }
            },
        }
    }

    /// The connection ended: whether an agent is gone by that. The timer with the
    /// number `timer` decides when it counts as gone.
    pub fn end(&self, hub: &mut AppState, timer: u64) -> (r: bool)
        ensures
            match self.agent_id {
                Some(id) => closes(*old(hub), *final(hub), self.conn, id@, timer, r),
                None => !r && *final(hub) == *old(hub),
            },
    {
        match &self.agent_id {
            Some(id) => hub.close(self.conn, id.as_str(), timer),
            None => false,
        }
    }
}

/// A connection that has not registered changes nothing, whatever it sends but a
/// registration.
pub proof fn law_strangers_change_nothing(
    s: AgentSession,
    after_session: AgentSession,
    before: AppState,
    after: AppState,
    m: Message,
    bound: Option<Seq<char>>,
    at: i64,
    step: AgentStep,
)
    requires
        s.agent_id is None,
        !(m is Register),
        s.handles(after_session, before, after, m, bound, at, step),
    ensures
        after == before,
        after_session.agent_id is None,
{
}

/// A registered agent is connected through the connection that registered it, and
/// the end of that connection is noticed: the agent is gone then, its commands are
/// not waited for, and nobody owns an operation on it.
pub proof fn law_registration_lasts_until_the_end(
    s: AgentSession,
    after_session: AgentSession,
    before: AppState,
    after: AppState,
    m: Message,
    bound: Option<Seq<char>>,
    at: i64,
    step: AgentStep,
    last: AppState,
    timer: u64,
    gone: bool,
)
    requires
        m is Register,
        !(step is Refuse),
        s.handles(after_session, before, after, m, bound, at, step),
        closes(after, last, s.conn, after_session.agent_id->0@, timer, gone),
    ensures
        after_session.agent_id is Some,
        crate::hub::connected_by(after.agents@, after_session.agent_id->0@, s.conn),
        gone,
        !last.agents@.contains_key(after_session.agent_id->0@),
        forall|r: Seq<char>|
            #![trigger last.pending_exec@.contains_key(r)]
            crate::agent_dispatch::awaited(last.pending_exec@, r) != Some(
                after_session.agent_id->0@,
            ),
        forall|k: crate::operation_routing::OpKey|
            #![trigger crate::operation_routing::owner_of(last.operation_owners@, after_session.agent_id->0@, k)]
            crate::operation_routing::owner_of(
                last.operation_owners@,
                after_session.agent_id->0@,
                k,
            ) is None,
{
}

/// An agent that asks whether the server is there is told so, whether or not it has
/// registered, and nothing comes of it.
pub proof fn law_pings_are_answered(
    s: AgentSession,
    after_session: AgentSession,
    before: AppState,
    after: AppState,
    bound: Option<Seq<char>>,
    at: i64,
    step: AgentStep,
)
    requires
        s.handles(after_session, before, after, Message::Ping, bound, at, step),
    ensures
        step is Answer,
        step->Answer_message is Pong,
        after == before,
        after_session.agent_id == s.agent_id,
{
}

/// A token that is bound to one host registers no other: the connection is refused, the
/// refusal is on record, and nothing changes. The token of a host registers that host,
/// and the shared secret any.
pub proof fn law_bound_tokens_register_their_host(
    s: AgentSession,
    after_session: AgentSession,
    before: AppState,
    after: AppState,
    m: Message,
    bound: Option<Seq<char>>,
    at: i64,
    step: AgentStep,
)
    requires
        m is Register,
        s.handles(after_session, before, after, m, bound, at, step),
    ensures
        !s.shared_token && bound is Some && bound->0.len() > 0 && bound->0
            != m->Register_hostname@ ==> step is Refuse
            && after == before && !step->audit@.ok && after_session.agent_id == s.agent_id,
        s.shared_token || bound is None || bound->0.len() == 0 || bound->0
            == m->Register_hostname@ ==> step is Registered && step->ack is RegisterAck
            && step->ack->RegisterAck_agent_id@ == m->Register_hostname@ + "-id"@
            && after_session.agent_id is Some && after_session.agent_id->0@
            == m->Register_hostname@ + "-id"@,
{
}

/// What a registered agent sends is handed on as it is. Only a backup's end is stored as
/// one, and only an upgrade that was waited for.
pub proof fn law_messages_are_handed_on(
    s: AgentSession,
    after_session: AgentSession,
    before: AppState,
    after: AppState,
    m: Message,
    bound: Option<Seq<char>>,
    at: i64,
    step: AgentStep,
)
    requires
        s.agent_id is Some,
        !(m is Register || m is CapabilitiesUpdate || m is Ping),
        s.handles(after_session, before, after, m, bound, at, step),
    ensures
        step is Pass,
        step->Pass_message == m,
        after_session.agent_id == s.agent_id,
        after_session.conn == s.conn,
        step->upgrade is Some <==> m is AptUpgradeResponse && step->received.reports_upgrade,
        step->upgrade is Some ==> (step->upgrade->0@.status == "success"@
            <==> m->AptUpgradeResponse_success),
{
    reveal_strlit("success");
    reveal_strlit("failed");
    assert("success"@.len() != "failed"@.len());
}

} // verus!
