//! Commands to agents whose answers are waited for.

use vstd::prelude::*;
use crate::message::Message;
use crate::strmap::StrMap;
use crate::text::is_digit;

verus! {

/// Why a command could not be sent.
#[derive(Debug, Clone, Copy, PartialEq, Eq, Structural)]
pub enum DispatchError {
    AgentNotFound,
    AgentDisconnected,
}

/// What came of sending a message to an agent.
#[derive(Debug, Clone, Copy, PartialEq, Eq, Structural)]
pub enum Sent {
    /// The agent is not connected.
    Offline,
    /// It is on its way.
    Queued,
    /// The connection did not take it.
    Failed,
}

/// Whether a text is a random identifier: 32 small hexadecimal digits with hyphens
/// between them, the first of the third group a 4.
pub open spec fn is_random_uuid(s: Seq<char>) -> bool {
    &&& s.len() == 36
    &&& s[14] == '4'
    &&& forall|i: int|
        0 <= i < 36 ==> (if i == 8 || i == 13 || i == 18 || i == 23 {
            #[trigger] s[i] == '-'
        } else {
            is_digit(s[i]) || ('a' <= s[i] && s[i] <= 'f')
        })
}

/// `uuid::Uuid::new_v4` as text: random, so that only its form is claimed.
#[verifier::external_body]
pub(crate) fn random_uuid() -> (r: String)
    ensures
        is_random_uuid(r@),
{
    uuid::Uuid::new_v4().to_string()
}

/// The commands that wait for an answer: the request and the agent that has to
/// give it.
pub struct PendingExec {
    expected: StrMap<String>,
}

impl View for PendingExec {
    type V = Map<Seq<char>, String>;

    closed spec fn view(&self) -> Map<Seq<char>, String> {
        self.expected@
    }
}

/// The agent that a request waits for.
pub open spec fn awaited(m: Map<Seq<char>, String>, request_id: Seq<char>) -> Option<Seq<char>> {
    if m.contains_key(request_id) {
        Some(m[request_id]@)
    } else {
        None
    }
}

/// Whether a message is this command.
pub open spec fn is_run_request(
    m: Message,
    request_id: Seq<char>,
    command: Seq<char>,
    timeout_secs: u64,
) -> bool {
    m matches Message::RunCommandRequest { request_id: i, command: c, timeout_secs: t } && i@
        == request_id && c@ == command && t == timeout_secs
}

impl PendingExec {
    /// Nothing waits.
    pub fn new() -> (r: Self)
        ensures
            r@ == Map::<Seq<char>, String>::empty(),
    {
        PendingExec { expected: StrMap::new() }
    }

    /// Enters a command under a given request and hands back what the agent is
    /// sent, if the agent is connected.
    pub fn enter(
        &mut self,
        request_id: &str,
        agent_id: &str,
        connected: bool,
        command: &str,
        timeout_secs: u64,
    ) -> (r: Result<Message, DispatchError>)
        ensures
            !connected ==> r == Err::<Message, DispatchError>(DispatchError::AgentNotFound)
                && final(self)@ == old(self)@,
            connected ==> (r matches Ok(m) && is_run_request(
                m,
                request_id@,
                command@,
                timeout_secs,
            )) && awaited(final(self)@, request_id@) == Some(agent_id@) && final(self)@.remove(
                request_id@,
            ) == old(self)@.remove(request_id@),
    {
        if !connected {
            return Err(DispatchError::AgentNotFound);
        }
        let ghost before = self.expected@;
        self.expected.insert(request_id.to_owned(), agent_id.to_owned());
        assert(self.expected@.remove(request_id@) =~= before.remove(request_id@));
        Ok(
            Message::RunCommandRequest {
                request_id: request_id.to_owned(),
                command: command.to_owned(),
                timeout_secs,
            },
        )
    }

    /// Enters a command under a fresh request, and hands back the request and
    /// what the agent is sent, if the agent is connected.
    pub fn dispatch_run_command(
        &mut self,
        agent_id: &str,
        connected: bool,
        command: &str,
        timeout_secs: u64,
    ) -> (r: Result<(String, Message), DispatchError>)
        ensures
            !connected ==> r == Err::<(String, Message), DispatchError>(
                DispatchError::AgentNotFound,
            ) && final(self)@ == old(self)@,
            connected ==> (r matches Ok((id, m)) && is_random_uuid(id@) && is_run_request(
                m,
                id@,
                command@,
                timeout_secs,
            ) && awaited(final(self)@, id@) == Some(agent_id@) && final(self)@.remove(id@)
                == old(self)@.remove(id@)),
    {
        let id = random_uuid();
        match self.enter(id.as_str(), agent_id, connected, command, timeout_secs) {
            Ok(m) => Ok((id, m)),
            Err(e) => Err(e),
        }
    }

    /// Takes a request out that an agent has answered. Only the agent that was
    /// asked can answer.
    pub fn resolve(&mut self, request_id: &str, agent_id: &str) -> (r: bool)
        ensures
            r == (awaited(old(self)@, request_id@) == Some(agent_id@)),
            final(self)@ == after_answer(old(self)@, request_id@, agent_id@),
    {
        let key = request_id.to_owned();
        let ours = match self.expected.get(&key) {
            Some(expected) => crate::text::str_eq(expected.as_str(), agent_id),
            None => false,
        };
        if ours {
            self.expected.remove(&key);
        }
        ours
    }

    /// Takes a request out that nobody waits for any more.
    pub fn forget(&mut self, request_id: &str)
        ensures
            final(self)@ == old(self)@.remove(request_id@),
    {
        let key = request_id.to_owned();
        self.expected.remove(&key);
    }

    /// Takes out all requests that wait for an agent.
    pub fn forget_agent(&mut self, agent_id: &str)
        ensures
            final(self)@ == crate::strmap::kept(
                old(self)@,
                |k: Seq<char>, expected: String| expected@ != agent_id@,
            ),
    {
        let ghost p = |k: Seq<char>, expected: String| expected@ != agent_id@;
        let keep = |k: &String, expected: &String| -> (b: bool)
            ensures
                b == (expected@ != agent_id@),
        {
            !crate::text::str_eq(expected.as_str(), agent_id)
        };
        self.expected.retain(keep, Ghost(p));
    }
}

/// The owner of a request after an agent's answer.
pub open spec fn after_answer(
    m: Map<Seq<char>, String>,
    request_id: Seq<char>,
    agent: Seq<char>,
) -> Map<Seq<char>, String> {
    if awaited(m, request_id) == Some(agent) {
        m.remove(request_id)
    } else {
        m
    }
}

/// A command is answered once, by the agent that was sent it: answers of other
/// agents leave it waiting, and after the right one nothing waits.
pub proof fn law_answered_once_by_the_asked_agent(
    m: Map<Seq<char>, String>,
    request_id: Seq<char>,
    asked: Seq<char>,
    other: Seq<char>,
)
    requires
        awaited(m, request_id) == Some(asked),
        other != asked,
    ensures
        after_answer(m, request_id, other) == m,
        awaited(after_answer(m, request_id, asked), request_id) is None,
{
}

/// An answer ends the wait for itself alone: whoever else waits goes on waiting for the
/// same agent.
pub proof fn law_answers_leave_other_waits(
    m: Map<Seq<char>, String>,
    request_id: Seq<char>,
    agent: Seq<char>,
    other: Seq<char>,
)
    requires
        other != request_id,
    ensures
        awaited(after_answer(m, request_id, agent), other) == awaited(m, other),
        awaited(m, request_id) == Some(agent) ==> awaited(
            after_answer(m, request_id, agent),
            request_id,
        ) is None,
        awaited(m, request_id) is None ==> after_answer(m, request_id, agent) == m,
{
}

/// An agent is asked to run what was asked for, for as long as was allowed, under the
/// number by which its answer is known.
pub proof fn law_agents_run_what_was_asked(
    m: Message,
    request_id: Seq<char>,
    command: Seq<char>,
    timeout_secs: u64,
)
    requires
        is_run_request(m, request_id, command, timeout_secs),
    ensures
        m is RunCommandRequest,
        m->RunCommandRequest_request_id@ == request_id,
        m->RunCommandRequest_command@ == command,
        m->RunCommandRequest_timeout_secs == timeout_secs,
{
}

} // verus!
