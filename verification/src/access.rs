//! Which agents a user may see and command.

use vstd::prelude::*;
use crate::strmap::StrMap;
use crate::text::{lemma_filter_push, texts};

verus! {

/// The agents that a user may see and command.
pub enum AgentAccess {
    /// All of them.
    Unrestricted,
    /// Those of the set, by their exact names.
    Restricted { allowed_agents: StrMap<()> },
}

/// The view of `AgentAccess`: the set of agents, where there is a restriction.
impl View for AgentAccess {
    type V = Option<Set<Seq<char>>>;

    open spec fn view(&self) -> Option<Set<Seq<char>>> {
        match self {
            AgentAccess::Unrestricted => None,
            AgentAccess::Restricted { allowed_agents } => Some(allowed_agents@.dom()),
        }
    }
}

/// Whether an access covers an agent.
pub open spec fn allows(access: Option<Set<Seq<char>>>, agent: Seq<char>) -> bool {
    access is None || access->0.contains(agent)
}

impl AgentAccess {
    /// Access to exactly the given agents.
    pub fn restricted(agents: &[String]) -> (r: AgentAccess)
        ensures
            r@ == Some(texts(agents@).to_set()),
    {
        let mut allowed: StrMap<()> = StrMap::new();
        let mut i: usize = 0;
        assert(texts(agents@).take(0).to_set() =~= Set::<Seq<char>>::empty());
        assert(allowed@.dom() =~= Set::<Seq<char>>::empty());
        while i < agents.len()
            invariant
                i <= agents.len(),
                allowed@.dom() == texts(agents@).take(i as int).to_set(),
            decreases agents.len() - i,
        {
            let ghost before = texts(agents@).take(i as int);
            let ghost after = texts(agents@).take(i + 1);
            allowed.insert(agents[i].clone(), ());
            proof {
                assert(after =~= before.push(agents@[i as int]@));
                assert(after.to_set() =~= before.to_set().insert(agents@[i as int]@)) by {
                    assert forall|x: Seq<char>|
                        after.to_set().contains(x) <==> before.to_set().insert(
                            agents@[i as int]@,
                        ).contains(x) by {
                        if before.contains(x) {
                            let k = choose|k: int| 0 <= k < before.len() && before[k] == x;
                            assert(after[k] == x);
                        }
                        if x == agents@[i as int]@ {
                            assert(after[i as int] == x);
                        }
                        if after.contains(x) {
                            let k = choose|k: int| 0 <= k < after.len() && after[k] == x;
                            if k < i {
                                assert(before[k] == x);
                            }
                        }
                    }
                }
                assert(allowed@.dom() =~= after.to_set());
            }
            i += 1;
        }
        assert(texts(agents@).take(i as int) =~= texts(agents@));
        AgentAccess::Restricted { allowed_agents: allowed }
    }

    /// Access to nothing: what holds where the policy could not be read.
    pub fn nothing() -> (r: AgentAccess)
        ensures
            r@ == Some(Set::<Seq<char>>::empty()),
    {
        let none: StrMap<()> = StrMap::new();
        assert(none@.dom() =~= Set::<Seq<char>>::empty());
        AgentAccess::Restricted { allowed_agents: none }
    }

    /// The same access once more.
    pub fn copy(&self) -> (r: AgentAccess)
        ensures
            r@ == self@,
    {
        match self {
            AgentAccess::Unrestricted => AgentAccess::Unrestricted,
            AgentAccess::Restricted { allowed_agents } => {
                let mut out: StrMap<()> = StrMap::new();
                let n: usize = allowed_agents.len();
                let ghost list = allowed_agents.list();
                let mut i: usize = 0;
                while i < n
                    invariant
                        i <= n,
                        n == list.len(),
                        list == allowed_agents.list(),
                        forall|k: Seq<char>| #[trigger]
                            out@.dom().contains(k) <==> exists|j: int|
                                0 <= j < i && (#[trigger] list[j]).0@ == k,
                    decreases n - i,
                {
                    let (k, _) = allowed_agents.entry(i);
                    let ghost before = out@;
                    out.insert(k.clone(), ());
                    proof {
                        assert forall|x: Seq<char>| #[trigger]
                            out@.dom().contains(x) <==> exists|j: int|
                                0 <= j < i + 1 && (#[trigger] list[j]).0@ == x by {
                            if before.dom().contains(x) {
                                let j = choose|j: int| 0 <= j < i && (#[trigger] list[j]).0@ == x;
                                assert(list[j].0@ == x);
                            }
                            if x == k@ {
                                assert(list[i as int].0@ == x);
                            }
                        }
                    }
                    i += 1;
                }
                assert(out@.dom() =~= allowed_agents@.dom()) by {
                    assert forall|x: Seq<char>|
                        out@.dom().contains(x) <==> allowed_agents@.dom().contains(x) by {
                        if out@.dom().contains(x) {
                            let j = choose|j: int| 0 <= j < n && (#[trigger] list[j]).0@ == x;
                            assert(allowed_agents@.contains_key(allowed_agents.list()[j].0@));
                        }
                        if allowed_agents@.contains_key(x) {
                            let j = choose|j: int|
                                0 <= j < allowed_agents.list().len() && (
                                #[trigger] allowed_agents.list()[j]).0@ == x;
                            assert(list[j].0@ == x);
                        }
                    }
                }
                AgentAccess::Restricted { allowed_agents: out }
            },
        }
    }
}

/// Whether an access covers an agent: a restricted one only by the exact name.
pub fn agent_allowed_by_access(agent: &str, access: &AgentAccess) -> (r: bool)
    ensures
        r == allows(access@, agent@),
{
    match access {
        AgentAccess::Unrestricted => true,
        AgentAccess::Restricted { allowed_agents } => {
            let key = agent.to_owned();
            allowed_agents.contains_key(&key)
        },
    }
}

/// What is remembered after one agent was looked up: `exact` counts for that
/// agent, and nothing changes for the others unless everything is allowed now or
/// was until now.
pub open spec fn merged(
    cached: Option<Set<Seq<char>>>,
    agent: Seq<char>,
    exact: Option<Set<Seq<char>>>,
) -> Option<Set<Seq<char>>> {
    match exact {
        None => None,
        Some(e) => {
            let base = match cached {
                None => Set::empty(),
                Some(c) => c,
            };
            if e.contains(agent) {
                Some(base.insert(agent))
            } else {
                Some(base.remove(agent))
            }
        },
    }
}

/// Puts what was found out about one agent into what is remembered.
pub fn merge_exact_agent_access(cached: &mut AgentAccess, agent: &str, exact: &AgentAccess)
    ensures
        final(cached)@ == merged(old(cached)@, agent@, exact@),
{
    let allowed = match exact {
        AgentAccess::Unrestricted => {
            *cached = AgentAccess::Unrestricted;
            return;
        },
        AgentAccess::Restricted { allowed_agents } => {
            let key = agent.to_owned();
            allowed_agents.contains_key(&key)
        },
    };
    let mut base: StrMap<()> = StrMap::new();
    assert(base@.dom() =~= Set::<Seq<char>>::empty());
    let mut previous = AgentAccess::Unrestricted;
    std::mem::swap(&mut previous, cached);
    match previous {
        AgentAccess::Unrestricted => {},
        AgentAccess::Restricted { allowed_agents } => {
            base = allowed_agents;
        },
    }
    let ghost start = base@.dom();
    let key = agent.to_owned();
    if allowed {
        base.insert(key, ());
        assert(base@.dom() =~= start.insert(agent@));
    } else {
        base.remove(&key);
        assert(base@.dom() =~= start.remove(agent@));
    }
    *cached = AgentAccess::Restricted { allowed_agents: base };
}

/// After an agent was looked up, what is remembered agrees with the look-up on
/// that agent, and where both are restrictions nothing changed for any other.
pub proof fn law_refresh_touches_one_agent(
    cached: Option<Set<Seq<char>>>,
    agent: Seq<char>,
    exact: Option<Set<Seq<char>>>,
    other: Seq<char>,
)
    requires
        other != agent,
    ensures
        allows(merged(cached, agent, exact), agent) == allows(exact, agent),
        cached is Some && exact is Some ==> allows(merged(cached, agent, exact), other) == allows(
            cached,
            other,
        ),
        cached is None && exact is Some ==> !allows(merged(cached, agent, exact), other),
{
}

/// The test whether an access covers an agent.
pub open spec fn covered(access: Option<Set<Seq<char>>>) -> spec_fn(Seq<char>) -> bool {
    |a: Seq<char>| allows(access, a)
}

/// The agents of a list that an access covers, in order.
pub fn visible_agents(agents: &[String], access: &AgentAccess) -> (r: Vec<String>)
    ensures
        texts(r@) == texts(agents@).filter(covered(access@)),
{
    let ghost all = texts(agents@);
    let ghost p = covered(access@);
    let mut out: Vec<String> = Vec::new();
    let mut i: usize = 0;
    proof {
        reveal(Seq::filter);
        assert(all.take(0) =~= Seq::<Seq<char>>::empty());
        assert(texts(out@) =~= all.take(0).filter(p));
    }
    while i < agents.len()
        invariant
            i <= agents.len(),
            all == texts(agents@),
            p == covered(access@),
            texts(out@) == all.take(i as int).filter(p),
        decreases agents.len() - i,
    {
        proof {
            lemma_filter_push(all.take(i as int), agents@[i as int]@, p);
            assert(all.take(i + 1) =~= all.take(i as int).push(agents@[i as int]@));
        }
        if agent_allowed_by_access(agents[i].as_str(), access) {
            let ghost before = out@;
            out.push(agents[i].clone());
            assert(texts(out@) =~= texts(before).push(agents@[i as int]@));
        }
        i += 1;
    }
    assert(all.take(i as int) =~= all);
    out
}

/// Unrestricted access covers every agent, restricted access those that it names.
pub proof fn law_access_covers_what_it_names(agents: Set<Seq<char>>, agent: Seq<char>)
    ensures
        allows(None, agent),
        allows(Some(agents), agent) <==> agents.contains(agent),
        !allows(Some(Set::<Seq<char>>::empty()), agent),
{
}

/// Of a list of agents, those that the access covers are shown, in order.
pub proof fn law_covered_agents_are_shown(
    agents: Seq<Seq<char>>,
    agent: Seq<char>,
    access: Option<Set<Seq<char>>>,
)
    ensures
        access is None || access->0.contains(agent) ==> agents.push(agent).filter(covered(access))
            == agents.filter(covered(access)).push(agent),
        access is Some && !access->0.contains(agent) ==> agents.push(agent).filter(covered(access))
            == agents.filter(covered(access)),
{
    crate::text::lemma_filter_push(agents, agent, covered(access));
}

} // verus!
