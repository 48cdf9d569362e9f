//! Labels of agents.

use vstd::prelude::*;
use crate::record::{Audit, AuditView, Reply, answer, reply};
use crate::strmap::StrMap;
use crate::text::{chars_of, find_char, is_blank, lemma_filter_push, lemma_first_at, opt_str, pair_texts,
    str_eq, texts, trim, trimmed};

verus! {

/// Whether a text can be a label: not empty, without commas and spaces.
pub open spec fn valid_label(s: Seq<char>) -> bool {
    s.len() > 0 && !s.contains(',') && !s.contains(' ')
}

fn holds(s: &str, c: char) -> (r: bool)
    ensures
        r == s@.contains(c),
{
    let cs = chars_of(s);
    assert(cs@.skip(0) =~= cs@);
    let at: usize = find_char(cs.as_slice(), c, 0);
    proof {
        lemma_first_at(s@, c);
        if s@.contains(c) {
            let i = choose|i: int| 0 <= i < s@.len() && s@[i] == c;
            assert(s@[i] == c);
        }
    }
    at < cs.len()
}

/// The label that a request asks for, or the answer to a bad one.
pub fn requested_label(label: &str) -> (r: Result<String, Reply>)
    ensures
        if valid_label(trimmed(label@)) {
            r matches Ok(t) && t@ == trimmed(label@)
        } else {
            r matches Err(e) && e@ == answer(
                400,
                "label must be non-empty and contain no commas or spaces"@,
            )
        },
{
    let t = trim(label);
    if is_blank(t.as_str()) || holds(t.as_str(), ',') || holds(t.as_str(), ' ') {
        Err(reply(400, "label must be non-empty and contain no commas or spaces"))
    } else {
        Ok(t)
    }
}

/// What goes on record when a label is added (`agent_label.add`) or taken off
/// (`agent_label.delete`).
pub fn label_audit(actor: &str, agent_id: &str, added: bool, label: &str) -> (r: Audit)
    ensures
        r@ == (AuditView {
            actor: Some(actor@),
            agent_id: Some(agent_id@),
            kind: if added {
                "agent_label.add"@
            } else {
                "agent_label.delete"@
            },
            ok: true,
            detail: Some(label@),
        }),
{
    let kind = if added {
        "agent_label.add"
    } else {
        "agent_label.delete"
    };
    Audit {
        actor: Some(actor.to_owned()),
        agent_id: Some(agent_id.to_owned()),
        kind: kind.to_owned(),
        ok: true,
        detail: Some(label.to_owned()),
    }
}

/// The test whether the first part of a pair is `k`.
pub open spec fn first_is(k: Seq<char>) -> spec_fn((Seq<char>, Seq<char>)) -> bool {
    |r: (Seq<char>, Seq<char>)| r.0 == k
}

/// The second parts of the pairs whose first part is `k`, in order.
pub open spec fn second_parts(rows: Seq<(Seq<char>, Seq<char>)>, k: Seq<char>) -> Seq<Seq<char>> {
    rows.filter(first_is(k)).map_values(|r: (Seq<char>, Seq<char>)| r.1)
}

/// The pairs with their parts swapped.
pub open spec fn swapped(rows: Seq<(Seq<char>, Seq<char>)>) -> Seq<(Seq<char>, Seq<char>)> {
    rows.map_values(|r: (Seq<char>, Seq<char>)| (r.1, r.0))
}

/// Whether a map groups the second parts of pairs by their first part.
pub open spec fn groups(m: Map<Seq<char>, Vec<String>>, rows: Seq<(Seq<char>, Seq<char>)>) -> bool {
    forall|k: Seq<char>|
        #![trigger m.contains_key(k)]
        #![trigger second_parts(rows, k)]
        (m.contains_key(k) <==> second_parts(rows, k).len() > 0) && (m.contains_key(k) ==> texts(
            m[k]@,
        ) == second_parts(rows, k))
}

proof fn lemma_second_parts_push(
    rows: Seq<(Seq<char>, Seq<char>)>,
    row: (Seq<char>, Seq<char>),
    k: Seq<char>,
)
    ensures
        second_parts(rows.push(row), k) == (if row.0 == k {
            second_parts(rows, k).push(row.1)
        } else {
            second_parts(rows, k)
        }),
{
    let p = first_is(k);
    let f = |r: (Seq<char>, Seq<char>)| r.1;
    lemma_filter_push(rows, row, p);
    if row.0 == k {
        assert(rows.filter(p).push(row).map_values(f) =~= rows.filter(p).map_values(f).push(
            row.1,
        ));
    }
}

fn add_to_group(
    m: &mut StrMap<Vec<String>>,
    k: &String,
    v: &String,
    Ghost(rows): Ghost<Seq<(Seq<char>, Seq<char>)>>,
)
    requires
        groups(old(m)@, rows),
    ensures
        groups(final(m)@, rows.push((k@, v@))),
{
    let mut list = match m.remove(k) {
        Some(list) => list,
        None => {
            let empty: Vec<String> = Vec::new();
            empty
        },
    };
    let ghost before = list@;
    proof {
        assert(old(m)@.contains_key(k@) <==> second_parts(rows, k@).len() > 0);
        assert(texts(before) =~= second_parts(rows, k@));
    }
    list.push(v.clone());
    assert(texts(list@) =~= texts(before).push(v@));
    m.insert(k.clone(), list);
    assert forall|key: Seq<char>|
        #![trigger m@.contains_key(key)]
        #![trigger second_parts(rows.push((k@, v@)), key)]
        (m@.contains_key(key) <==> second_parts(rows.push((k@, v@)), key).len() > 0) && (
        m@.contains_key(key) ==> texts(m@[key]@) == second_parts(rows.push((k@, v@)), key)) by {
        lemma_second_parts_push(rows, (k@, v@), key);
        assert(old(m)@.contains_key(key) <==> second_parts(rows, key).len() > 0);
    }
}

/// The test whether a pair is about the agent that is asked for, if any is.
pub open spec fn wanted(agent: Option<Seq<char>>) -> spec_fn((Seq<char>, Seq<char>)) -> bool {
    |r: (Seq<char>, Seq<char>)| agent is None || agent->0 == r.0
}

/// The pairs that a filter on the agent lets through.
pub open spec fn selected(
    rows: Seq<(Seq<char>, Seq<char>)>,
    agent: Option<Seq<char>>,
) -> Seq<(Seq<char>, Seq<char>)> {
    rows.filter(wanted(agent))
}

/// The labels by agent and the agents by label, of all agents or of one. A row
/// is an agent and a label.
pub fn group_labels(rows: &[(String, String)], agent: Option<&str>) -> (r: (
    StrMap<Vec<String>>,
    StrMap<Vec<String>>,
))
    ensures
        groups(r.0@, selected(pair_texts(rows@), opt_str(agent))),
        groups(r.1@, swapped(selected(pair_texts(rows@), opt_str(agent)))),
{
    let mut by_agent: StrMap<Vec<String>> = StrMap::new();
    let mut by_label: StrMap<Vec<String>> = StrMap::new();
    let ghost all = pair_texts(rows@);
    let ghost p = wanted(opt_str(agent));
    let mut i: usize = 0;
    proof {
        reveal(Seq::filter);
        assert(all.take(0) =~= Seq::<(Seq<char>, Seq<char>)>::empty());
        assert(all.take(0).filter(p) =~= Seq::<(Seq<char>, Seq<char>)>::empty());
        assert(swapped(all.take(0).filter(p)) =~= Seq::<(Seq<char>, Seq<char>)>::empty());
        assert forall|k: Seq<char>|
            second_parts(Seq::<(Seq<char>, Seq<char>)>::empty(), k).len() == 0 by {}
    }
    while i < rows.len()
        invariant
            i <= rows.len(),
            all == pair_texts(rows@),
            p == wanted(opt_str(agent)),
            groups(by_agent@, all.take(i as int).filter(p)),
            groups(by_label@, swapped(all.take(i as int).filter(p))),
        decreases rows.len() - i,
    {
        let ghost row = (rows@[i as int].0@, rows@[i as int].1@);
        let ghost done = all.take(i as int).filter(p);
        proof {
            lemma_filter_push(all.take(i as int), row, p);
            assert(all.take(i + 1) =~= all.take(i as int).push(row));
            assert(swapped(done.push(row)) =~= swapped(done).push((row.1, row.0)));
        }
        let asked_for = match agent {
            Some(a) => str_eq(a, rows[i].0.as_str()),
            None => true,
        };
        if asked_for {
            add_to_group(&mut by_agent, &rows[i].0, &rows[i].1, Ghost(done));
            add_to_group(&mut by_label, &rows[i].1, &rows[i].0, Ghost(swapped(done)));
        }
        i += 1;
    }
    assert(all.take(i as int) =~= all);
    (by_agent, by_label)
}

/// A label is one word without commas.
pub proof fn law_labels_are_words(s: Seq<char>, i: int)
    ensures
        valid_label(s) ==> s.len() > 0,
        0 <= i < s.len() && (s[i] == ',' || s[i] == ' ') ==> !valid_label(s),
        s.len() > 0 && (forall|j: int| 0 <= j < s.len() ==> #[trigger] s[j] != ',' && s[j] != ' ')
            ==> valid_label(s),
{
}

/// The labels of an agent are those of its rows, in order, and the agents of a label
/// are those whose rows name it. A row of another agent changes nothing for this one.
pub proof fn law_labels_belong_to_their_agent(
    rows: Seq<(Seq<char>, Seq<char>)>,
    agent: Seq<char>,
    label: Seq<char>,
    other: Seq<char>,
)
    ensures
        second_parts(rows.push((agent, label)), agent) == second_parts(rows, agent).push(label),
        other != agent ==> second_parts(rows.push((agent, label)), other) == second_parts(rows, other),
        second_parts(swapped(rows.push((agent, label))), label) == second_parts(
            swapped(rows),
            label,
        ).push(agent),
        other != label ==> second_parts(swapped(rows.push((agent, label))), other) == second_parts(
            swapped(rows),
            other,
        ),
{
    let row = (agent, label);
    crate::text::lemma_filter_push(rows, row, first_is(agent));
    crate::text::lemma_filter_push(rows, row, first_is(other));
    assert(swapped(rows.push(row)) =~= swapped(rows).push((label, agent)));
    crate::text::lemma_filter_push(swapped(rows), (label, agent), first_is(label));
    crate::text::lemma_filter_push(swapped(rows), (label, agent), first_is(other));
    assert(second_parts(rows.push(row), agent) =~= second_parts(rows, agent).push(label));
    assert(second_parts(swapped(rows.push(row)), label) =~= second_parts(swapped(rows), label).push(
        agent,
    ));
}

/// Asked for one agent, only its rows count; asked for none, all do.
pub proof fn law_rows_are_selected_by_agent(
    rows: Seq<(Seq<char>, Seq<char>)>,
    row: (Seq<char>, Seq<char>),
    agent: Option<Seq<char>>,
)
    ensures
        agent is None || agent == Some(row.0) ==> selected(rows.push(row), agent) == selected(
            rows,
            agent,
        ).push(row),
        agent is Some && agent->0 != row.0 ==> selected(rows.push(row), agent) == selected(
            rows,
            agent,
        ),
{
    crate::text::lemma_filter_push(rows, row, wanted(agent));
}

/// Agents are grouped by what is in the rows: whoever has a row is there with all of its
/// labels in their order, and nobody else.
pub proof fn law_groups_hold_every_row(
    m: Map<Seq<char>, Vec<String>>,
    rows: Seq<(Seq<char>, Seq<char>)>,
    i: int,
    k: Seq<char>,
)
    requires
        groups(m, rows),
        0 <= i < rows.len(),
    ensures
        m.contains_key(rows[i].0),
        texts(m[rows[i].0]@) == second_parts(rows, rows[i].0),
        texts(m[rows[i].0]@).contains(rows[i].1),
        m.contains_key(k) ==> second_parts(rows, k).len() > 0,
{
    let a = rows[i].0;
    let f = rows.filter(first_is(a));
    assert(rows.contains(rows[i]));
    crate::text::lemma_filter_holds(rows, first_is(a), rows[i]);
    let j = choose|j: int| 0 <= j < f.len() && f[j] == rows[i];
    assert(second_parts(rows, a)[j] == rows[i].1);
    assert(second_parts(rows, a).len() > 0);
}

} // verus!
