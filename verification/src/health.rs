//! Health probes: what an agent is told to watch, and how its probes stand.

use vstd::prelude::*;
use crate::db::HealthProbeRow;
use crate::json::{list_from_json, list_of_json, list_to_json, json_of_list};
use crate::message::{HealthProbeKind, HealthProbeSpec, HealthProbeView};
use crate::record::{Audit, AuditView, Reply, ReplyView, answer, reply};
use crate::text::{cat2, cat5, copy_opt, i64_text, int_text, is_blank, lemma_filter_push, opt_text, str_eq, texts};
use crate::text_order::{before, lemma_before_is_total, lemma_before_is_transitive, text_before};

verus! {

/// The kind that a name stands for.
pub open spec fn kind_of(s: Seq<char>) -> Option<HealthProbeKind> {
    if s == "http"@ {
        Some(HealthProbeKind::Http)
    } else if s == "tcp"@ {
        Some(HealthProbeKind::Tcp)
    } else if s == "exec"@ {
        Some(HealthProbeKind::Exec)
    } else {
        None
    }
}

/// The kind that a name stands for.
pub fn parse_kind(s: &str) -> (r: Option<HealthProbeKind>)
    ensures
        r == kind_of(s@),
{
    if str_eq(s, "http") {
        Some(HealthProbeKind::Http)
    } else if str_eq(s, "tcp") {
        Some(HealthProbeKind::Tcp)
    } else if str_eq(s, "exec") {
        Some(HealthProbeKind::Exec)
    } else {
        None
    }
}

/// How often a probe runs where nothing is said.
pub fn default_interval() -> (r: i64)
    ensures
        r == 30,
{
    30
}

/// How long a probe may take where nothing is said.
pub fn default_timeout() -> (r: i64)
    ensures
        r == 5,
{
    5
}

/// Whether a probe is enabled where nothing is said.
pub fn default_true() -> (r: bool)
    ensures
        r,
{
    true
}

/// The environment kept with a probe; none where it cannot be read.
pub open spec fn env_of(env_json: Seq<char>) -> Seq<Seq<char>> {
    match list_of_json(env_json) {
        Some(list) => list,
        None => Seq::empty(),
    }
}

fn read_env(env_json: &str) -> (r: Vec<String>)
    ensures
        texts(r@) == env_of(env_json@),
{
    match list_from_json(env_json) {
        Some(list) => list,
        None => {
            let none: Vec<String> = Vec::new();
            assert(texts(none@) =~= Seq::<Seq<char>>::empty());
            none
        },
    }
}

/// A probe as the dashboard shows it.
#[derive(Debug, Clone, PartialEq, Eq)]
pub struct ProbeOut {
    pub id: i64,
    pub agent_id: String,
    pub name: String,
    pub kind: String,
    pub target: String,
    pub interval_secs: i64,
    pub timeout_secs: i64,
    pub expect_status: Option<i64>,
    pub expect_body: Option<String>,
    pub enabled: bool,
    pub last_run_at: i64,
    pub last_state: Option<String>,
    pub last_latency_ms: Option<i64>,
    pub last_detail: Option<String>,
    pub updated_at: i64,
    pub env: Vec<String>,
}

/// Whether a stored probe is shown so.
pub open spec fn is_shown(row: HealthProbeRow, r: ProbeOut) -> bool {
    &&& r.id == row.id
    &&& r.agent_id == row.agent_id
    &&& r.name == row.name
    &&& r.kind == row.kind
    &&& r.target == row.target
    &&& r.interval_secs == row.interval_secs
    &&& r.timeout_secs == row.timeout_secs
    &&& r.expect_status == row.expect_status
    &&& r.expect_body == row.expect_body
    &&& r.enabled == (row.enabled != 0)
    &&& r.last_run_at == row.last_run_at
    &&& r.last_state == row.last_state
    &&& r.last_latency_ms == row.last_latency_ms
    &&& r.last_detail == row.last_detail
    &&& r.updated_at == row.updated_at
    &&& texts(r.env@) == env_of(row.env_json@)
}

/// A row as the dashboard shows it: the enabled flag as a truth value and the
/// environment as a list, all else as it is.
pub fn to_out(row: HealthProbeRow) -> (r: ProbeOut)
    ensures
        is_shown(row, r),
{
    let env = read_env(row.env_json.as_str());
    ProbeOut {
        id: row.id,
        agent_id: row.agent_id,
        name: row.name,
        kind: row.kind,
        target: row.target,
        interval_secs: row.interval_secs,
        timeout_secs: row.timeout_secs,
        expect_status: row.expect_status,
        expect_body: row.expect_body,
        enabled: row.enabled != 0,
        last_run_at: row.last_run_at,
        last_state: row.last_state,
        last_latency_ms: row.last_latency_ms,
        last_detail: row.last_detail,
        updated_at: row.updated_at,
        env,
    }
}

/// The larger of `n` and 1.
pub open spec fn at_least_one(n: i64) -> i64 {
    if n < 1 {
        1
    } else {
        n
    }
}

/// The larger of `n` and 1: what is stored of an interval or a time limit.
pub fn stored_secs(n: i64) -> (r: i64)
    ensures
        r == at_least_one(n),
{
    if n < 1 {
        1
    } else {
        n
    }
}

/// A probe as the agent gets it, where its kind is known. The numbers are cut to
/// the width that the agent takes.
pub open spec fn spec_of(row: HealthProbeRow) -> Option<HealthProbeView> {
    match kind_of(row.kind@) {
        None => None,
        Some(kind) => Some(
            HealthProbeView {
                id: int_text(row.id as int),
                name: row.name@,
                kind,
                target: row.target@,
                interval_secs: at_least_one(row.interval_secs) as u32,
                timeout_secs: at_least_one(row.timeout_secs) as u32,
                expect_status: match row.expect_status {
                    Some(n) => Some(n as u16),
                    None => None,
                },
                expect_body: opt_text(row.expect_body),
                env: env_of(row.env_json@),
            },
        ),
    }
}

/// The view of an optional probe.
pub open spec fn opt_spec(o: Option<HealthProbeSpec>) -> Option<HealthProbeView> {
    match o {
        Some(s) => Some(s@),
        None => None,
    }
}

/// A probe as the agent gets it, where its kind is known.
pub fn row_to_spec(row: &HealthProbeRow) -> (r: Option<HealthProbeSpec>)
    ensures
        opt_spec(r) == spec_of(*row),
{
    let kind = match parse_kind(row.kind.as_str()) {
        Some(k) => k,
        None => return None,
    };
    let interval: i64 = stored_secs(row.interval_secs);
    let limit: i64 = stored_secs(row.timeout_secs);
    let expect_status: Option<u16> = match row.expect_status {
        Some(n) => Some(
            #[verifier::truncate]
            (n as u16),
        ),
        None => None,
    };
    Some(
        HealthProbeSpec {
            id: i64_text(row.id),
            name: row.name.clone(),
            kind,
            target: row.target.clone(),
            interval_secs: #[verifier::truncate]
            (interval as u32),
            timeout_secs: #[verifier::truncate]
            (limit as u32),
            expect_status,
            expect_body: copy_opt(&row.expect_body),
            env: read_env(row.env_json.as_str()),
        },
    )
}

/// The probes that an agent runs: of its rows the enabled ones of a known kind,
/// in order.
pub open spec fn pushed_specs(rows: Seq<HealthProbeRow>) -> Seq<HealthProbeView>
    decreases rows.len(),
{
    if rows.len() == 0 {
        Seq::empty()
    } else {
        let rest = pushed_specs(rows.drop_last());
        match spec_of(rows.last()) {
            Some(s) if rows.last().enabled != 0 => rest.push(s),
            _ => rest,
        }
    }
}

/// The views of a list of probes.
pub open spec fn spec_views(v: Seq<HealthProbeSpec>) -> Seq<HealthProbeView> {
    v.map_values(|s: HealthProbeSpec| s@)
}

/// The probes that an agent is sent: of its rows the enabled ones of a known kind.
pub fn probes_to_push(rows: &[HealthProbeRow]) -> (r: Vec<HealthProbeSpec>)
    ensures
        spec_views(r@) == pushed_specs(rows@),
{
    let mut out: Vec<HealthProbeSpec> = Vec::new();
    let mut i: usize = 0;
    assert(spec_views(out@) =~= pushed_specs(rows@.take(0)));
    while i < rows.len()
        invariant
            i <= rows.len(),
            spec_views(out@) == pushed_specs(rows@.take(i as int)),
        decreases rows.len() - i,
    {
        assert(rows@.take(i + 1).drop_last() =~= rows@.take(i as int));
        if rows[i].enabled != 0 {
            if let Some(s) = row_to_spec(&rows[i]) {
                let ghost old_views = spec_views(out@);
                let ghost v = s@;
                out.push(s);
                assert(spec_views(out@) =~= old_views.push(v));
            }
        }
        i += 1;
    }
    assert(rows@.take(i as int) =~= rows@);
    out
}

/// Why a probe cannot be stored, where it cannot.
pub open spec fn upsert_fault(kind: Seq<char>, name: Seq<char>, target: Seq<char>) -> Option<
    ReplyView,
> {
    if kind_of(kind) is None {
        Some(answer(400, "kind must be http, tcp, or exec"@))
    } else if name.len() == 0 {
        Some(answer(400, "name required"@))
    } else if target.len() == 0 {
        Some(answer(400, "target required"@))
    } else {
        None
    }
}

/// The view of an optional answer.
pub open spec fn opt_reply(o: Option<Reply>) -> Option<ReplyView> {
    match o {
        Some(r) => Some(r@),
        None => None,
    }
}

/// Why a probe cannot be stored, where it cannot.
pub fn check_upsert(kind: &str, name: &str, target: &str) -> (r: Option<Reply>)
    ensures
        opt_reply(r) == upsert_fault(kind@, name@, target@),
{
    if parse_kind(kind).is_none() {
        return Some(reply(400, "kind must be http, tcp, or exec"));
    }
    if is_blank(name) {
        return Some(reply(400, "name required"));
    }
    if is_blank(target) {
        return Some(reply(400, "target required"));
    }
    None
}

/// The environment of a probe as it is stored. Read again it is the same list.
pub fn stored_env(env: &[String]) -> (r: String)
    ensures
        r@ == json_of_list(texts(env@)),
        env_of(r@) == texts(env@),
{
    match list_to_json(env) {
        Some(s) => s,
        None => "[]".to_owned(),
    }
}

/// The audit entry of a stored probe.
pub fn upsert_audit(actor: &str, agent_id: &str, name: &str, kind: &str, target: &str) -> (r: Audit)
    ensures
        r@ == (AuditView {
            actor: Some(actor@),
            agent_id: Some(agent_id@),
            kind: "health_probe.upsert"@,
            ok: true,
            detail: Some("name="@ + name@ + " kind="@ + kind@ + " target="@ + target@),
        }),
{
    let head = cat5("name=", name, " kind=", kind, " target=");
    Audit {
        actor: Some(actor.to_owned()),
        agent_id: Some(agent_id.to_owned()),
        kind: "health_probe.upsert".to_owned(),
        ok: true,
        detail: Some(cat2(head.as_str(), target)),
    }
}

/// Whether the deletion of a probe is answered and recorded so.
pub open spec fn is_probe_deletion(
    actor: Seq<char>,
    removed: Option<(String, String)>,
    r: (Reply, Option<Audit>),
) -> bool {
    match removed {
        None => r.0@ == answer(404, "No probe"@) && r.1 is None,
        Some((agent_id, name)) => r.0@ == answer(200, "Deleted"@) && (r.1 matches Some(a) && a@
            == (AuditView {
            actor: Some(actor),
            agent_id: Some(agent_id@),
            kind: "health_probe.delete"@,
            ok: true,
            detail: Some("name="@ + name@),
        })),
    }
}

/// What a deletion is answered: `removed` holds the agent and the name of the
/// probe that is gone, where there was one.
pub fn deleted(actor: &str, removed: &Option<(String, String)>) -> (r: (Reply, Option<Audit>))
    ensures
        is_probe_deletion(actor@, *removed, r),
{
    match removed {
        None => (reply(404, "No probe"), None),
        Some((agent_id, name)) => (
            reply(200, "Deleted"),
            Some(
                Audit {
                    actor: Some(actor.to_owned()),
                    agent_id: Some(agent_id.clone()),
                    kind: "health_probe.delete".to_owned(),
                    ok: true,
                    detail: Some(cat2("name=", name.as_str())),
                },
            ),
        ),
    }
}

/// The place of the first row with an id.
pub fn row_with_id(rows: &[HealthProbeRow], id: i64) -> (r: Option<usize>)
    ensures
        match r {
            Some(at) => at < rows@.len() && rows@[at as int].id == id && forall|i: int|
                0 <= i < at ==> (#[trigger] rows@[i]).id != id,
            None => forall|i: int| 0 <= i < rows@.len() ==> (#[trigger] rows@[i]).id != id,
        },
{
    let mut i: usize = 0;
    while i < rows.len()
        invariant
            i <= rows.len(),
            forall|j: int| 0 <= j < i ==> (#[trigger] rows@[j]).id != id,
        decreases rows.len() - i,
    {
        if rows[i].id == id {
            return Some(i);
        }
        i += 1;
    }
    None
}

/// How the enabled probes of one agent stand.
#[derive(Debug, Clone, PartialEq, Eq)]
pub struct HostSnapshot {
    pub agent_id: String,
    pub total: u32,
    pub green: u32,
    pub red: u32,
    pub unknown: u32,
}

/// The test for an enabled probe of an agent.
pub open spec fn live(agent: Seq<char>) -> spec_fn(HealthProbeRow) -> bool {
    |row: HealthProbeRow| row.enabled != 0 && row.agent_id@ == agent
}

/// The test for an enabled probe of an agent that was last seen in a state.
pub open spec fn live_in(agent: Seq<char>, state: Seq<char>) -> spec_fn(HealthProbeRow) -> bool {
    |row: HealthProbeRow|
        row.enabled != 0 && row.agent_id@ == agent && opt_text(row.last_state) == Some(state)
}

/// The test for an enabled probe of an agent that is neither green nor red.
pub open spec fn live_unknown(agent: Seq<char>) -> spec_fn(HealthProbeRow) -> bool {
    |row: HealthProbeRow|
        row.enabled != 0 && row.agent_id@ == agent && opt_text(row.last_state) != Some("green"@)
            && opt_text(row.last_state) != Some("red"@)
}

/// How many rows pass a test.
pub open spec fn tally(rows: Seq<HealthProbeRow>, p: spec_fn(HealthProbeRow) -> bool) -> nat {
    rows.filter(p).len()
}

/// Whether a snapshot counts the rows of its agent.
pub open spec fn counts(s: HostSnapshot, rows: Seq<HealthProbeRow>) -> bool {
    &&& s.total == tally(rows, live(s.agent_id@))
    &&& s.green == tally(rows, live_in(s.agent_id@, "green"@))
    &&& s.red == tally(rows, live_in(s.agent_id@, "red"@))
    &&& s.unknown == tally(rows, live_unknown(s.agent_id@))
}

/// Whether some snapshot is that of an agent.
pub open spec fn has_host(out: Seq<HostSnapshot>, agent: Seq<char>) -> bool {
    exists|i: int| 0 <= i < out.len() && (#[trigger] out[i]).agent_id@ == agent
}

/// Whether no agent occurs twice and the agents stand in order.
pub open spec fn in_order(out: Seq<HostSnapshot>) -> bool {
    forall|i: int, j: int|
        0 <= i < j < out.len() ==> text_before(
            (#[trigger] out[i]).agent_id@,
            (#[trigger] out[j]).agent_id@,
        )
}

proof fn lemma_tally_push(rows: Seq<HealthProbeRow>, row: HealthProbeRow, p: spec_fn(HealthProbeRow) -> bool)
    ensures
        tally(rows.push(row), p) == tally(rows, p) + (if p(row) {
            1nat
        } else {
            0nat
        }),
{
    lemma_filter_push(rows, row, p);
}

proof fn lemma_counts_push(s: HostSnapshot, rows: Seq<HealthProbeRow>, row: HealthProbeRow)
    requires
        counts(s, rows),
        row.enabled == 0 || row.agent_id@ != s.agent_id@,
    ensures
        counts(s, rows.push(row)),
{
    let a = s.agent_id@;
    lemma_tally_push(rows, row, live(a));
    lemma_tally_push(rows, row, live_in(a, "green"@));
    lemma_tally_push(rows, row, live_in(a, "red"@));
    lemma_tally_push(rows, row, live_unknown(a));
}

proof fn lemma_tally_none(rows: Seq<HealthProbeRow>, p: spec_fn(HealthProbeRow) -> bool)
    requires
        forall|i: int| 0 <= i < rows.len() ==> !p(#[trigger] rows[i]),
    ensures
        tally(rows, p) == 0,
    decreases rows.len(),
{
    reveal(Seq::filter);
    if rows.len() > 0 {
        assert forall|i: int| 0 <= i < rows.drop_last().len() implies !p(
            #[trigger] rows.drop_last()[i],
        ) by {
            assert(rows.drop_last()[i] == rows[i]);
        }
        lemma_tally_none(rows.drop_last(), p);
        assert(rows =~= rows.drop_last().push(rows.last()));
        lemma_tally_push(rows.drop_last(), rows.last(), p);
    } else {
        assert(rows.filter(p) =~= Seq::<HealthProbeRow>::empty());
    }
}

/// Where an agent stands in a list, or would stand.
fn host_place(out: &Vec<HostSnapshot>, agent: &str) -> (r: usize)
    requires
        in_order(out@),
    ensures
        r <= out@.len(),
        forall|i: int| 0 <= i < r ==> text_before((#[trigger] out@[i]).agent_id@, agent@),
        forall|i: int| r < i < out@.len() ==> text_before(agent@, (#[trigger] out@[i]).agent_id@),
        r < out@.len() ==> out@[r as int].agent_id@ == agent@ || text_before(
            agent@,
            out@[r as int].agent_id@,
        ),
{
    let mut at: usize = 0;
    while at < out.len() && before(out[at].agent_id.as_str(), agent)
        invariant
            at <= out.len(),
            forall|i: int| 0 <= i < at ==> text_before((#[trigger] out@[i]).agent_id@, agent@),
        decreases out.len() - at,
    {
        at += 1;
    }
    proof {
        if at < out@.len() {
            lemma_before_is_total(out@[at as int].agent_id@, agent@);
            assert forall|i: int| at < i < out@.len() implies text_before(
                agent@,
                (#[trigger] out@[i]).agent_id@,
            ) by {
                if out@[at as int].agent_id@ != agent@ {
                    lemma_before_is_transitive(
                        agent@,
                        out@[at as int].agent_id@,
                        out@[i].agent_id@,
                    );
                }
            }
        }
    }
    at
}

/// A snapshot with one more probe in it.
fn with_probe(s: HostSnapshot, row: &HealthProbeRow, Ghost(rows): Ghost<Seq<HealthProbeRow>>) -> (r:
    HostSnapshot)
    requires
        counts(s, rows),
        s.agent_id@ == row.agent_id@,
        row.enabled != 0,
        s.total < u32::MAX && s.green < u32::MAX && s.red < u32::MAX && s.unknown < u32::MAX,
    ensures
        counts(r, rows.push(*row)),
        r.agent_id@ == s.agent_id@,
        r.total == s.total + 1,
        r.green <= s.green + 1,
        r.red <= s.red + 1,
        r.unknown <= s.unknown + 1,
{
    let mut t = s;
    let ghost a = s.agent_id@;
    proof {
        lemma_tally_push(rows, *row, live(a));
        lemma_tally_push(rows, *row, live_in(a, "green"@));
        lemma_tally_push(rows, *row, live_in(a, "red"@));
        lemma_tally_push(rows, *row, live_unknown(a));
        reveal_strlit("green");
        reveal_strlit("red");
        assert("green"@.len() != "red"@.len());
    }
    t.total = t.total + 1;
    match &row.last_state {
        Some(state) => {
            if str_eq(state.as_str(), "green") {
                t.green = t.green + 1;
            } else if str_eq(state.as_str(), "red") {
                t.red = t.red + 1;
            } else {
                t.unknown = t.unknown + 1;
            }
        },
        None => {
            t.unknown = t.unknown + 1;
        },
    }
    t
}

/// Whether `r` says how the probes of each agent stand.
pub open spec fn sums_up(rows: Seq<HealthProbeRow>, r: Seq<HostSnapshot>) -> bool {
    &&& in_order(r)
    &&& forall|i: int| 0 <= i < r.len() ==> counts(#[trigger] r[i], rows) && r[i].total > 0
    &&& forall|i: int|
        0 <= i < rows.len() && (#[trigger] rows[i]).enabled != 0 ==> has_host(
            r,
            rows[i].agent_id@,
        )
}

/// How the enabled probes stand, one entry for each agent that has one, in the
/// order of the agents' names.
pub fn snapshot(rows: &[HealthProbeRow]) -> (r: Vec<HostSnapshot>)
    requires
        rows@.len() <= u32::MAX,
    ensures
        sums_up(rows@, r@),
{
    let mut out: Vec<HostSnapshot> = Vec::new();
    let mut n: usize = 0;
    while n < rows.len()
        invariant
            n <= rows.len(),
            rows@.len() <= u32::MAX,
            in_order(out@),
            forall|i: int|
                0 <= i < out@.len() ==> counts(#[trigger] out@[i], rows@.take(n as int))
                    && 0 < out@[i].total <= n && out@[i].green <= n && out@[i].red <= n
                    && out@[i].unknown <= n,
            forall|i: int|
                0 <= i < n && (#[trigger] rows@[i]).enabled != 0 ==> has_host(
                    out@,
                    rows@[i].agent_id@,
                ),
        decreases rows.len() - n,
    {
        let ghost past = rows@.take(n as int);
        let ghost row = rows@[n as int];
        assert(rows@.take(n + 1) =~= past.push(row));
        if rows[n].enabled == 0 {
            proof {
                assert forall|i: int| 0 <= i < out@.len() implies counts(
                    #[trigger] out@[i],
                    rows@.take(n + 1),
                ) by {
                    lemma_counts_push(out@[i], past, row);
                }
            }
            n += 1;
            continue;
        }
        let at: usize = host_place(&out, rows[n].agent_id.as_str());
        let ghost all = out@;
        let known = at < out.len() && str_eq(
            out[at].agent_id.as_str(),
            rows[n].agent_id.as_str(),
        );
        let s: HostSnapshot = if known {
            out.remove(at)
        } else {
            proof {
                let a = row.agent_id@;
                assert forall|i: int| 0 <= i < past.len() implies !live(a)(#[trigger] past[i]) by {
                    assert(past[i] == rows@[i]);
                    if live(a)(past[i]) {
                        assert(has_host(out@, a));
                        let k = choose|k: int| 0 <= k < out@.len() && (#[trigger] out@[k]).agent_id@ == a;
                        crate::text_order::lemma_not_before_itself(a);
                    }
                }
                lemma_tally_none(past, live(a));
                assert forall|i: int| 0 <= i < past.len() implies !live_in(a, "green"@)(
                    #[trigger] past[i],
                ) by {
                    assert(!live(a)(past[i]));
                }
                lemma_tally_none(past, live_in(a, "green"@));
                assert forall|i: int| 0 <= i < past.len() implies !live_in(a, "red"@)(
                    #[trigger] past[i],
                ) by {
                    assert(!live(a)(past[i]));
                }
                lemma_tally_none(past, live_in(a, "red"@));
                assert forall|i: int| 0 <= i < past.len() implies !live_unknown(a)(
                    #[trigger] past[i],
                ) by {
                    assert(!live(a)(past[i]));
                }
                lemma_tally_none(past, live_unknown(a));
            }
            HostSnapshot { agent_id: rows[n].agent_id.clone(), total: 0, green: 0, red: 0, unknown: 0 }
        };
        let ghost rest = out@;
        let t = with_probe(s, &rows[n], Ghost(past));
        let ghost bumped = t;
        out.insert(at, t);
        proof {
            assert forall|i: int, j: int| 0 <= i < j < out@.len() implies text_before(
                (#[trigger] out@[i]).agent_id@,
                (#[trigger] out@[j]).agent_id@,
            ) by {
                lemma_kept_place(all, rest, out@, at as int, bumped, known, i);
                lemma_kept_place(all, rest, out@, at as int, bumped, known, j);
            }
            assert forall|i: int| 0 <= i < out@.len() implies counts(
                #[trigger] out@[i],
                rows@.take(n + 1),
            ) && 0 < out@[i].total <= n + 1 && out@[i].green <= n + 1 && out@[i].red <= n + 1
                && out@[i].unknown <= n + 1 by {
                if i != at {
                    lemma_kept_place(all, rest, out@, at as int, bumped, known, i);
                    let k = old_place(at as int, known, i);
                    assert(out@[i] == all[k]);
                    if all[k].agent_id@ == row.agent_id@ {
                        crate::text_order::lemma_not_before_itself(row.agent_id@);
                    }
                    lemma_counts_push(all[k], past, row);
                }
            }
            assert forall|i: int| 0 <= i < n + 1 && (#[trigger] rows@[i]).enabled != 0 implies has_host(
                out@,
                rows@[i].agent_id@,
            ) by {
                let a = rows@[i].agent_id@;
                if a == row.agent_id@ {
                    assert(out@[at as int].agent_id@ == a);
                } else {
                    assert(has_host(all, a));
                    let k = choose|k: int| 0 <= k < all.len() && (#[trigger] all[k]).agent_id@ == a;
                    let at = at as int;
                    let here = if known {
                        k
                    } else if k < at {
                        k
                    } else {
                        k + 1
                    };
                    assert(!(known && k == at));
                    lemma_kept_place(all, rest, out@, at, bumped, known, here);
                    assert(out@[here] == all[k]);
                }
            }
        }
        n += 1;
    }
    assert(rows@.take(n as int) =~= rows@);
    out
}

/// Where the entry now at `i` was before one was put in at `at`, in place of
/// another or not.
spec fn old_place(at: int, replaced: bool, i: int) -> int {
    if i < at || replaced {
        i
    } else {
        i - 1
    }
}

proof fn lemma_kept_place(
    all: Seq<HostSnapshot>,
    rest: Seq<HostSnapshot>,
    out: Seq<HostSnapshot>,
    at: int,
    s: HostSnapshot,
    replaced: bool,
    i: int,
)
    requires
        0 <= at <= rest.len(),
        replaced ==> at < all.len() && rest == all.remove(at),
        !replaced ==> rest == all,
        out == rest.insert(at, s),
        0 <= i < out.len(),
    ensures
        i == at ==> out[i] == s,
        i != at ==> 0 <= old_place(at, replaced, i) < all.len() && out[i] == all[old_place(
            at,
            replaced,
            i,
        )],
        i != at && replaced ==> old_place(at, replaced, i) != at,
{
}

/// Every enabled probe of an agent counts as green, as red or as unknown, and
/// as one of them only.
pub proof fn law_every_probe_is_counted_once(rows: Seq<HealthProbeRow>, agent: Seq<char>)
    ensures
        tally(rows, live(agent)) == tally(rows, live_in(agent, "green"@)) + tally(
            rows,
            live_in(agent, "red"@),
        ) + tally(rows, live_unknown(agent)),
    decreases rows.len(),
{
    reveal(Seq::filter);
    reveal_strlit("green");
    reveal_strlit("red");
    assert("green"@.len() != "red"@.len());
    if rows.len() > 0 {
        let past = rows.drop_last();
        let row = rows.last();
        law_every_probe_is_counted_once(past, agent);
        assert(rows =~= past.push(row));
        lemma_tally_push(past, row, live(agent));
        lemma_tally_push(past, row, live_in(agent, "green"@));
        lemma_tally_push(past, row, live_in(agent, "red"@));
        lemma_tally_push(past, row, live_unknown(agent));
    } else {
        assert(rows.filter(live(agent)).len() == 0);
        assert(rows.filter(live_in(agent, "green"@)).len() == 0);
        assert(rows.filter(live_in(agent, "red"@)).len() == 0);
        assert(rows.filter(live_unknown(agent)).len() == 0);
    }
}

/// What an agent is told of a probe is what is stored of it, with at least a second
/// between runs and for each run.
pub proof fn law_probes_are_pushed_as_stored(row: HealthProbeRow)
    requires
        spec_of(row) is Some,
    ensures
        ({
            let s = spec_of(row)->0;
            &&& s.id == int_text(row.id as int)
            &&& s.name == row.name@
            &&& s.target == row.target@
            &&& row.kind@ == "http"@ ==> s.kind == HealthProbeKind::Http
            &&& row.kind@ == "tcp"@ ==> s.kind == HealthProbeKind::Tcp
            &&& row.kind@ == "exec"@ ==> s.kind == HealthProbeKind::Exec
            &&& 1 <= row.interval_secs <= u32::MAX ==> s.interval_secs == row.interval_secs
            &&& row.interval_secs < 1 ==> s.interval_secs == 1
            &&& 1 <= row.timeout_secs <= u32::MAX ==> s.timeout_secs == row.timeout_secs
            &&& row.timeout_secs < 1 ==> s.timeout_secs == 1
            &&& row.expect_status is None ==> s.expect_status is None
            &&& row.expect_status is Some && 0 <= row.expect_status->0 <= u16::MAX
                ==> s.expect_status is Some && s.expect_status->0 == row.expect_status->0
            &&& s.expect_body == opt_text(row.expect_body)
            &&& list_of_json(row.env_json@) is Some ==> s.env == list_of_json(row.env_json@)->0
            &&& list_of_json(row.env_json@) is None ==> s.env.len() == 0
        }),
{
    reveal_strlit("http");
    reveal_strlit("tcp");
    reveal_strlit("exec");
    assert("http"@[0] == 'h' && "tcp"@[0] == 't' && "exec"@[0] == 'e');
}

/// Three kinds of probes exist.
pub proof fn law_probe_kinds(kind: Seq<char>)
    ensures
        kind_of(kind) is Some <==> kind == "http"@ || kind == "tcp"@ || kind == "exec"@,
        kind_of("http"@) == Some(HealthProbeKind::Http),
        kind_of("tcp"@) == Some(HealthProbeKind::Tcp),
        kind_of("exec"@) == Some(HealthProbeKind::Exec),
{
    reveal_strlit("http");
    reveal_strlit("tcp");
    reveal_strlit("exec");
    assert("http"@[0] == 'h' && "tcp"@[0] == 't' && "exec"@[0] == 'e');
}

/// An agent is told of every probe that is switched on and of a kind that exists, in
/// order, and of no other.
pub proof fn law_only_live_probes_are_pushed(rows: Seq<HealthProbeRow>, row: HealthProbeRow)
    ensures
        pushed_specs(Seq::<HealthProbeRow>::empty()).len() == 0,
        row.enabled == 0 ==> pushed_specs(rows.push(row)) == pushed_specs(rows),
        row.enabled != 0 && spec_of(row) is None ==> pushed_specs(rows.push(row)) == pushed_specs(
            rows,
        ),
        row.enabled != 0 && spec_of(row) is Some ==> pushed_specs(rows.push(row)) == pushed_specs(
            rows,
        ).push(spec_of(row)->0),
{
    assert(rows.push(row).drop_last() =~= rows);
}

/// A probe is taken where its kind exists and it has a name and a target, and refused
/// otherwise.
pub proof fn law_complete_probes_are_taken(kind: Seq<char>, name: Seq<char>, target: Seq<char>)
    ensures
        upsert_fault(kind, name, target) is None <==> (kind == "http"@ || kind == "tcp"@ || kind
            == "exec"@) && name.len() > 0 && target.len() > 0,
        upsert_fault(kind, name, target) matches Some(told) ==> told.status == 400,
{
}

/// What the dashboard counts for an agent: its live probes by the state that was last
/// stored of them. A probe of another agent, or one that is switched off, changes
/// nothing.
pub proof fn law_probes_count_where_they_belong(
    rows: Seq<HealthProbeRow>,
    row: HealthProbeRow,
    agent: Seq<char>,
    state: Seq<char>,
)
    ensures
        row.enabled == 0 || row.agent_id@ != agent ==> tally(rows.push(row), live(agent)) == tally(
            rows,
            live(agent),
        ) && tally(rows.push(row), live_in(agent, state)) == tally(rows, live_in(agent, state))
            && tally(rows.push(row), live_unknown(agent)) == tally(rows, live_unknown(agent)),
        row.enabled != 0 && row.agent_id@ == agent ==> tally(rows.push(row), live(agent)) == tally(
            rows,
            live(agent),
        ) + 1,
        row.enabled != 0 && row.agent_id@ == agent && opt_text(row.last_state) == Some(state)
            ==> tally(rows.push(row), live_in(agent, state)) == tally(rows, live_in(agent, state))
            + 1,
        row.enabled != 0 && row.agent_id@ == agent && opt_text(row.last_state) != Some(state)
            ==> tally(rows.push(row), live_in(agent, state)) == tally(rows, live_in(agent, state)),
        row.enabled != 0 && row.agent_id@ == agent && row.last_state is None ==> tally(
            rows.push(row),
            live_unknown(agent),
        ) == tally(rows, live_unknown(agent)) + 1,
{
    crate::text::lemma_filter_push(rows, row, live(agent));
    crate::text::lemma_filter_push(rows, row, live_in(agent, state));
    crate::text::lemma_filter_push(rows, row, live_unknown(agent));
}

/// A probe is shown as it is stored.
pub proof fn law_probes_are_shown_as_stored(row: HealthProbeRow, r: ProbeOut)
    requires
        is_shown(row, r),
    ensures
        r.id == row.id && r.agent_id == row.agent_id && r.name == row.name && r.kind == row.kind
            && r.target == row.target,
        r.enabled <==> row.enabled != 0,
        r.last_state == row.last_state && r.last_run_at == row.last_run_at && r.last_latency_ms
            == row.last_latency_ms && r.last_detail == row.last_detail,
        r.interval_secs == row.interval_secs && r.timeout_secs == row.timeout_secs,
        r.expect_status == row.expect_status && r.expect_body == row.expect_body,
        list_of_json(row.env_json@) is Some ==> texts(r.env@) == list_of_json(row.env_json@)->0,
        list_of_json(row.env_json@) is None ==> r.env@.len() == 0,
{
    assert(texts(r.env@).len() == r.env@.len());
}

/// A probe that is deleted is on record with its name, and one that was not there is not
/// found and leaves no record.
pub proof fn law_probe_deletions_are_told_truly(
    actor: Seq<char>,
    removed: Option<(String, String)>,
    r: (Reply, Option<Audit>),
)
    requires
        is_probe_deletion(actor, removed, r),
    ensures
        r.0@.status == 200 <==> removed is Some,
        r.0@.status == 404 <==> removed is None,
        r.1 is Some <==> removed is Some,
        removed matches Some((agent_id, name)) ==> r.1->0@.ok && r.1->0@.actor == Some(actor)
            && r.1->0@.agent_id == Some(agent_id@) && r.1->0@.detail == Some("name="@ + name@),
{
}

/// Times are at least a second, and otherwise what was asked for.
pub proof fn law_times_are_at_least_a_second(n: i64)
    ensures
        at_least_one(n) >= 1,
        n >= 1 ==> at_least_one(n) == n,
        n < 1 ==> at_least_one(n) == 1,
{
}

/// Each agent with an enabled probe is there once, and no other, in the order of the
/// names; its numbers are those of its enabled probes, each in its state.
pub proof fn law_snapshots_count_every_agent(
    rows: Seq<HealthProbeRow>,
    r: Seq<HostSnapshot>,
    i: int,
    j: int,
    k: int,
)
    requires
        sums_up(rows, r),
        0 <= i < r.len(),
        0 <= j < r.len(),
        0 <= k < rows.len(),
    ensures
        r[i].total == tally(rows, live(r[i].agent_id@)),
        r[i].green == tally(rows, live_in(r[i].agent_id@, "green"@)),
        r[i].red == tally(rows, live_in(r[i].agent_id@, "red"@)),
        r[i].green + r[i].red + r[i].unknown == r[i].total,
        r[i].total > 0,
        i < j ==> text_before(r[i].agent_id@, r[j].agent_id@),
        rows[k].enabled != 0 ==> exists|m: int|
            0 <= m < r.len() && (#[trigger] r[m]).agent_id@ == rows[k].agent_id@,
{
    law_every_probe_is_counted_once(rows, r[i].agent_id@);
    assert(counts(r[i], rows));
}

} // verus!
