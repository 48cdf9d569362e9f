//! Graphs from the operator's own time-series database: named queries, filled in
//! for an agent and a range of time.

use vstd::prelude::*;
use vstd::string::StringExecFns;
use crate::record::{Reply, ReplyView, answer, reply};
use crate::strmap::StrMap;
use crate::text::{before_suffix, cat2, cat3, cat4, chars_of, copy_opt, decimal, find_char, first_at, join, joined,
    law_trailing_runs_go, law_what_occurs_is_replaced, lemma_first_at, lemma_first_at_unique, lemma_replaced_after,
    occurs_at, opt_text, replace, replaced, str_eq, string_range, strip_suffix, texts, trim_end_char, u64_text,
    without_trailing};
use crate::throttle::{CheckResult, LOCK_SECS, Record, Throttle, clock_fits, failed, fresh, record_of, verdict};
use crate::text_order::{Keyed, keys, ordered, sorted, text_before};

verus! {

/// How long a query may take where nothing is said.
pub const PROM_TIMEOUT_SECS: u64 = 10;

/// How many points of a series are kept.
pub const MAX_POINTS: usize = 1000;

/// Where the configuration is read where nothing is said.
pub const DEFAULT_CONFIG_PATH: &'static str = "/etc/shellfleet/metrics.yaml";

/// The unit of a graph where nothing is said.
pub fn default_unit() -> (r: String)
    ensures
        r@ == "raw"@,
{
    "raw".to_owned()
}

/// The range of time where nothing is said.
pub fn default_range() -> (r: String)
    ensures
        r@ == "1h"@,
{
    "1h".to_owned()
}

/// What `${name}` stands for: the value of the variable, or the text itself where
/// there is no such variable.
pub open spec fn variable_text(name: Seq<char>, env: Map<Seq<char>, String>) -> Seq<char> {
    if env.contains_key(name) {
        env[name]@
    } else {
        "${"@ + name + "}"@
    }
}

/// A text with every `${name}` replaced. What is opened and never closed stays.
pub open spec fn expanded(s: Seq<char>, env: Map<Seq<char>, String>) -> Seq<char>
    decreases s.len(),
{
    if s.len() == 0 {
        Seq::empty()
    } else if s.len() >= 2 && s[0] == '$' && s[1] == '{' {
        let rest = s.skip(2);
        let at = first_at(rest, '}');
        if 0 <= at < rest.len() {
            variable_text(rest.take(at), env) + expanded(rest.skip(at + 1), env)
        } else {
            s
        }
    } else {
        seq![s[0]] + expanded(s.skip(1), env)
    }
}

/// A text with every `${name}` replaced by the value of the variable.
pub fn expand_env(s: &str, env: &StrMap<String>) -> (r: String)
    ensures
        r@ == expanded(s@, env@),
{
    let cs = chars_of(s);
    let mut out = String::new();
    let mut i: usize = 0;
    assert(cs@.skip(0) =~= cs@);
    while i < cs.len()
        invariant
            i <= cs.len(),
            cs@ == s@,
            out@ + expanded(cs@.skip(i as int), env@) == expanded(s@, env@),
        decreases cs.len() - i,
    {
        let ghost here = cs@.skip(i as int);
        let ghost before = out@;
        if cs[i] == '$' && cs.len() - i >= 2 && cs[i + 1] == '{' {
            let at: usize = find_char(cs.as_slice(), '}', i + 2);
            let ghost rest = here.skip(2);
            assert(rest =~= cs@.skip(i + 2));
            proof {
                lemma_first_at(rest, '}');
            }
            if at < cs.len() {
                let name = string_range(cs.as_slice(), i + 2, at);
                assert(name@ =~= rest.take(first_at(rest, '}')));
                match env.get(&name) {
                    Some(v) => {
                        out.append(v.as_str());
                    },
                    None => {
                        let token = cat3("${", name.as_str(), "}");
                        out.append(token.as_str());
                    },
                }
                assert(rest.skip(first_at(rest, '}') + 1) =~= cs@.skip(at + 1));
                i = at + 1;
                assert(out@ + expanded(cs@.skip(i as int), env@) =~= before + expanded(here, env@));
            } else {
                let token = string_range(cs.as_slice(), i, cs.len());
                assert(token@ =~= here);
                out.append(token.as_str());
                i = cs.len();
                assert(cs@.skip(i as int) =~= Seq::<char>::empty());
                assert(out@ + expanded(cs@.skip(i as int), env@) =~= before + expanded(here, env@));
            }
        } else {
            out.push(cs[i]);
            assert(here.skip(1) =~= cs@.skip(i + 1));
            i += 1;
            assert(out@ + expanded(cs@.skip(i as int), env@) =~= before + expanded(here, env@));
        }
    }
    assert(cs@.skip(i as int) =~= Seq::<char>::empty());
    assert(out@ + expanded(cs@.skip(i as int), env@) =~= out@);
    out
}

/// A text without `${` stays as it is, whatever variables there are.
pub proof fn law_plain_text_is_kept(s: Seq<char>, env: Map<Seq<char>, String>)
    requires
        forall|i: int| 0 <= i < s.len() - 1 ==> !(#[trigger] s[i] == '$' && s[i + 1] == '{'),
    ensures
        expanded(s, env) == s,
    decreases s.len(),
{
    if s.len() > 0 {
        let t = s.skip(1);
        assert forall|i: int| 0 <= i < t.len() - 1 implies !(#[trigger] t[i] == '$' && t[i + 1] == '{') by {
            assert(t[i] == s[i + 1]);
            assert(t[i + 1] == s[i + 2]);
        }
        law_plain_text_is_kept(t, env);
        if s.len() >= 2 {
            assert(!(s[0] == '$' && s[1] == '{'));
        }
        assert(seq![s[0]] + t =~= s);
    }
}

/// The database as the configuration names it.
#[derive(Debug, Clone, PartialEq, Eq)]
pub struct RawPrometheus {
    pub url: String,
    pub bearer_token: Option<String>,
    pub basic_auth: Option<(String, String)>,
    pub insecure_skip_verify: Option<bool>,
    pub timeout_secs: Option<u64>,
}

/// A named query.
#[derive(Debug, Clone, PartialEq, Eq)]
pub struct Panel {
    pub id: String,
    pub title: String,
    pub description: Option<String>,
    pub query: String,
    pub unit: String,
}

/// The database as it is asked.
#[derive(Debug, Clone, PartialEq, Eq)]
pub struct PrometheusConfig {
    pub base_url: String,
    pub bearer_token: Option<String>,
    pub basic_auth: Option<(String, String)>,
    pub insecure_skip_verify: bool,
    pub timeout_secs: u64,
}

/// The database, the queries by their names, and the names of agents that the
/// database knows under another one.
pub struct Config {
    pub prometheus: PrometheusConfig,
    pub panels: StrMap<Panel>,
    pub agent_instance_map: StrMap<String>,
}

/// A token that counts: none where it is empty.
pub open spec fn token_of(token: Option<Seq<char>>) -> Option<Seq<char>> {
    match token {
        Some(t) if t.len() > 0 => Some(t),
        _ => None,
    }
}

/// The queries by their names: of two with the same name the later one.
pub open spec fn panel_map(panels: Seq<Panel>) -> Map<Seq<char>, Panel>
    decreases panels.len(),
{
    if panels.len() == 0 {
        Map::empty()
    } else {
        panel_map(panels.drop_last()).insert(panels.last().id@, panels.last())
    }
}

/// Whether the database is asked as the configuration says.
pub open spec fn is_resolved(p: RawPrometheus, r: PrometheusConfig) -> bool {
    &&& r.base_url@ == without_trailing(p.url@, '/')
    &&& opt_text(r.bearer_token) == token_of(opt_text(p.bearer_token))
    &&& r.basic_auth == p.basic_auth
    &&& r.insecure_skip_verify == (p.insecure_skip_verify == Some(true))
    &&& r.timeout_secs == (match p.timeout_secs {
        Some(n) => n,
        None => PROM_TIMEOUT_SECS,
    })
}

/// The configuration that counts, where it names a database.
pub fn resolve(prometheus: Option<RawPrometheus>, panels: Vec<Panel>, agent_instance_map: StrMap<String>) -> (r:
    Option<Config>)
    ensures
        r is Some <==> prometheus is Some,
        r matches Some(cfg) ==> is_resolved(prometheus->0, cfg.prometheus) && cfg.panels@ == panel_map(
            panels@,
        ) && cfg.agent_instance_map == agent_instance_map,
{
    let raw = match prometheus {
        Some(p) => p,
        None => return None,
    };
    let bearer_token = match raw.bearer_token {
        Some(t) => if crate::text::is_blank(t.as_str()) {
            None
        } else {
            Some(t)
        },
        None => None,
    };
    let prometheus = PrometheusConfig {
        base_url: trim_end_char(raw.url.as_str(), '/'),
        bearer_token,
        basic_auth: raw.basic_auth,
        insecure_skip_verify: match raw.insecure_skip_verify {
            Some(b) => b,
            None => false,
        },
        timeout_secs: match raw.timeout_secs {
            Some(n) => n,
            None => PROM_TIMEOUT_SECS,
        },
    };
    let ghost all = panels@;
    let ghost mut n: int = 0;
    let mut rest = panels;
    let mut by_id: StrMap<Panel> = StrMap::new();
    assert(all.skip(0) =~= all);
    assert(by_id@ =~= panel_map(all.take(0)));
    while rest.len() > 0
        invariant
            0 <= n <= all.len(),
            rest@ == all.skip(n),
            by_id@ == panel_map(all.take(n)),
        decreases rest.len(),
    {
        assert(rest@[0] == all[n]);
        let p = rest.remove(0);
        let id = p.id.clone();
        assert(all.take(n + 1).drop_last() =~= all.take(n));
        assert(id@ == p.id@);
        by_id.insert(id, p);
        assert(rest@ =~= all.skip(n + 1));
        proof {
            n = n + 1;
        }
    }
    assert(all.take(n) =~= all);
    Some(Config { prometheus, panels: by_id, agent_instance_map })
}

/// A query as the dashboard lists it.
#[derive(Debug, Clone, PartialEq, Eq)]
pub struct PanelInfo {
    pub id: String,
    pub title: String,
    pub description: Option<String>,
    pub unit: String,
}

impl Keyed for PanelInfo {
    open spec fn key(&self) -> Seq<char> {
        self.title@
    }

    fn key_text(&self) -> (r: &str) {
        self.title.as_str()
    }
}

/// Whether a listed query stands for a query.
pub open spec fn is_info(i: PanelInfo, p: Panel) -> bool {
    i.id@ == p.id@ && i.title@ == p.title@ && opt_text(i.description) == opt_text(p.description)
        && i.unit@ == p.unit@
}

/// Whether a list stands for the queries with these identifiers, one for one.
pub open spec fn stands_for(
    infos: Seq<PanelInfo>,
    panels: Map<Seq<char>, Panel>,
    ids: Seq<Seq<char>>,
) -> bool {
    &&& infos.len() == ids.len()
    &&& forall|i: int| 0 <= i < infos.len() ==> is_info(#[trigger] infos[i], panels[ids[i]])
}

/// Whether a list holds each query once, in whatever order.
pub open spec fn lists(infos: Seq<PanelInfo>, panels: Map<Seq<char>, Panel>) -> bool {
    exists|v: Seq<PanelInfo>, ids: Seq<Seq<char>>| #[trigger]
        stands_for(v, panels, ids) && ids.no_duplicates() && ids.to_set() == panels.dom()
            && v.to_multiset() == infos.to_multiset()
}

/// The queries as the dashboard lists them: by their titles.
pub fn panel_infos(cfg: &Config) -> (r: Vec<PanelInfo>)
    ensures
        lists(r@, cfg.panels@),
        ordered(r@),
{
    let n: usize = cfg.panels.len();
    let ghost list = cfg.panels.list();
    let ghost ids = list.map_values(|e: (String, Panel)| e.0@);
    let mut out: Vec<PanelInfo> = Vec::new();
    let mut i: usize = 0;
    while i < n
        invariant
            i <= n,
            n == list.len(),
            list == cfg.panels.list(),
            out@.len() == i,
            forall|k: int| 0 <= k < i ==> is_info(#[trigger] out@[k], list[k].1),
        decreases n - i,
    {
        let (_, p) = cfg.panels.entry(i);
        out.push(
            PanelInfo {
                id: p.id.clone(),
                title: p.title.clone(),
                description: copy_opt(&p.description),
                unit: p.unit.clone(),
            },
        );
        i += 1;
    }
    proof {
        assert forall|k: int| 0 <= k < out@.len() implies is_info(
            #[trigger] out@[k],
            cfg.panels@[ids[k]],
        ) by {
            assert(cfg.panels@[list[k].0@] == list[k].1);
        }
        assert(stands_for(out@, cfg.panels@, ids));
        assert forall|a: int, b: int| 0 <= a < ids.len() && 0 <= b < ids.len() && a != b implies ids[a]
            != ids[b] by {
            assert(list[a].0@ != list[b].0@);
        }
        assert forall|k: Seq<char>| ids.to_set().contains(k) <==> cfg.panels@.dom().contains(k) by {
            if ids.to_set().contains(k) {
                let x = choose|x: int| 0 <= x < ids.len() && ids[x] == k;
                assert(cfg.panels@.contains_key(list[x].0@));
            }
            if cfg.panels@.contains_key(k) {
                let x = choose|x: int| 0 <= x < list.len() && (#[trigger] list[x]).0@ == k;
                assert(ids[x] == k);
            }
        }
        assert(ids.to_set() =~= cfg.panels@.dom());
    }
    let ghost v = out@;
    let r = sorted(out);
    assert(stands_for(v, cfg.panels@, ids) && v.to_multiset() == r@.to_multiset());
    r
}

/// The seconds that a range covers, and the step between its points.
pub open spec fn range_step(range: Seq<char>) -> (i64, Seq<char>) {
    if range == "6h"@ {
        (21600, "60s"@)
    } else if range == "24h"@ {
        (86400, "5m"@)
    } else if range == "7d"@ {
        (604800, "30m"@)
    } else {
        (3600, "30s"@)
    }
}

/// The seconds that a range covers, and the step between its points. What is no
/// known range is an hour.
pub fn step_for_range(range: &str) -> (r: (i64, &'static str))
    ensures
        (r.0, r.1@) == range_step(range@),
{
    if str_eq(range, "6h") {
        (21600, "60s")
    } else if str_eq(range, "24h") {
        (86400, "5m")
    } else if str_eq(range, "7d") {
        (604800, "30m")
    } else {
        (3600, "30s")
    }
}

/// The name that the database knows an agent under: the one it is mapped to, else
/// its own without the ending of agent names.
pub open spec fn instance_of(map: Map<Seq<char>, String>, agent_id: Seq<char>) -> Seq<char> {
    if map.contains_key(agent_id) {
        map[agent_id]@
    } else {
        match before_suffix(agent_id, "-id"@) {
            Some(host) => host,
            None => agent_id,
        }
    }
}

/// The name that the database knows an agent under.
pub fn resolve_instance(cfg: &Config, agent_id: &str) -> (r: String)
    ensures
        r@ == instance_of(cfg.agent_instance_map@, agent_id@),
{
    let key = agent_id.to_owned();
    match cfg.agent_instance_map.get(&key) {
        Some(mapped) => mapped.clone(),
        None => match strip_suffix(agent_id, "-id") {
            Some(host) => host,
            None => agent_id.to_owned(),
        },
    }
}

/// A query filled in for an agent.
pub open spec fn filled_in(query: Seq<char>, agent_id: Seq<char>, instance: Seq<char>) -> Seq<char> {
    replaced(
        replaced(replaced(query, "{agent_id}"@, agent_id), "{instance}"@, instance),
        "{hostname}"@,
        instance,
    )
}

/// What the database is asked.
#[derive(Debug, Clone, PartialEq, Eq)]
pub struct RangeQuery {
    pub url: String,
    pub query: String,
    pub start: i64,
    pub end: i64,
    pub step: String,
}

/// Whether the database is asked this for a panel, an agent and a range that ends
/// now.
pub open spec fn is_range_query(
    q: RangeQuery,
    cfg: Config,
    panel: Panel,
    agent_id: Seq<char>,
    range: Seq<char>,
    now: i64,
) -> bool {
    &&& q.url@ == cfg.prometheus.base_url@ + "/query_range"@
    &&& q.query@ == filled_in(
        panel.query@,
        agent_id,
        instance_of(cfg.agent_instance_map@, agent_id),
    )
    &&& q.start == now - range_step(range).0
    &&& q.end == now
    &&& q.step@ == range_step(range).1
}

/// What the database is asked for a panel, an agent and a range that ends now.
pub fn range_query(cfg: &Config, panel: &Panel, agent_id: &str, range: &str, now: i64) -> (r: RangeQuery)
    requires
        now >= i64::MIN + 604800,
    ensures
        is_range_query(r, *cfg, *panel, agent_id@, range@, now),
{
    let instance = resolve_instance(cfg, agent_id);
    proof {
        reveal_strlit("{agent_id}");
        reveal_strlit("{instance}");
        reveal_strlit("{hostname}");
    }
    let query = replace(panel.query.as_str(), "{agent_id}", agent_id);
    let query = replace(query.as_str(), "{instance}", instance.as_str());
    let query = replace(query.as_str(), "{hostname}", instance.as_str());
    let (window, step) = step_for_range(range);
    RangeQuery {
        url: cat2(cfg.prometheus.base_url.as_str(), "/query_range"),
        query,
        start: now - window,
        end: now,
        step: step.to_owned(),
    }
}

/// The query with a name, or why there is none.
pub fn find_panel<'a>(cfg: Option<&'a Config>, id: &str) -> (r: Result<&'a Panel, Reply>)
    ensures
        match cfg {
            None => r matches Err(e) && e@ == answer(503, "metrics plugin not configured"@),
            Some(c) => if c.panels@.contains_key(id@) {
                r == Ok::<&Panel, Reply>(&c.panels@[id@])
            } else {
                r matches Err(e) && e@ == answer(404, "no such panel"@)
            },
        },
{
    match cfg {
        None => Err(reply(503, "metrics plugin not configured")),
        Some(c) => {
            let key = id.to_owned();
            match c.panels.get(&key) {
                Some(p) => Ok(p),
                None => Err(reply(404, "no such panel")),
            }
        },
    }
}

/// What a user's failed queries are counted under.
pub fn throttle_key(login: &str) -> (r: String)
    ensures
        r@ == "metrics:"@ + login@,
{
    cat2("metrics:", login)
}

/// The answer to a user whose queries failed too often.
pub fn locked_reply() -> (r: Reply)
    ensures
        r@ == answer(429, "metrics queries: too many failures, try again later"@),
{
    reply(429, "metrics queries: too many failures, try again later")
}

/// The answer where the database refused: its status and the first 300 characters
/// of what it said.
pub open spec fn refusal_of(code: u16, body: Seq<char>) -> ReplyView {
    answer(
        502,
        "prometheus "@ + decimal(code as nat) + ": "@ + (if body.len() <= 300 {
            body
        } else {
            body.take(300)
        }),
    )
}

/// The answer where the database refused.
pub fn refused_reply(code: u16, body: &str) -> (r: Reply)
    ensures
        r@ == refusal_of(code, body@),
{
    let cs = chars_of(body);
    let n: usize = if cs.len() <= 300 {
        cs.len()
    } else {
        300
    };
    let snippet = string_range(cs.as_slice(), 0, n);
    assert(snippet@ =~= (if body@.len() <= 300 {
        body@
    } else {
        body@.take(300)
    }));
    let code = u64_text(code as u64);
    let text = cat4("prometheus ", code.as_str(), ": ", snippet.as_str());
    reply(502, text.as_str())
}

/// The test for a label that says something of a series.
pub open spec fn telling() -> spec_fn((Seq<char>, Option<Seq<char>>)) -> bool {
    |l: (Seq<char>, Option<Seq<char>>)| l.0 != "__name__"@ && l.0 != "instance"@ && l.0 != "job"@
}

/// A label in words.
pub open spec fn label_word() -> spec_fn((Seq<char>, Option<Seq<char>>)) -> Seq<char> {
    |l: (Seq<char>, Option<Seq<char>>)|
        l.0 + "="@ + (match l.1 {
            Some(v) => v,
            None => ""@,
        })
}

/// The labels of a series as plain values: names, and values where they are texts.
pub open spec fn label_views(metric: Seq<(String, Option<String>)>) -> Seq<(Seq<char>, Option<Seq<char>>)> {
    metric.map_values(|l: (String, Option<String>)| (l.0@, opt_text(l.1)))
}

/// The labels that say something of a series, in words.
pub open spec fn label_bits(labels: Seq<(Seq<char>, Option<Seq<char>>)>) -> Seq<Seq<char>> {
    labels.filter(telling()).map_values(label_word())
}

/// The value of the first label with a name.
pub open spec fn label_value(labels: Seq<(Seq<char>, Option<Seq<char>>)>, name: Seq<char>) -> Option<
    Seq<char>,
>
    decreases labels.len(),
{
    if labels.len() == 0 {
        None
    } else if labels[0].0 == name {
        labels[0].1
    } else {
        label_value(labels.skip(1), name)
    }
}

/// Whether texts stand in order.
pub open spec fn in_order(s: Seq<Seq<char>>) -> bool {
    forall|i: int, j: int| 0 <= i < j < s.len() ==> !text_before(#[trigger] s[j], #[trigger] s[i])
}

/// Whether a text is the name of a series with these labels: the telling ones in
/// order, else the name of the metric, else `value`.
pub open spec fn is_series_name(r: Seq<char>, labels: Seq<(Seq<char>, Option<Seq<char>>)>) -> bool {
    let bits = label_bits(labels);
    if bits.len() == 0 {
        r == (match label_value(labels, "__name__"@) {
            Some(name) => name,
            None => "value"@,
        })
    } else {
        exists|b: Seq<Seq<char>>|
            in_order(b) && b.to_multiset() == bits.to_multiset() && r == #[trigger] joined(b, ", "@)
    }
}

/// The name of a series.
pub fn build_label(metric: &[(String, Option<String>)]) -> (r: String)
    ensures
        is_series_name(r@, label_views(metric@)),
{
    let ghost labels = label_views(metric@);
    let mut bits: Vec<String> = Vec::new();
    let mut i: usize = 0;
    proof {
        reveal(Seq::filter);
        assert(texts(bits@) =~= label_bits(labels.take(0)));
    }
    while i < metric.len()
        invariant
            i <= metric.len(),
            labels == label_views(metric@),
            texts(bits@) == label_bits(labels.take(i as int)),
        decreases metric.len() - i,
    {
        let ghost past = labels.take(i as int);
        let ghost l = labels[i as int];
        proof {
            crate::text::lemma_filter_push(past, l, telling());
            assert(labels.take(i + 1) =~= past.push(l));
        }
        let k = metric[i].0.as_str();
        if !(str_eq(k, "__name__") || str_eq(k, "instance") || str_eq(k, "job")) {
            let word = match &metric[i].1 {
                Some(v) => cat3(k, "=", v.as_str()),
                None => cat3(k, "=", ""),
            };
            let ghost before = bits@;
            let ghost w = word@;
            bits.push(word);
            assert(texts(bits@) =~= texts(before).push(w));
            assert(label_bits(labels.take(i + 1)) =~= label_bits(past).push(w));
        }
        i += 1;
    }
    assert(labels.take(i as int) =~= labels);
    if bits.len() == 0 {
        assert(label_bits(labels).len() == 0);
        let mut j: usize = 0;
        assert(labels.skip(0) =~= labels);
        while j < metric.len()
            invariant
                j <= metric.len(),
                labels == label_views(metric@),
                label_bits(labels).len() == 0,
                label_value(labels, "__name__"@) == label_value(labels.skip(j as int), "__name__"@),
            decreases metric.len() - j,
        {
            assert(labels.skip(j as int)[0] == labels[j as int]);
            assert(labels.skip(j as int).skip(1) =~= labels.skip(j + 1));
            if str_eq(metric[j].0.as_str(), "__name__") {
                return match &metric[j].1 {
                    Some(name) => name.clone(),
                    None => "value".to_owned(),
                };
            }
            j += 1;
        }
        return "value".to_owned();
    }
    assert(texts(bits@) =~= keys(bits@));
    let ordered_bits = sorted(bits);
    let r = join(ordered_bits.as_slice(), ", ");
    proof {
        let b = texts(ordered_bits@);
        assert(b =~= keys(ordered_bits@));
        assert forall|x: int, y: int| 0 <= x < y < b.len() implies !text_before(
            #[trigger] b[y],
            #[trigger] b[x],
        ) by {
            assert(b[y] == ordered_bits@[y].key());
            assert(b[x] == ordered_bits@[x].key());
        }
        assert(r@ == joined(b, ", "@));
    }
    r
}

/// Why a query is not sent on.
pub enum QueryRefusal {
    /// There is no such query, or no database.
    Reply { reply: Reply },
    /// The user's queries failed too often: refuse for so many seconds.
    Locked { retry_after_secs: i64, reply: Reply },
}

/// Whether a query is prepared so, and how the count of failures goes on.
pub open spec fn prepares(
    cfg: Option<&Config>,
    before: Map<Seq<char>, Record>,
    after: Map<Seq<char>, Record>,
    login: Seq<char>,
    panel_id: Seq<char>,
    agent_id: Seq<char>,
    range: Seq<char>,
    now: i64,
    r: Result<RangeQuery, QueryRefusal>,
) -> bool {
    match cfg {
        None => after == before && (r matches Err(QueryRefusal::Reply {
            reply,
        }) && reply@ == answer(503, "metrics plugin not configured"@)),
        Some(c) => if !c.panels@.contains_key(panel_id) {
            after == before && (r matches Err(QueryRefusal::Reply { reply })
                && reply@ == answer(404, "no such panel"@))
        } else {
            after == fresh(before, now) && match verdict(
                fresh(before, now),
                "metrics:"@ + login,
                now,
            ) {
                CheckResult::Locked { retry_after_secs } => r matches Err(QueryRefusal::Locked {
                    retry_after_secs: s,
                    reply,
                }) && s == retry_after_secs && reply@ == answer(
                    429,
                    "metrics queries: too many failures, try again later"@,
                ),
                CheckResult::Allowed => r matches Ok(q) && is_range_query(
                    q,
                    *c,
                    c.panels@[panel_id],
                    agent_id,
                    range,
                    now,
                ),
            }
        },
    }
}

/// What a user's query comes to before the database is asked: the query, or why it
/// is not sent on. A user whose queries failed too often has to wait.
pub fn prepare(
    cfg: Option<&Config>,
    throttle: &mut Throttle,
    login: &str,
    panel_id: &str,
    agent_id: &str,
    range: &str,
    now: i64,
) -> (r: Result<RangeQuery, QueryRefusal>)
    requires
        clock_fits(old(throttle)@, now),
        now >= i64::MIN + 604800,
    ensures
        prepares(cfg, old(throttle)@, final(throttle)@, login@, panel_id@, agent_id@, range@, now, r),
{
    let panel = match find_panel(cfg, panel_id) {
        Ok(p) => p,
        Err(reply) => return Err(QueryRefusal::Reply { reply }),
    };
    let key = throttle_key(login);
    if let CheckResult::Locked { retry_after_secs } = throttle.check(key.as_str(), now) {
        return Err(QueryRefusal::Locked { retry_after_secs, reply: locked_reply() });
    }
    match cfg {
        Some(c) => Ok(range_query(c, panel, agent_id, range, now)),
        None => Err(QueryRefusal::Reply { reply: reply(503, "metrics plugin not configured") }),
    }
}

/// What the database answered to a query.
pub enum Upstream {
    /// It could not be reached.
    Unreachable { error: String },
    /// Its answer broke off.
    BodyUnreadable { error: String },
    /// It answered with another status than success.
    Refused { code: u16, body: String },
    /// It answered with something that is no JSON.
    NotJson { error: String },
    /// It answered: the status and the error that the answer names.
    Answered { status: Option<String>, error: Option<String> },
}

/// The status and the error that a JSON text names as texts, or why it is no JSON.
pub uninterp spec fn answer_of_json(body: Seq<char>) -> Result<
    (Option<Seq<char>>, Option<Seq<char>>),
    Seq<char>,
>;

/// The view of what was read of an answer.
pub open spec fn answer_view(r: Result<(Option<String>, Option<String>), String>) -> Result<
    (Option<Seq<char>>, Option<Seq<char>>),
    Seq<char>,
> {
    match r {
        Ok((status, error)) => Ok((opt_text(status), opt_text(error))),
        Err(e) => Err(e@),
    }
}

/// `serde_json::from_str` into a value, of which the members `status` and `error`
/// are taken where they are strings, else the text of its error.
#[verifier::external_body]
pub(crate) fn read_answer(body: &str) -> (r: Result<(Option<String>, Option<String>), String>)
    ensures
        answer_view(r) == answer_of_json(body@),
{
    let v: serde_json::Value = serde_json::from_str(body).map_err(|e| e.to_string())?;
    let word = |key: &str| v.get(key).and_then(|x| x.as_str()).map(|x| x.to_string());
    Ok((word("status"), word("error")))
}

/// Whether `r` is what the database answered.
pub open spec fn is_upstream(code: u16, body: Seq<char>, r: Upstream) -> bool {
    &&& !(200 <= code < 300) ==> (r matches Upstream::Refused { code: c, body: b } && c == code && b@
        == body)
    &&& 200 <= code < 300 ==> match answer_of_json(body) {
        Ok((s, e)) => r matches Upstream::Answered { status, error } && opt_text(status) == s
            && opt_text(error) == e,
        Err(t) => r matches Upstream::NotJson { error } && error@ == t,
    }
}

/// What the database answered, from the status of its answer and the body.
pub fn upstream(code: u16, body: &str) -> (r: Upstream)
    ensures
        is_upstream(code, body@, r),
{
    if code < 200 || code >= 300 {
        return Upstream::Refused { code, body: body.to_owned() };
    }
    match read_answer(body) {
        Ok((status, error)) => Upstream::Answered { status, error },
        Err(error) => Upstream::NotJson { error },
    }
}

/// Whether the list holds the places of the first `MAX_POINTS` true entries, in
/// order.
pub open spec fn keeps_points(kept: Seq<usize>, is_pair: Seq<bool>) -> bool {
    &&& kept.len() <= MAX_POINTS
    &&& forall|i: int|
        0 <= i < kept.len() ==> (#[trigger] kept[i]) < is_pair.len() && is_pair[kept[i] as int]
    &&& forall|i: int, j: int| 0 <= i < j < kept.len() ==> #[trigger] kept[i] < #[trigger] kept[j]
    &&& forall|k: int|
        0 <= k < is_pair.len() && #[trigger] is_pair[k] ==> kept.contains(k as usize) || (kept.len()
            == MAX_POINTS && k > kept.last())
}

/// Which values of a series become points: the first `MAX_POINTS` of those that are
/// a pair of a time and a value, in order.
pub fn kept_points(is_pair: &[bool]) -> (r: Vec<usize>)
    ensures
        keeps_points(r@, is_pair@),
{
    let mut kept: Vec<usize> = Vec::new();
    let mut i: usize = 0;
    while i < is_pair.len() && kept.len() < MAX_POINTS
        invariant
            i <= is_pair.len(),
            kept@.len() <= MAX_POINTS,
            kept@.len() <= i,
            forall|a: int|
                0 <= a < kept@.len() ==> (#[trigger] kept@[a]) < i && is_pair@[kept@[a] as int],
            forall|a: int, b: int|
                0 <= a < b < kept@.len() ==> #[trigger] kept@[a] < #[trigger] kept@[b],
            forall|k: int| 0 <= k < i && #[trigger] is_pair@[k] ==> kept@.contains(k as usize),
            kept@.len() == MAX_POINTS ==> kept@.last() + 1 == i,
        decreases is_pair.len() - i,
    {
        let ghost before = kept@;
        if is_pair[i] {
            kept.push(i);
        }
        proof {
            assert forall|k: int| 0 <= k < i + 1 && #[trigger] is_pair@[k] implies kept@.contains(
                k as usize,
            ) by {
                if k < i {
                    let a = choose|a: int| 0 <= a < before.len() && before[a] == k as usize;
                    assert(kept@[a] == k as usize);
                } else {
                    assert(kept@[kept@.len() - 1] == k as usize);
                }
            }
        }
        i += 1;
    }
    kept
}

/// A row of the database's answer: its labels, where it has any, and which of its
/// values are a pair of a time and a value.
#[derive(Debug, Clone, PartialEq, Eq)]
pub struct Row {
    pub labels: Option<Vec<(String, Option<String>)>>,
    pub is_pair: Vec<bool>,
}

/// A series that is shown: its name, and the places of its points in its row.
#[derive(Debug, Clone, PartialEq, Eq)]
pub struct Series {
    pub label: String,
    pub points: Vec<usize>,
}

/// Whether a series shows a row.
pub open spec fn shows(series: Series, row: Row) -> bool {
    &&& match row.labels {
        Some(labels) => is_series_name(series.label@, label_views(labels@)),
        None => series.label@ == "value"@,
    }
    &&& keeps_points(series.points@, row.is_pair@)
}

/// What is shown of an answer of the database.
#[derive(Debug, Clone, PartialEq, Eq)]
pub struct QueryHead {
    pub panel_id: String,
    pub title: String,
    pub unit: String,
    pub expanded_query: String,
    pub upstream_status: String,
    pub upstream_error: Option<String>,
    /// Whether the answer holds series.
    pub has_series: bool,
}

/// Whether these are the series of an answer.
pub open spec fn are_series(head: QueryHead, rows: Seq<Row>, r: Seq<Series>) -> bool {
    &&& !head.has_series ==> r.len() == 0
    &&& head.has_series ==> r.len() == rows.len()
    &&& forall|i: int| 0 <= i < r.len() ==> #[trigger] shows(r[i], rows[i])
}

/// The series of an answer: one for each row, in order, where the answer holds
/// series.
pub fn series_of(head: &QueryHead, rows: &[Row]) -> (r: Vec<Series>)
    ensures
        are_series(*head, rows@, r@),
{
    let mut out: Vec<Series> = Vec::new();
    if !head.has_series {
        return out;
    }
    let mut i: usize = 0;
    while i < rows.len()
        invariant
            i <= rows.len(),
            out@.len() == i,
            forall|k: int| 0 <= k < i ==> #[trigger] shows(out@[k], rows@[k]),
        decreases rows.len() - i,
    {
        let label = match &rows[i].labels {
            Some(labels) => build_label(labels.as_slice()),
            None => "value".to_owned(),
        };
        let points = kept_points(rows[i].is_pair.as_slice());
        let shown = Series { label, points };
        assert(shows(shown, rows@[i as int]));
        out.push(shown);
        i += 1;
    }
    out
}

/// Whether a query ends so, and how the count of failures goes on.
pub open spec fn concludes(
    before: Map<Seq<char>, Record>,
    after: Map<Seq<char>, Record>,
    login: Seq<char>,
    panel: Panel,
    query: RangeQuery,
    upstream: Upstream,
    now: i64,
    r: Result<QueryHead, Reply>,
) -> bool {
    &&& after == (match upstream {
        Upstream::Unreachable { .. } => before.insert(
            "metrics:"@ + login,
            failed(record_of(before, "metrics:"@ + login), now),
        ),
        Upstream::Answered { .. } => before.remove("metrics:"@ + login),
        _ => before,
    })
    &&& match upstream {
        Upstream::Unreachable { error } => r matches Err(e) && e@ == answer(
            502,
            "prometheus: "@ + error@,
        ),
        Upstream::BodyUnreadable { error } => r matches Err(e) && e@ == answer(
            502,
            "prometheus body: "@ + error@,
        ),
        Upstream::Refused { code, body } => r matches Err(e) && e@ == refusal_of(code, body@),
        Upstream::NotJson { error } => r matches Err(e) && e@ == answer(
            502,
            "prometheus json: "@ + error@,
        ),
        Upstream::Answered { status, error } => {
            let word = match opt_text(status) {
                Some(s) => s,
                None => "error"@,
            };
            r matches Ok(h) && h.panel_id@ == panel.id@ && h.title@ == panel.title@ && h.unit@
                == panel.unit@ && h.expanded_query@ == query.query@ && h.upstream_status@ == word
                && opt_text(h.upstream_error) == opt_text(error) && h.has_series == (word
                == "success"@)
        },
    }
}

/// What a user's query comes to after the database was asked: the head of what is
/// shown, or why there is nothing. That the database could not be reached counts
/// against the user; an answer clears the count.
pub fn conclude(
    throttle: &mut Throttle,
    login: &str,
    panel: &Panel,
    query: &RangeQuery,
    upstream: &Upstream,
    now: i64,
) -> (r: Result<QueryHead, Reply>)
    requires
        now + LOCK_SECS <= i64::MAX,
    ensures
        concludes(old(throttle)@, final(throttle)@, login@, *panel, *query, *upstream, now, r),
{
    let key = throttle_key(login);
    match upstream {
        Upstream::Unreachable { error } => {
            throttle.record_failure(key.as_str(), now);
            let text = cat2("prometheus: ", error.as_str());
            Err(reply(502, text.as_str()))
        },
        Upstream::BodyUnreadable { error } => {
            let text = cat2("prometheus body: ", error.as_str());
            Err(reply(502, text.as_str()))
        },
        Upstream::Refused { code, body } => Err(refused_reply(*code, body.as_str())),
        Upstream::NotJson { error } => {
            let text = cat2("prometheus json: ", error.as_str());
            Err(reply(502, text.as_str()))
        },
        Upstream::Answered { status, error } => {
            throttle.record_success(key.as_str());
            let word = match status {
                Some(s) => s.clone(),
                None => "error".to_owned(),
            };
            let has_series = str_eq(word.as_str(), "success");
            Ok(
                QueryHead {
                    panel_id: panel.id.clone(),
                    title: panel.title.clone(),
                    unit: panel.unit.clone(),
                    expanded_query: query.query.clone(),
                    upstream_status: word,
                    upstream_error: copy_opt(error),
                    has_series,
                },
            )
        },
    }
}

/// A user never writes the query that the database is asked: it is that of a
/// configured panel, filled in for an agent.
pub proof fn law_queries_come_from_panels(
    q: RangeQuery,
    cfg: Config,
    panel: Panel,
    agent_id: Seq<char>,
    range: Seq<char>,
    now: i64,
)
    requires
        is_range_query(q, cfg, panel, agent_id, range, now),
    ensures
        q.query@ == filled_in(
            panel.query@,
            agent_id,
            instance_of(cfg.agent_instance_map@, agent_id),
        ),
        q.end - q.start <= 604800,
{
}

/// A query asks for what was asked for: it ends now, goes back as far as the range says,
/// and an hour where it says nothing that is known, at the step of the range.
pub proof fn law_queries_cover_their_range(
    q: RangeQuery,
    cfg: Config,
    panel: Panel,
    agent_id: Seq<char>,
    range: Seq<char>,
    now: i64,
)
    requires
        is_range_query(q, cfg, panel, agent_id, range, now),
    ensures
        q.end == now,
        range == "6h"@ ==> q.end - q.start == 6 * 3600 && q.step@ == "60s"@,
        range == "24h"@ ==> q.end - q.start == 24 * 3600 && q.step@ == "5m"@,
        range == "7d"@ ==> q.end - q.start == 7 * 24 * 3600 && q.step@ == "30m"@,
        range != "6h"@ && range != "24h"@ && range != "7d"@ ==> q.end - q.start == 3600 && q.step@
            == "30s"@,
        q.url@ == cfg.prometheus.base_url@ + "/query_range"@,
{
    reveal_strlit("6h");
    reveal_strlit("24h");
    reveal_strlit("7d");
    assert("6h"@.len() == 2 && "24h"@.len() == 3 && "7d"@.len() == 2);
    assert("6h"@[0] == '6' && "7d"@[0] == '7');
}

/// An agent is asked for under the name that it was given, and otherwise under the name
/// of its host.
pub proof fn law_agents_are_known_by_their_host(map: Map<Seq<char>, String>, host: Seq<char>)
    ensures
        map.contains_key(host + "-id"@) ==> instance_of(map, host + "-id"@) == map[host + "-id"@]@,
        !map.contains_key(host + "-id"@) ==> instance_of(map, host + "-id"@) == host,
        !map.contains_key(host) && !"-id"@.is_suffix_of(host) ==> instance_of(map, host) == host,
{
    let s = host + "-id"@;
    assert(s.subrange(s.len() - "-id"@.len(), s.len() as int) =~= "-id"@);
    assert(s.take(s.len() - "-id"@.len()) =~= host);
}

/// A query names the agent where it says so, in any of the three ways, and is otherwise
/// left as it is.
pub proof fn law_queries_name_their_agent(
    a: Seq<char>,
    b: Seq<char>,
    agent_id: Seq<char>,
    instance: Seq<char>,
)
    requires
        forall|i: int| 0 <= i < a.len() ==> #[trigger] a[i] != '{',
        forall|i: int| 0 <= i < b.len() ==> #[trigger] b[i] != '{',
        forall|i: int| 0 <= i < agent_id.len() ==> #[trigger] agent_id[i] != '{',
        forall|i: int| 0 <= i < instance.len() ==> #[trigger] instance[i] != '{',
    ensures
        filled_in(a, agent_id, instance) == a,
        filled_in(a + "{agent_id}"@ + b, agent_id, instance) == a + agent_id + b,
        filled_in(a + "{instance}"@ + b, agent_id, instance) == a + instance + b,
        filled_in(a + "{hostname}"@ + b, agent_id, instance) == a + instance + b,
{
    reveal_strlit("{agent_id}");
    reveal_strlit("{instance}");
    reveal_strlit("{hostname}");
    let p = "{agent_id}"@;
    let q = "{instance}"@;
    let h = "{hostname}"@;
    assert(p[0] == '{' && q[0] == '{' && h[0] == '{');
    assert(p[1] == 'a' && q[1] == 'i' && h[1] == 'h');
    law_what_occurs_is_replaced(a, b, p, agent_id);
    law_what_occurs_is_replaced(b, b, p, agent_id);
    law_what_occurs_is_replaced(a, b, q, instance);
    law_what_occurs_is_replaced(b, b, q, instance);
    law_what_occurs_is_replaced(a, b, h, instance);
    law_what_occurs_is_replaced(b, b, h, instance);
    let x = a + agent_id + b;
    law_what_occurs_is_replaced(x, b, q, instance);
    law_what_occurs_is_replaced(x, b, h, instance);
    let y = a + instance + b;
    law_what_occurs_is_replaced(y, b, h, instance);
    lemma_brace_stays(a, q, b, p, agent_id);
    lemma_brace_stays(a, h, b, p, agent_id);
    lemma_brace_stays(a, h, b, q, instance);
}

/// A name in braces is not taken for another of the same length.
proof fn lemma_brace_stays(
    a: Seq<char>,
    name: Seq<char>,
    b: Seq<char>,
    from: Seq<char>,
    to: Seq<char>,
)
    requires
        name.len() == from.len(),
        name != from,
        from.len() > 1,
        from[0] == '{',
        name[0] == '{',
        forall|i: int| 0 <= i < a.len() ==> #[trigger] a[i] != '{',
        forall|i: int| 0 <= i < b.len() ==> #[trigger] b[i] != '{',
        forall|i: int| 1 <= i < name.len() ==> #[trigger] name[i] != '{',
    ensures
        replaced(a + name + b, from, to) == a + name + b,
{
    let s = name + b;
    assert(s.subrange(0, from.len() as int) =~= name);
    assert(!occurs_at(s, from, 0));
    let rest = s.skip(1);
    assert forall|i: int| 0 <= i < rest.len() implies #[trigger] rest[i] != from[0] by {
        if i + 1 < name.len() {
            assert(rest[i] == name[i + 1]);
        } else {
            assert(rest[i] == b[i + 1 - name.len()]);
        }
    }
    law_what_occurs_is_replaced(rest, b, from, to);
    assert(seq![s[0]] + rest =~= s);
    lemma_replaced_after(a, s, from, to);
    assert(a + name + b =~= a + s);
}

/// A setting that names a variable gets its value, and keeps the name where there is no
/// such variable.
pub proof fn law_variables_get_their_value(
    a: Seq<char>,
    name: Seq<char>,
    b: Seq<char>,
    env: Map<Seq<char>, String>,
)
    requires
        forall|i: int| 0 <= i < a.len() ==> #[trigger] a[i] != '$',
        forall|i: int| 0 <= i < name.len() ==> #[trigger] name[i] != '}',
    ensures
        env.contains_key(name) ==> expanded(a + seq!['$', '{'] + name + seq!['}'] + b, env) == a
            + env[name]@ + expanded(b, env),
        !env.contains_key(name) ==> expanded(a + seq!['$', '{'] + name + seq!['}'] + b, env) == a
            + seq!['$', '{'] + name + seq!['}'] + expanded(b, env),
    decreases a.len(),
{
    let s = a + seq!['$', '{'] + name + seq!['}'] + b;
    reveal_strlit("${");
    reveal_strlit("}");
    assert("${"@ =~= seq!['$', '{']);
    assert("}"@ =~= seq!['}']);
    if a.len() == 0 {
        assert(s[0] == '$' && s[1] == '{');
        let rest = s.skip(2);
        assert(rest =~= name + seq!['}'] + b);
        assert forall|i: int| 0 <= i < name.len() implies rest[i] != '}' by {
            assert(rest[i] == name[i]);
        }
        assert(rest[name.len() as int] == '}');
        lemma_first_at_unique(rest, '}', name.len() as int);
        assert(rest.take(name.len() as int) =~= name);
        assert(rest.skip(name.len() as int + 1) =~= b);
        assert(expanded(s, env) == variable_text(name, env) + expanded(b, env));
        assert(a + variable_text(name, env) + expanded(b, env) =~= variable_text(name, env) + expanded(
            b,
            env,
        ));
        assert(a + seq!['$', '{'] + name + seq!['}'] + expanded(b, env) =~= "${"@ + name + "}"@ + expanded(
            b,
            env,
        ));
    } else {
        assert(s[0] == a[0]);
        let t = a.skip(1);
        assert forall|i: int| 0 <= i < t.len() implies #[trigger] t[i] != '$' by {
            assert(t[i] == a[i + 1]);
        }
        law_variables_get_their_value(t, name, b, env);
        assert(s.skip(1) =~= t + seq!['$', '{'] + name + seq!['}'] + b);
        assert(seq![a[0]] + (t + env[name]@ + expanded(b, env)) =~= a + env[name]@ + expanded(b, env));
        assert(seq![a[0]] + (t + seq!['$', '{'] + name + seq!['}'] + expanded(b, env)) =~= a + seq![
            '$',
            '{',
        ] + name + seq!['}'] + expanded(b, env));
    }
}

/// A panel is known by its name, and of two with one name the last counts.
pub proof fn law_panels_are_known_by_name(panels: Seq<Panel>, i: int)
    requires
        0 <= i < panels.len(),
    ensures
        panel_map(panels).contains_key(panels[i].id@),
        panel_map(panels)[panels[i].id@].id@ == panels[i].id@,
        (forall|j: int| i < j < panels.len() ==> (#[trigger] panels[j]).id@ != panels[i].id@)
            ==> panel_map(panels)[panels[i].id@] == panels[i],
    decreases panels.len(),
{
    let before = panels.drop_last();
    if i < panels.len() - 1 {
        law_panels_are_known_by_name(before, i);
        assert(before[i] == panels[i]);
        if forall|j: int| i < j < panels.len() ==> (#[trigger] panels[j]).id@ != panels[i].id@ {
            assert(panels[panels.len() - 1].id@ != panels[i].id@);
            assert forall|j: int| i < j < before.len() implies (#[trigger] before[j]).id@
                != before[i].id@ by {
                assert(before[j] == panels[j]);
            }
        }
    }
}

/// There are no panels but those that were set up.
pub proof fn law_no_panels_are_made_up(panels: Seq<Panel>, id: Seq<char>) -> (i: int)
    requires
        panel_map(panels).contains_key(id),
    ensures
        0 <= i < panels.len(),
        panels[i].id@ == id,
        panel_map(panels)[id] == panels[i],
    decreases panels.len(),
{
    if panels.last().id@ == id {
        panels.len() - 1
    } else {
        law_no_panels_are_made_up(panels.drop_last(), id)
    }
}

/// The settings of the upstream are taken over: the address without slashes at its end, no
/// token where it is empty, a certificate that is not checked only where that was asked
/// for, and ten seconds where no time was set.
pub proof fn law_upstream_settings_are_kept(p: RawPrometheus, r: PrometheusConfig)
    requires
        is_resolved(p, r),
    ensures
        r.base_url@.is_prefix_of(p.url@),
        r.base_url@.len() > 0 ==> r.base_url@.last() != '/',
        p.url@.len() > 0 && p.url@.last() != '/' ==> r.base_url@ == p.url@,
        r.bearer_token is Some <==> p.bearer_token is Some && p.bearer_token->0@.len() > 0,
        r.bearer_token is Some ==> r.bearer_token->0@ == p.bearer_token->0@,
        r.basic_auth == p.basic_auth,
        r.insecure_skip_verify ==> p.insecure_skip_verify is Some,
        p.insecure_skip_verify is Some ==> r.insecure_skip_verify == p.insecure_skip_verify->0,
        p.timeout_secs is Some ==> r.timeout_secs == p.timeout_secs->0,
        p.timeout_secs is None ==> r.timeout_secs == 10,
{
    law_trailing_runs_go(p.url@, '/');
}

/// A query is made exactly where the plugin is set up, the panel is there, and the user's
/// queries have not failed too often; otherwise the user is told which it is.
pub proof fn law_queries_are_made_or_refused(
    cfg: Option<&Config>,
    before: Map<Seq<char>, Record>,
    after: Map<Seq<char>, Record>,
    login: Seq<char>,
    panel_id: Seq<char>,
    agent_id: Seq<char>,
    range: Seq<char>,
    now: i64,
    r: Result<RangeQuery, QueryRefusal>,
)
    requires
        prepares(cfg, before, after, login, panel_id, agent_id, range, now, r),
    ensures
        r is Ok <==> cfg is Some && cfg->0.panels@.contains_key(panel_id) && verdict(
            fresh(before, now),
            "metrics:"@ + login,
            now,
        ) is Allowed,
        r is Ok ==> is_range_query(
            r->Ok_0,
            *cfg->0,
            cfg->0.panels@[panel_id],
            agent_id,
            range,
            now,
        ),
        cfg is None ==> r->Err_0 is Reply && r->Err_0->Reply_reply@.status == 503,
        cfg is Some && !cfg->0.panels@.contains_key(panel_id) ==> r->Err_0 is Reply
            && r->Err_0->Reply_reply@.status == 404,
        cfg is Some && cfg->0.panels@.contains_key(panel_id) && !(r is Ok) ==> r->Err_0 is Locked
            && r->Err_0->Locked_reply@.status == 429,
{
}

/// Only an upstream that cannot be reached counts against the user, only an answer makes
/// up for it, and no other user is touched. An answer is handed on under the panel's
/// name, with the query that was made; it has series exactly where the upstream says that
/// it succeeded. Whatever else came back is a bad gateway.
pub proof fn law_answers_are_handed_on(
    before: Map<Seq<char>, Record>,
    after: Map<Seq<char>, Record>,
    login: Seq<char>,
    other: Seq<char>,
    panel: Panel,
    query: RangeQuery,
    upstream: Upstream,
    now: i64,
    r: Result<QueryHead, Reply>,
)
    requires
        concludes(before, after, login, panel, query, upstream, now, r),
        other != login,
    ensures
        r is Ok <==> upstream is Answered,
        r is Err ==> r->Err_0@.status == 502,
        r is Ok ==> r->Ok_0.panel_id@ == panel.id@ && r->Ok_0.title@ == panel.title@
            && r->Ok_0.unit@ == panel.unit@ && r->Ok_0.expanded_query@ == query.query@,
        r is Ok ==> (r->Ok_0.has_series <==> upstream->status is Some && upstream->status->0@
            == "success"@),
        r is Ok && upstream->status is Some ==> r->Ok_0.upstream_status@ == upstream->status->0@,
        upstream is Answered ==> !after.contains_key("metrics:"@ + login),
        upstream is Unreachable ==> after.contains_key("metrics:"@ + login),
        !(upstream is Answered || upstream is Unreachable) ==> after == before,
        after.contains_key("metrics:"@ + other) == before.contains_key("metrics:"@ + other),
        before.contains_key("metrics:"@ + other) ==> after["metrics:"@ + other] == before["metrics:"@
            + other],
{
    reveal_strlit("error");
    reveal_strlit("success");
    assert("error"@.len() != "success"@.len());
    let p = "metrics:"@;
    if p + login == p + other {
        assert((p + login).skip(p.len() as int) =~= login);
        assert((p + other).skip(p.len() as int) =~= other);
    }
}

/// An upstream that refuses is told of with its status and what it said, of which the
/// first 300 characters are kept.
pub proof fn law_refusals_are_told_with_their_reason(code: u16, body: Seq<char>, r: Upstream)
    requires
        is_upstream(code, body, r),
    ensures
        r is Refused <==> code < 200 || code >= 300,
        r is Refused ==> r->code == code && r->body@ == body,
        !(r is Unreachable) && !(r is BodyUnreadable),
        r is Answered <==> 200 <= code < 300 && answer_of_json(body) is Ok,
        refusal_of(code, body).status == 502,
        body.len() <= 300 ==> refusal_of(code, body).body == "prometheus "@ + decimal(code as nat)
            + ": "@ + body,
        body.len() > 300 ==> refusal_of(code, body).body == "prometheus "@ + decimal(code as nat)
            + ": "@ + body.take(300),
{
}

/// The first thousand points of a series are kept, in their order, and nothing that is
/// no point.
pub proof fn law_points_are_kept_in_order(kept: Seq<usize>, is_pair: Seq<bool>, k: int, i: int, j: int)
    requires
        keeps_points(kept, is_pair),
        is_pair.len() <= usize::MAX,
        0 <= k < is_pair.len(),
        0 <= i < j < kept.len(),
    ensures
        kept.len() <= 1000,
        kept[i] < kept[j],
        is_pair[kept[i] as int] && is_pair[kept[j] as int],
        !is_pair[k] ==> !kept.contains(k as usize),
        is_pair[k] && !kept.contains(k as usize) ==> kept.len() == 1000 && kept.last() < k,
{
    if kept.contains(k as usize) {
        let x = choose|x: int| 0 <= x < kept.len() && kept[x] == k as usize;
        assert(is_pair[kept[x] as int]);
    }
}

/// A series of an answer is a row of it: as many as there are rows where there are any to
/// show, each under its own labels.
pub proof fn law_rows_become_series(head: QueryHead, rows: Seq<Row>, r: Seq<Series>, i: int)
    requires
        are_series(head, rows, r),
        0 <= i < rows.len(),
    ensures
        head.has_series ==> r.len() == rows.len(),
        !head.has_series ==> r.len() == 0,
        head.has_series ==> r[i].points@.len() <= 1000 && keeps_points(r[i].points@, rows[i].is_pair@),
        head.has_series && rows[i].labels is None ==> r[i].label@ == "value"@,
        head.has_series && rows[i].labels is Some ==> is_series_name(
            r[i].label@,
            label_views(rows[i].labels->0@),
        ),
{
    if head.has_series {
        assert(shows(r[i], rows[i]));
    }
}

/// A series is named by its labels, except by those that say only what was asked for;
/// where no label is left, by its measure.
pub proof fn law_series_are_named_by_their_labels(r: Seq<char>, name: Seq<char>, value: Option<Seq<char>>)
    requires
        is_series_name(r, seq![(name, value)]),
    ensures
        name != "__name__"@ && name != "instance"@ && name != "job"@ && value is Some ==> r == name
            + "="@ + value->0,
        name != "__name__"@ && name != "instance"@ && name != "job"@ && value is None ==> r == name
            + "="@ + ""@,
        name == "instance"@ || name == "job"@ ==> r == "value"@,
        name == "__name__"@ && value is Some ==> r == value->0,
{
    reveal(Seq::filter);
    reveal_with_fuel(label_value, 2);
    reveal_strlit("__name__");
    reveal_strlit("instance");
    reveal_strlit("job");
    let labels = seq![(name, value)];
    assert(labels.drop_last() =~= Seq::empty());
    assert(labels.drop_last().filter(telling()) =~= Seq::empty());
    assert(labels.last() == (name, value));
    assert("__name__"@[0] == '_' && "instance"@[0] == 'i' && "job"@[0] == 'j');
    if name != "__name__"@ && name != "instance"@ && name != "job"@ {
        let word = label_word()((name, value));
        assert(labels.filter(telling()) =~= seq![(name, value)]);
        assert(label_bits(labels) =~= seq![word]);
        let b = choose|b: Seq<Seq<char>>|
            in_order(b) && b.to_multiset() == label_bits(labels).to_multiset() && r
                == #[trigger] joined(b, ", "@);
        b.to_multiset_ensures();
        label_bits(labels).to_multiset_ensures();
        assert(b.len() == 1);
        assert(label_bits(labels).contains(word)) by {
            assert(label_bits(labels)[0] == word);
        }
        assert(b.to_multiset().count(word) > 0);
        assert(b.contains(word));
        assert(b[0] == word);
    } else {
        assert(labels.filter(telling()) =~= Seq::empty());
        assert(label_bits(labels).len() == 0);
    }
}

/// A listed panel shows the name, the title, the description and the unit of a panel that
/// is set up, and not its query; every panel is listed.
pub proof fn law_panels_are_listed_as_set_up(
    infos: Seq<PanelInfo>,
    panels: Map<Seq<char>, Panel>,
    info: PanelInfo,
) -> (id: Seq<char>)
    requires
        lists(infos, panels),
        infos.contains(info),
    ensures
        panels.contains_key(id),
        info.id@ == panels[id].id@ && info.title@ == panels[id].title@ && info.unit@ == panels[id].unit@
            && opt_text(info.description) == opt_text(panels[id].description),
{
    let (v, ids) = choose|v: Seq<PanelInfo>, ids: Seq<Seq<char>>| #[trigger]
        stands_for(v, panels, ids) && ids.no_duplicates() && ids.to_set() == panels.dom()
            && v.to_multiset() == infos.to_multiset();
    infos.to_multiset_ensures();
    v.to_multiset_ensures();
    assert(v.to_multiset().count(info) > 0);
    assert(v.contains(info));
    let i = choose|i: int| 0 <= i < v.len() && v[i] == info;
    assert(is_info(v[i], panels[ids[i]]));
    assert(ids.to_set().contains(ids[i]));
    ids[i]
}

/// Every panel that is set up is listed.
pub proof fn law_every_panel_is_listed(
    infos: Seq<PanelInfo>,
    panels: Map<Seq<char>, Panel>,
    id: Seq<char>,
) -> (info: PanelInfo)
    requires
        lists(infos, panels),
        panels.contains_key(id),
    ensures
        infos.contains(info),
        info.id@ == panels[id].id@,
        info.title@ == panels[id].title@,
        infos.len() == panels.dom().len(),
{
    let (v, ids) = choose|v: Seq<PanelInfo>, ids: Seq<Seq<char>>| #[trigger]
        stands_for(v, panels, ids) && ids.no_duplicates() && ids.to_set() == panels.dom()
            && v.to_multiset() == infos.to_multiset();
    infos.to_multiset_ensures();
    v.to_multiset_ensures();
    ids.unique_seq_to_set();
    assert(ids.to_set().contains(id));
    let i = choose|i: int| 0 <= i < ids.len() && ids[i] == id;
    assert(is_info(v[i], panels[ids[i]]));
    assert(v.contains(v[i]));
    assert(infos.to_multiset().count(v[i]) > 0);
    v[i]
}

/// The labels in a name stand in their order, whichever two one looks at.
pub proof fn law_labels_stand_in_order(b: Seq<Seq<char>>, i: int, j: int)
    requires
        in_order(b),
        0 <= i < j < b.len(),
    ensures
        b[i] == b[j] || text_before(b[i], b[j]),
{
    crate::text_order::lemma_before_is_total(b[i], b[j]);
}

} // verus!
