//! What the anonymous usage report holds, and whether it is sent.

use vstd::prelude::*;
use crate::auth::{is_off, switches_off};
use crate::text::{
    ascii_lower, is_blank, lemma_filter_push, list_has, lowered, opt_str, str_eq, texts, trim,
    trimmed,
};

verus! {

/// The usage report. It holds no name, address or identifier but the random one
/// of the instance.
#[derive(Debug, Clone, PartialEq, Eq)]
pub struct Report {
    pub instance_id: String,
    pub version: String,
    pub edition: String,
    pub users: i64,
    pub agents: usize,
    pub features: Vec<String>,
}

/// Whether the setting forbids the report.
pub open spec fn forced_off(setting: Option<Seq<char>>) -> bool {
    setting is Some && is_off(lowered(trimmed(setting->0)))
}

/// Whether the setting forbids the report.
pub fn env_forced_off(setting: Option<&str>) -> (r: bool)
    ensures
        r == forced_off(opt_str(setting)),
{
    match setting {
        Some(v) => {
            let t = trim(v);
            switches_off(ascii_lower(t.as_str()).as_str())
        },
        None => false,
    }
}

/// Whether `r` says whether an instance reports.
pub open spec fn is_reporting(env_value: Option<&str>, toggle_enabled: bool, r: bool) -> bool {
    r == (!forced_off(opt_str(env_value)) && toggle_enabled)
}

/// Whether the report is sent: the setting can forbid it, else the switch of the
/// admin page decides.
pub fn telemetry_enabled(env_value: Option<&str>, toggle_enabled: bool) -> (r: bool)
    ensures
        is_reporting(env_value, toggle_enabled, r),
{
    if env_forced_off(env_value) {
        return false;
    }
    toggle_enabled
}

/// Whether the switch of the admin page is on: unless it is stored as `0`.
pub fn toggle_value(stored: Option<&str>) -> (r: bool)
    ensures
        r == (opt_str(stored) != Some("0"@)),
{
    match stored {
        Some(v) => !str_eq(v, "0"),
        None => true,
    }
}

/// The names of all features that a report can hold, sorted.
pub open spec fn all_features() -> Seq<Seq<char>> {
    seq![
        "backups"@,
        "docker"@,
        "ee"@,
        "k8s"@,
        "metrics"@,
        "swarm"@,
        "systemd"@,
    ]
}

/// What features depend on.
#[derive(Debug, Clone, PartialEq, Eq)]
pub struct FeatureInputs {
    /// The capabilities of all agents.
    pub capabilities: Vec<String>,
    pub ee_active: bool,
    pub backups_enabled: Option<String>,
    pub metrics_config_path: Option<String>,
}

/// Whether an instance has a feature.
pub open spec fn has_feature(f: FeatureInputs, name: Seq<char>) -> bool {
    if name == "backups"@ {
        f.backups_enabled is Some && (f.backups_enabled->0@ == "true"@ || f.backups_enabled->0@
            == "1"@)
    } else if name == "ee"@ {
        f.ee_active
    } else if name == "metrics"@ {
        f.metrics_config_path is Some && f.metrics_config_path->0@.len() > 0
    } else {
        texts(f.capabilities@).contains(name)
    }
}

fn check_feature(f: &FeatureInputs, name: &str) -> (r: bool)
    ensures
        r == has_feature(*f, name@),
{
    if str_eq(name, "backups") {
        match &f.backups_enabled {
            Some(v) => str_eq(v.as_str(), "true") || str_eq(v.as_str(), "1"),
            None => false,
        }
    } else if str_eq(name, "ee") {
        f.ee_active
    } else if str_eq(name, "metrics") {
        match &f.metrics_config_path {
            Some(v) => !is_blank(v.as_str()),
            None => false,
        }
    } else {
        list_has(f.capabilities.as_slice(), name)
    }
}

/// The features of an instance, sorted.
pub fn features(f: &FeatureInputs) -> (r: Vec<String>)
    ensures
        texts(r@) == all_features().filter(|name: Seq<char>| has_feature(*f, name)),
{
    let names: Vec<String> = vec![
        "backups".to_owned(),
        "docker".to_owned(),
        "ee".to_owned(),
        "k8s".to_owned(),
        "metrics".to_owned(),
        "swarm".to_owned(),
        "systemd".to_owned(),
    ];
    let ghost all = all_features();
    assert(texts(names@) =~= all);
    let ghost p = |name: Seq<char>| has_feature(*f, name);
    let mut out: Vec<String> = Vec::new();
    let mut i: usize = 0;
    proof {
        reveal(Seq::filter);
        assert(all.take(0) =~= Seq::<Seq<char>>::empty());
        assert(texts(out@) =~= all.take(0).filter(p));
    }
    while i < names.len()
        invariant
            i <= names.len(),
            texts(names@) == all,
            p == (|name: Seq<char>| has_feature(*f, name)),
            texts(out@) == all.take(i as int).filter(p),
        decreases names.len() - i,
    {
        assert(texts(names@)[i as int] == names@[i as int]@);
        proof {
            lemma_filter_push(all.take(i as int), names@[i as int]@, p);
            assert(all.take(i + 1) =~= all.take(i as int).push(names@[i as int]@));
        }
        if check_feature(f, names[i].as_str()) {
            let ghost before = out@;
            out.push(names[i].clone());
            assert(texts(out@) =~= texts(before).push(names@[i as int]@));
        }
        i += 1;
    }
    assert(all.take(i as int) =~= all);
    out
}

/// Whether `r` is the report of an instance.
pub open spec fn is_report(
    instance_id: String,
    version: String,
    users: i64,
    agents: usize,
    inputs: FeatureInputs,
    r: Report,
) -> bool {
    &&& r.instance_id == instance_id
    &&& r.version == version
    &&& r.edition@ == (if inputs.ee_active {
        "ee"@
    } else {
        "ce"@
    })
    &&& r.users == users
    &&& r.agents == agents
    &&& texts(r.features@) == all_features().filter(|name: Seq<char>| has_feature(inputs, name))
}

/// The report of an instance.
pub fn report(
    instance_id: String,
    version: String,
    users: i64,
    agents: usize,
    inputs: &FeatureInputs,
) -> (r: Report)
    ensures
        is_report(instance_id, version, users, agents, *inputs, r),
{
    let edition = if inputs.ee_active {
        "ee"
    } else {
        "ce"
    };
    Report {
        instance_id,
        version,
        edition: edition.to_owned(),
        users,
        agents,
        features: features(inputs),
    }
}

/// Whatever agents call themselves capable of, a report only holds names of the
/// fixed list.
pub proof fn law_report_holds_only_known_features(f: FeatureInputs, name: Seq<char>)
    requires
        all_features().filter(|n: Seq<char>| has_feature(f, n)).contains(name),
    ensures
        all_features().contains(name),
        has_feature(f, name),
{
    lemma_filtered(all_features(), |n: Seq<char>| has_feature(f, n), name);
}

proof fn lemma_filtered(s: Seq<Seq<char>>, p: spec_fn(Seq<char>) -> bool, x: Seq<char>)
    requires
        s.filter(p).contains(x),
    ensures
        s.contains(x),
        p(x),
    decreases s.len(),
{
    reveal(Seq::filter);
    if s.len() > 0 {
        let front = s.drop_last();
        assert(s =~= front.push(s.last()));
        lemma_filter_push(front, s.last(), p);
        if p(s.last()) && x == s.last() {
            assert(s[s.len() - 1] == x);
        } else {
            let at = choose|i: int| 0 <= i < s.filter(p).len() && s.filter(p)[i] == x;
            assert(front.filter(p)[at] == x);
            lemma_filtered(front, p, x);
            let k = choose|i: int| 0 <= i < front.len() && front[i] == x;
            assert(s[k] == x);
        }
    }
}

/// An instance reports exactly where neither the environment nor its own switch says
/// not to.
pub proof fn law_reports_can_be_switched_off(env_value: Option<&str>, toggle_enabled: bool, r: bool)
    requires
        is_reporting(env_value, toggle_enabled, r),
    ensures
        r ==> toggle_enabled,
        !toggle_enabled ==> !r,
        env_value is None ==> (r <==> toggle_enabled),
        env_value is Some && is_off(lowered(trimmed(env_value->0@))) ==> !r,
        env_value is Some && !is_off(lowered(trimmed(env_value->0@))) ==> (r <==> toggle_enabled),
{
}

/// A report holds the instance, its version and edition, its numbers, and of the
/// features those that are in use.
pub proof fn law_reports_are_true(
    instance_id: String,
    version: String,
    users: i64,
    agents: usize,
    inputs: FeatureInputs,
    r: Report,
)
    requires
        is_report(instance_id, version, users, agents, inputs, r),
    ensures
        r.instance_id == instance_id && r.version == version && r.users == users && r.agents == agents,
        inputs.ee_active ==> r.edition@ == "ee"@,
        !inputs.ee_active ==> r.edition@ == "ce"@,
        has_feature(inputs, "ee"@) <==> inputs.ee_active,
        has_feature(inputs, "docker"@) <==> texts(inputs.capabilities@).contains("docker"@),
        has_feature(inputs, "k8s"@) <==> texts(inputs.capabilities@).contains("k8s"@),
        has_feature(inputs, "metrics"@) <==> inputs.metrics_config_path is Some
            && inputs.metrics_config_path->0@.len() > 0,
        has_feature(inputs, "backups"@) <==> inputs.backups_enabled is Some && (
        inputs.backups_enabled->0@ == "true"@ || inputs.backups_enabled->0@ == "1"@),
{
    reveal_strlit("ee");
    reveal_strlit("docker");
    reveal_strlit("k8s");
    reveal_strlit("metrics");
    reveal_strlit("backups");
    assert("ee"@[0] == 'e' && "docker"@[0] == 'd' && "k8s"@[0] == 'k' && "metrics"@[0] == 'm');
    assert("backups"@[0] == 'b');
}

} // verus!
