//! The stock probes that agents ship: what each script does, and what it reads
//! from its environment.

use vstd::prelude::*;

verus! {

/// A stock probe.
#[derive(Debug, Clone, PartialEq, Eq)]
pub struct CatalogEntry {
    /// The file name of the script.
    pub script: String,
    pub title: String,
    pub description: String,
    /// What the script reads from its environment.
    pub default_env: Vec<EnvDefault>,
    /// How often it is best run, in seconds.
    pub interval_secs: u32,
    /// How long it may take, in seconds.
    pub timeout_secs: u32,
}

/// A variable that a script reads, and the value it takes where none is set.
#[derive(Debug, Clone, PartialEq, Eq)]
pub struct EnvDefault {
    pub key: String,
    pub value: String,
    pub description: String,
}

/// The view of `EnvDefault`.
pub struct EnvView {
    pub key: Seq<char>,
    pub value: Seq<char>,
    pub description: Seq<char>,
}

impl View for EnvDefault {
    type V = EnvView;

    open spec fn view(&self) -> EnvView {
        env_view(self.key@, self.value@, self.description@)
    }
}

/// The view of `CatalogEntry`.
pub struct EntryView {
    pub script: Seq<char>,
    pub title: Seq<char>,
    pub description: Seq<char>,
    pub default_env: Seq<EnvView>,
    pub interval_secs: u32,
    pub timeout_secs: u32,
}

/// The views of a list of variables.
pub open spec fn env_views(v: Seq<EnvDefault>) -> Seq<EnvView> {
    v.map_values(|e: EnvDefault| e@)
}

impl View for CatalogEntry {
    type V = EntryView;

    open spec fn view(&self) -> EntryView {
        entry_view(
            self.script@,
            self.title@,
            self.description@,
            env_views(self.default_env@),
            self.interval_secs,
            self.timeout_secs,
        )
    }
}

/// A variable with its default.
pub open spec fn env_view(key: Seq<char>, value: Seq<char>, description: Seq<char>) -> EnvView {
    EnvView { key, value, description }
}

/// A stock probe with its fields.
pub open spec fn entry_view(
    script: Seq<char>,
    title: Seq<char>,
    description: Seq<char>,
    default_env: Seq<EnvView>,
    interval_secs: u32,
    timeout_secs: u32,
) -> EntryView {
    EntryView { script, title, description, default_env, interval_secs, timeout_secs }
}

/// The views of a list of stock probes.
pub open spec fn entry_views(v: Seq<CatalogEntry>) -> Seq<EntryView> {
    v.map_values(|e: CatalogEntry| e@)
}

/// The stock probes.
pub open spec fn stock_probes() -> Seq<EntryView> {
    seq![
        entry_view(
            "apt-pending-count.sh"@,
            "Apt — pending updates"@,
            "Red while any packages are awaiting upgrade. Runs `apt list --upgradable`."@,
            Seq::empty(),
            3600,
            30,
        ),
        entry_view(
            "disk-usage.sh"@,
            "Root disk usage"@,
            "Red when the configured mount exceeds THRESHOLD%."@,
            seq![
                env_view("THRESHOLD"@, "90"@, "Percent used at which the probe goes red."@),
                env_view("MOUNT"@, "/"@, "Filesystem to inspect with `df`."@),
            ],
            300,
            10,
        ),
        entry_view(
            "failed-services.sh"@,
            "Systemd — failed units"@,
            "Red when any --failed systemd unit exists; lists names in detail."@,
            Seq::empty(),
            60,
            10,
        ),
        entry_view(
            "swap-pressure.sh"@,
            "Swap pressure"@,
            "Red when sustained swap (si+so) exceeds THRESHOLD_KB per second."@,
            seq![
                env_view("THRESHOLD_KB"@, "256"@, "Bytes per second of combined swap-in/swap-out tolerated before red."@),
            ],
            60,
            10,
        ),
        entry_view(
            "load-average.sh"@,
            "Load average per CPU"@,
            "Red when 1-minute load average divided by CPU count exceeds THRESHOLD."@,
            seq![
                env_view("THRESHOLD"@, "1.0"@, "Load-per-CPU above which the probe goes red."@),
            ],
            60,
            5,
        ),
        entry_view(
            "docker-running.sh"@,
            "Docker — recent exits"@,
            "Red when containers have exited within the last LOOKBACK seconds."@,
            seq![
                env_view("LOOKBACK"@, "3600"@, "How far back to scan for exited containers (seconds)."@),
            ],
            300,
            15,
        ),
        entry_view(
            "swarm-pending.sh"@,
            "Swarm — pending services (manager)"@,
            "Manager-only. Red when any service has Replicas != desired."@,
            Seq::empty(),
            60,
            15,
        ),
        entry_view(
            "cert-expiry-days.sh"@,
            "Letsencrypt — expiry"@,
            "Red when any matching cert expires in fewer than THRESHOLD days."@,
            seq![
                env_view("THRESHOLD"@, "14"@, "Days remaining at which the probe goes red."@),
                env_view("CERT_GLOB"@, "/etc/letsencrypt/live/*/fullchain.pem"@, "Glob of certs to inspect."@),
            ],
            21_600,
            10,
        ),
        entry_view(
            "journal-errors.sh"@,
            "Journal — recent errors"@,
            "Red when journalctl reports more than THRESHOLD priority<=err lines in the last LOOKBACK seconds."@,
            seq![
                env_view("THRESHOLD"@, "0"@, "Tolerated error lines before the probe goes red."@),
                env_view("LOOKBACK"@, "900"@, "How far back to scan (seconds)."@),
            ],
            300,
            15,
        ),
        entry_view(
            "ntp-drift.sh"@,
            "NTP drift"@,
            "Red when system clock is more than THRESHOLD_MS off NTP time."@,
            seq![
                env_view("THRESHOLD_MS"@, "1000"@, "Milliseconds of drift tolerated before red."@),
            ],
            600,
            10,
        ),
    ]
}

fn env_default(key: &str, value: &str, description: &str) -> (r: EnvDefault)
    ensures
        r@ == env_view(key@, value@, description@),
{
    EnvDefault {
        key: key.to_owned(),
        value: value.to_owned(),
        description: description.to_owned(),
    }
}

fn entry(
    script: &str,
    title: &str,
    description: &str,
    default_env: Vec<EnvDefault>,
    interval_secs: u32,
    timeout_secs: u32,
) -> (r: CatalogEntry)
    ensures
        r@ == entry_view(
            script@,
            title@,
            description@,
            env_views(default_env@),
            interval_secs,
            timeout_secs,
        ),
{
    CatalogEntry {
        script: script.to_owned(),
        title: title.to_owned(),
        description: description.to_owned(),
        default_env,
        interval_secs,
        timeout_secs,
    }
}

/// The stock probes.
pub fn catalog() -> (r: Vec<CatalogEntry>)
    ensures
        entry_views(r@) == stock_probes(),
{
    let mut out: Vec<CatalogEntry> = Vec::new();
    let env: Vec<EnvDefault> = Vec::new();
    assert(env_views(env@) =~= stock_probes()[0].default_env);
    out.push(
        entry(
            "apt-pending-count.sh",
            "Apt — pending updates",
            "Red while any packages are awaiting upgrade. Runs `apt list --upgradable`.",
            env,
            3600,
            30,
        ),
    );
    let mut env: Vec<EnvDefault> = Vec::new();
    env.push(env_default("THRESHOLD", "90", "Percent used at which the probe goes red."));
    env.push(env_default("MOUNT", "/", "Filesystem to inspect with `df`."));
    assert(env_views(env@) =~= stock_probes()[1].default_env);
    out.push(
        entry(
            "disk-usage.sh",
            "Root disk usage",
            "Red when the configured mount exceeds THRESHOLD%.",
            env,
            300,
            10,
        ),
    );
    let env: Vec<EnvDefault> = Vec::new();
    assert(env_views(env@) =~= stock_probes()[2].default_env);
    out.push(
        entry(
            "failed-services.sh",
            "Systemd — failed units",
            "Red when any --failed systemd unit exists; lists names in detail.",
            env,
            60,
            10,
        ),
    );
    let mut env: Vec<EnvDefault> = Vec::new();
    env.push(env_default("THRESHOLD_KB", "256", "Bytes per second of combined swap-in/swap-out tolerated before red."));
    assert(env_views(env@) =~= stock_probes()[3].default_env);
    out.push(
        entry(
            "swap-pressure.sh",
            "Swap pressure",
            "Red when sustained swap (si+so) exceeds THRESHOLD_KB per second.",
            env,
            60,
            10,
        ),
    );
    let mut env: Vec<EnvDefault> = Vec::new();
    env.push(env_default("THRESHOLD", "1.0", "Load-per-CPU above which the probe goes red."));
    assert(env_views(env@) =~= stock_probes()[4].default_env);
    out.push(
        entry(
            "load-average.sh",
            "Load average per CPU",
            "Red when 1-minute load average divided by CPU count exceeds THRESHOLD.",
            env,
            60,
            5,
        ),
    );
    let mut env: Vec<EnvDefault> = Vec::new();
    env.push(env_default("LOOKBACK", "3600", "How far back to scan for exited containers (seconds)."));
    assert(env_views(env@) =~= stock_probes()[5].default_env);
    out.push(
        entry(
            "docker-running.sh",
            "Docker — recent exits",
            "Red when containers have exited within the last LOOKBACK seconds.",
            env,
            300,
            15,
        ),
    );
    let env: Vec<EnvDefault> = Vec::new();
    assert(env_views(env@) =~= stock_probes()[6].default_env);
    out.push(
        entry(
            "swarm-pending.sh",
            "Swarm — pending services (manager)",
            "Manager-only. Red when any service has Replicas != desired.",
            env,
            60,
            15,
        ),
    );
    let mut env: Vec<EnvDefault> = Vec::new();
    env.push(env_default("THRESHOLD", "14", "Days remaining at which the probe goes red."));
    env.push(env_default("CERT_GLOB", "/etc/letsencrypt/live/*/fullchain.pem", "Glob of certs to inspect."));
    assert(env_views(env@) =~= stock_probes()[7].default_env);
    out.push(
        entry(
            "cert-expiry-days.sh",
            "Letsencrypt — expiry",
            "Red when any matching cert expires in fewer than THRESHOLD days.",
            env,
            21_600,
            10,
        ),
    );
    let mut env: Vec<EnvDefault> = Vec::new();
    env.push(env_default("THRESHOLD", "0", "Tolerated error lines before the probe goes red."));
    env.push(env_default("LOOKBACK", "900", "How far back to scan (seconds)."));
    assert(env_views(env@) =~= stock_probes()[8].default_env);
    out.push(
        entry(
            "journal-errors.sh",
            "Journal — recent errors",
            "Red when journalctl reports more than THRESHOLD priority<=err lines in the last LOOKBACK seconds.",
            env,
            300,
            15,
        ),
    );
    let mut env: Vec<EnvDefault> = Vec::new();
    env.push(env_default("THRESHOLD_MS", "1000", "Milliseconds of drift tolerated before red."));
    assert(env_views(env@) =~= stock_probes()[9].default_env);
    out.push(
        entry(
            "ntp-drift.sh",
            "NTP drift",
            "Red when system clock is more than THRESHOLD_MS off NTP time.",
            env,
            600,
            10,
        ),
    );
    assert(entry_views(out@) =~= stock_probes());
    out
}

/// No stock probe may take longer than the time to its next run.
pub proof fn law_probes_end_before_they_run_again(i: int)
    requires
        0 <= i < stock_probes().len(),
    ensures
        0 < stock_probes()[i].timeout_secs < stock_probes()[i].interval_secs,
{
}

} // verus!
