//! Backup status: what the nightly jobs left behind, and how loud that is.
//!
//! Points in time are seconds since the Unix epoch.

use vstd::prelude::*;
use vstd::string::*;
use crate::text::{
    concat2, concat3, decimal, digit, join, joined, push_decimal, push_text, same,
    texts,
};

verus! {

/// Where the jobs leave their status.
pub const DIR: &'static str = "/var/lib/backup-status";

/// One missed night is noise, two are a fact worth a glyph.
pub const STALE_AFTER_S: u64 = 172_800;

/// How often staleness is looked at, in seconds: no file event announces it.
pub const TICK_S: u32 = 600;

/// One job's last word about itself.
#[derive(Debug, PartialEq, Eq)]
pub struct Job {
    pub job: String,
    /// `running` during a run.
    pub state: String,
    /// `success`, or the reason it was not.
    pub result: String,
    pub started: u64,
    pub ended: u64,
    pub snapshot: String,
    pub snapshot_bytes: u64,
    pub repo_bytes: u64,
    pub target_avail_bytes: u64,
}

impl Default for Job {
    /// A job that says nothing.
    fn default() -> (r: Job)
        ensures
            r.job@.len() == 0,
            r.state@.len() == 0,
            r.result@.len() == 0,
            r.snapshot@.len() == 0,
            r.started == 0,
            r.ended == 0,
            r.snapshot_bytes == 0,
            r.repo_bytes == 0,
            r.target_avail_bytes == 0,
    {
        Job {
            job: String::new(),
            state: String::new(),
            result: String::new(),
            started: 0,
            ended: 0,
            snapshot: String::new(),
            snapshot_bytes: 0,
            repo_bytes: 0,
            target_avail_bytes: 0,
        }
    }
}

impl Job {
    pub open spec fn runs(self) -> bool {
        self.state@ == "running"@
    }

    pub open spec fn fine(self) -> bool {
        self.result@ == "success"@
    }

    /// How long ago it ended, in seconds.
    pub open spec fn age(self, now: u64) -> u64 {
        if now < self.ended {
            0
        } else {
            (now - self.ended) as u64
        }
    }

    pub fn running(&self) -> (r: bool)
        ensures
            r == self.runs(),
    {
        same(self.state.as_str(), "running")
    }

    pub fn succeeded(&self) -> (r: bool)
        ensures
            r == self.fine(),
    {
        same(self.result.as_str(), "success")
    }

    /// How long ago it ended, in seconds.
    pub fn age_s(&self, now: u64) -> (r: u64)
        ensures
            r == self.age(now),
    {
        now.saturating_sub(self.ended)
    }

    /// The job under the name of its file, where it has none of its own.
    pub fn named(self, name: &str) -> (r: Job)
        ensures
            r == (Job { job: r.job, ..self }),
            r.job@ == if self.job@.len() == 0 {
                name@
            } else {
                self.job@
            },
    {
        proof {
            reveal_strlit("");
            if self.job@.len() == 0 {
                assert(self.job@ =~= ""@);
            }
        }
        if same(self.job.as_str(), "") {
            let mut job = self;
            job.job = name.to_owned();
            job
        } else {
            self
        }
    }
}

/// How loud the segment is. A failure outranks staleness, which outranks a run
/// in progress. Not knowing is a state of its own: what cannot say "I don't
/// know" cannot be trusted when it says "fine".
#[derive(Debug, Clone, Copy, PartialEq, Eq, Structural)]
pub enum Tier {
    Fine,
    Running,
    Stale,
    Failed,
    Unknown,
}

impl Tier {
    /// The class the segment wears.
    pub fn css(self) -> (r: &'static str)
        ensures
            r == match self {
                Tier::Fine => "backup-ok",
                Tier::Running => "backup-running",
                Tier::Stale | Tier::Failed => "backup-warn",
                Tier::Unknown => "backup-unknown",
            },
    {
        match self {
            Tier::Fine => "backup-ok",
            Tier::Running => "backup-running",
            Tier::Stale | Tier::Failed => "backup-warn",
            Tier::Unknown => "backup-unknown",
        }
    }

    pub fn icon(self) -> (r: &'static str)
        ensures
            r == match self {
                Tier::Running => "󰁯",
                Tier::Failed => "󰅚",
                Tier::Stale => "󰀦",
                Tier::Fine => "󰄬",
                Tier::Unknown => "󰋗",
            },
    {
        match self {
            Tier::Running => "󰁯",
            Tier::Failed => "󰅚",
            Tier::Stale => "󰀦",
            Tier::Fine => "󰄬",
            Tier::Unknown => "󰋗",
        }
    }
}

// ── Prose ──────────────────────────────────────────────────────────────

/// How long ago something was.
pub open spec fn long_ago(secs: u64) -> Seq<char> {
    if secs < 90 {
        "just now"@
    } else if secs < 5400 {
        decimal(((secs + 30) / 60) as nat) + " min ago"@
    } else if secs < 169_200 {
        decimal(((secs + 1800) / 3600) as nat) + " h ago"@
    } else {
        decimal(((secs + 43_200) / 86_400) as nat) + " days ago"@
    }
}

/// How long ago something was. Coarse on purpose: nobody acts on the
/// difference between 61 and 62 minutes.
pub fn ago(secs: u64) -> (r: String)
    requires
        secs <= u64::MAX - 43_200,
    ensures
        r@ == long_ago(secs),
{
    if secs < 90 {
        return "just now".to_owned();
    }
    let mut s = String::new();
    if secs < 5400 {
        push_decimal(&mut s, (secs + 30) / 60);
        s.append(" min ago");
    } else if secs < 169_200 {
        push_decimal(&mut s, (secs + 1800) / 3600);
        s.append(" h ago");
    } else {
        push_decimal(&mut s, (secs + 43_200) / 86_400);
        s.append(" days ago");
    }
    assert(s@ =~= long_ago(secs));
    s
}

/// The quotient rounded to the nearest, to the even one where two are as near.
pub open spec fn nearest(n: nat, d: nat) -> nat
    recommends
        d > 0,
{
    let q = n / d;
    let r = n % d;
    if 2 * r > d || (2 * r == d && q % 2 == 1) {
        q + 1
    } else {
        q
    }
}

/// The power of two by which a number of 64 bits has to be divided to be left
/// with 53.
pub open spec fn spare(n: nat, p: nat) -> nat
    decreases 4096 - p,
{
    if p == 0 || p >= 2048 || n / p < 0x20_0000_0000_0000 {
        p
    } else {
        spare(n, 2 * p)
    }
}

/// A number as double precision holds it: rounded to 53 significant bits.
pub open spec fn as_double(n: u64) -> nat {
    let p = spare(n as nat, 1);
    nearest(n as nat, p) * p
}

/// The unit of a size, as how often it divides by 1024: none, KiB, MiB, GiB,
/// and TiB for all that is larger.
pub open spec fn unit_of(n: nat) -> nat {
    if n < 0x400 {
        0
    } else if n < 0x10_0000 {
        1
    } else if n < 0x4000_0000 {
        2
    } else if n < 0x100_0000_0000 {
        3
    } else {
        4
    }
}

/// How many bytes a unit has.
pub open spec fn unit_size(u: nat) -> nat {
    if u == 0 {
        1
    } else if u == 1 {
        0x400
    } else if u == 2 {
        0x10_0000
    } else if u == 3 {
        0x4000_0000
    } else {
        0x100_0000_0000
    }
}

pub open spec fn unit_name(u: nat) -> Seq<char> {
    if u == 1 {
        " KiB"@
    } else if u == 2 {
        " MiB"@
    } else if u == 3 {
        " GiB"@
    } else {
        " TiB"@
    }
}

/// A size: in bytes below a KiB, in the unit that fits with one decimal above.
pub open spec fn size_text(n: u64) -> Seq<char> {
    let f = as_double(n);
    let u = unit_of(f);
    if u == 0 {
        decimal(n as nat) + " B"@
    } else {
        let tenths = nearest(10 * f, unit_size(u));
        decimal(tenths / 10) + "."@ + seq![digit(tenths % 10)] + unit_name(u)
    }
}

fn round(n: u128, d: u128) -> (r: u128)
    requires
        0 < d <= 0x100_0000_0000,
        n <= 0x1_0000_0000_0000_0000_0000,
    ensures
        r == nearest(n as nat, d as nat),
{
    let q: u128 = n / d;
    let r: u128 = n % d;
    assert(q <= n) by (nonlinear_arith)
        requires
            q == n / d,
            d > 0,
    ;
    if 2 * r > d || (2 * r == d && q % 2 == 1) {
        q + 1
    } else {
        q
    }
}

fn double(n: u64) -> (r: u128)
    ensures
        r == as_double(n),
        r <= 0x1_0000_0000_0000_0000,
{
    let mut p: u128 = 1;
    let wide: u128 = n as u128;
    assert(wide / 1 == wide);
    while wide / p >= 0x20_0000_0000_0000
        invariant
            wide == n,
            1 <= p <= 0x800,
            p == 1 || p == 2 || p == 4 || p == 8 || p == 16 || p == 32 || p == 64 || p == 128 || p
                == 256 || p == 512 || p == 1024 || p == 2048,
            spare(n as nat, 1) == spare(n as nat, p as nat),
        decreases 4096 - p,
    {
        assert(wide / 2048 < 0x20_0000_0000_0000);
        p = p * 2;
    }
    let q: u128 = round(wide, p);
    assert(q <= wide / p + 1);
    assert(q * p <= 0x1_0000_0000_0000_0000) by {
        if p == 1 {
            assert(q == wide) by {
                assert(wide % 1 == 0);
            }
        } else {
            assert(q <= 0x20_0000_0000_0000);
            assert(q * p <= 0x20_0000_0000_0000 * 2048) by (nonlinear_arith)
                requires
                    0 <= q <= 0x20_0000_0000_0000,
                    0 <= p <= 2048,
            ;
        }
    }
    assert(spare(n as nat, 1) == p);
    q * p
}

/// A size for people to read.
pub fn bytes(n: u64) -> (r: String)
    ensures
        r@ == size_text(n),
{
    let f: u128 = double(n);
    let (unit, size, name): (u8, u128, &'static str) = if f < 0x400 {
        (0, 1, " B")
    } else if f < 0x10_0000 {
        (1, 0x400, " KiB")
    } else if f < 0x4000_0000 {
        (2, 0x10_0000, " MiB")
    } else if f < 0x100_0000_0000 {
        (3, 0x4000_0000, " GiB")
    } else {
        (4, 0x100_0000_0000, " TiB")
    };
    let mut s = String::new();
    if unit == 0 {
        push_decimal(&mut s, n);
        s.append(" B");
        assert(s@ =~= size_text(n));
        return s;
    }
    let ten: u128 = 10 * f;
    let tenths: u128 = round(ten, size);
    assert(ten / size <= 0xa00_0000) by {
        if unit == 4 {
            assert(ten / 0x100_0000_0000 <= 0xa00_0000);
        } else if unit == 3 {
            assert(ten / 0x4000_0000 <= 0xa00_0000);
        } else if unit == 2 {
            assert(ten / 0x10_0000 <= 0xa00_0000);
        } else {
            assert(ten / 0x400 <= 0xa00_0000);
        }
    }
    push_decimal(&mut s, (tenths / 10) as u64);
    s.append(".");
    let d: u8 = 48 + (tenths % 10) as u8;
    s.push(d as char);
    s.append(name);
    assert(s@ =~= size_text(n));
    s
}

/// One job as a line.
pub open spec fn job_line(job: Job, now: u64) -> Seq<char> {
    if job.runs() {
        "running, started "@ + long_ago(
            if now < job.started {
                0
            } else {
                (now - job.started) as u64
            },
        )
    } else if !job.fine() {
        "failed "@ + long_ago(job.age(now))
    } else {
        long_ago(job.age(now)) + (if job.snapshot_bytes > 0 {
            ", "@ + size_text(job.snapshot_bytes)
        } else {
            Seq::empty()
        }) + (if job.snapshot@.len() == 0 {
            Seq::empty()
        } else {
            " ("@ + job.snapshot@ + ")"@
        })
    }
}

/// One job as a line: what happened, when, and how much of it.
pub fn describe(job: &Job, now: u64) -> (r: String)
    requires
        now <= u64::MAX - 43_200,
    ensures
        r@ == job_line(*job, now),
{
    if job.running() {
        let when = ago(now.saturating_sub(job.started));
        return concat2("running, started ", when.as_str());
    }
    let when = ago(job.age_s(now));
    if !job.succeeded() {
        return concat2("failed ", when.as_str());
    }
    let mut s = when;
    let ghost first = s@;
    if job.snapshot_bytes > 0 {
        let size = bytes(job.snapshot_bytes);
        s.append(", ");
        s.append(size.as_str());
    }
    proof {
        reveal_strlit("");
        if job.snapshot@.len() == 0 {
            assert(job.snapshot@ =~= ""@);
        }
    }
    if !same(job.snapshot.as_str(), "") {
        s.append(" (");
        s.append(job.snapshot.as_str());
        s.append(")");
    }
    assert(s@ =~= job_line(*job, now));
    s
}

// ── Snapshot ───────────────────────────────────────────────────────────

/// What the jobs say, in display order.
#[derive(Debug, PartialEq, Eq)]
pub struct Snapshot {
    pub jobs: Vec<Job>,
}

impl Default for Snapshot {
    /// No job has said anything.
    fn default() -> (r: Snapshot)
        ensures
            r.jobs@.len() == 0,
    {
        Snapshot { jobs: Vec::new() }
    }
}

/// How loud the jobs are together.
pub open spec fn loudest(jobs: Seq<Job>, now: u64) -> Tier {
    if jobs.len() == 0 {
        Tier::Unknown
    } else if exists|i: int|
        0 <= i < jobs.len() && !(#[trigger] jobs[i]).runs() && !jobs[i].fine() {
        Tier::Failed
    } else if exists|i: int|
        0 <= i < jobs.len() && !(#[trigger] jobs[i]).runs() && jobs[i].age(now) > STALE_AFTER_S {
        Tier::Stale
    } else if exists|i: int| 0 <= i < jobs.len() && (#[trigger] jobs[i]).runs() {
        Tier::Running
    } else {
        Tier::Fine
    }
}

/// The place of the last of the jobs that ended last.
pub open spec fn newest(jobs: Seq<Job>) -> int
    recommends
        jobs.len() > 0,
    decreases jobs.len(),
{
    if jobs.len() <= 1 {
        0
    } else if jobs.last().ended >= jobs[newest(jobs.drop_last())].ended {
        jobs.len() - 1
    } else {
        newest(jobs.drop_last())
    }
}

/// The lines of the jobs.
pub open spec fn job_lines(jobs: Seq<Job>, now: u64) -> Seq<Seq<char>> {
    jobs.map_values(|j: Job| j.job@ + "  "@ + job_line(j, now))
}

/// The tooltip of the jobs.
pub open spec fn tip(jobs: Seq<Job>, now: u64) -> Seq<char> {
    if jobs.len() == 0 {
        "Backup: no run recorded yet"@
    } else {
        let target = jobs[newest(jobs)];
        let lines = seq!["Backup"@] + job_lines(jobs, now);
        joined(
            if target.repo_bytes > 0 {
                lines.push(
                    "meros-server  "@ + size_text(target.repo_bytes) + " used, "@ + size_text(
                        target.target_avail_bytes,
                    ) + " free"@,
                )
            } else {
                lines
            },
            "\n"@,
        )
    }
}

impl Snapshot {
    /// How loud the jobs are together.
    pub fn tier(&self, now: u64) -> (r: Tier)
        ensures
            r == loudest(self.jobs@, now),
    {
        if self.jobs.len() == 0 {
            return Tier::Unknown;
        }
        let mut failed = false;
        let mut stale = false;
        let mut running = false;
        let mut i: usize = 0;
        while i < self.jobs.len()
            invariant
                i <= self.jobs@.len(),
                failed == exists|j: int|
                    0 <= j < i && !(#[trigger] self.jobs@[j]).runs() && !self.jobs@[j].fine(),
                stale == exists|j: int|
                    0 <= j < i && !(#[trigger] self.jobs@[j]).runs() && self.jobs@[j].age(now)
                        > STALE_AFTER_S,
                running == exists|j: int| 0 <= j < i && (#[trigger] self.jobs@[j]).runs(),
            decreases self.jobs@.len() - i,
        {
            let job = &self.jobs[i];
            if job.running() {
                running = true;
            } else {
                if !job.succeeded() {
                    failed = true;
                }
                if job.age_s(now) > STALE_AFTER_S {
                    stale = true;
                }
            }
            i += 1;
        }
        if failed {
            Tier::Failed
        } else if stale {
            Tier::Stale
        } else if running {
            Tier::Running
        } else {
            Tier::Fine
        }
    }

    /// The whole status: the glyph provokes one question, and this answers it.
    pub fn tooltip(&self, now: u64) -> (r: String)
        requires
            now <= u64::MAX - 43_200,
        ensures
            r@ == tip(self.jobs@, now),
    {
        if self.jobs.len() == 0 {
            return "Backup: no run recorded yet".to_owned();
        }
        let ghost want = job_lines(self.jobs@, now);
        let mut lines: Vec<String> = Vec::new();
        push_text(&mut lines, "Backup".to_owned());
        let mut latest: usize = 0;
        let mut i: usize = 0;
        assert(texts(lines@) =~= seq!["Backup"@] + want.take(0));
        while i < self.jobs.len()
            invariant
                i <= self.jobs@.len(),
                now <= u64::MAX - 43_200,
                want == job_lines(self.jobs@, now),
                texts(lines@) == seq!["Backup"@] + want.take(i as int),
                latest < self.jobs@.len(),
                latest == newest(self.jobs@.take(i as int)),
                i > 0 ==> latest < i,
            decreases self.jobs@.len() - i,
        {
            let job = &self.jobs[i];
            assert(self.jobs@.take(i + 1).drop_last() =~= self.jobs@.take(i as int));
            assert(self.jobs@.take(i + 1).last() == *job);
            let said = describe(job, now);
            push_text(&mut lines, concat3(job.job.as_str(), "  ", said.as_str()));
            assert(texts(lines@) =~= seq!["Backup"@] + want.take(i + 1));
            if job.ended >= self.jobs[latest].ended {
                latest = i;
            }
            i += 1;
        }
        assert(self.jobs@.take(self.jobs@.len() as int) =~= self.jobs@);
        assert(want.take(want.len() as int) =~= want);
        let target = &self.jobs[latest];
        if target.repo_bytes > 0 {
            let used = bytes(target.repo_bytes);
            let free = bytes(target.target_avail_bytes);
            let head = concat3("meros-server  ", used.as_str(), " used, ");
            push_text(&mut lines, concat3(head.as_str(), free.as_str(), " free"));
        }
        join(&lines, "\n")
    }
}

/// A failed run outranks all else; without one, a job that is two nights old
/// outranks a run in progress.
pub proof fn law_failure_outranks_staleness_outranks_running(jobs: Seq<Job>, now: u64, i: int)
    requires
        0 <= i < jobs.len(),
        !jobs[i].runs(),
    ensures
        !jobs[i].fine() ==> loudest(jobs, now) == Tier::Failed,
        jobs[i].age(now) > STALE_AFTER_S ==> loudest(jobs, now) == Tier::Failed || loudest(
            jobs,
            now,
        ) == Tier::Stale,
{
}

/// Quiet means that every job's last run succeeded less than two nights ago
/// and none is running.
pub proof fn law_quiet_means_fine(jobs: Seq<Job>, now: u64)
    requires
        loudest(jobs, now) == Tier::Fine,
    ensures
        jobs.len() > 0,
        forall|i: int|
            0 <= i < jobs.len() ==> !(#[trigger] jobs[i]).runs() && jobs[i].fine() && jobs[i].age(
                now,
            ) <= STALE_AFTER_S,
{
}

/// How loud the jobs are together. A run that is not under way and did not end
/// in success is a failure, louder than anything; one that ended more than two
/// days ago is stale, a run under way is just that. Nothing known is a state of
/// its own.
pub proof fn law_how_loud_the_jobs_are(jobs: Seq<Job>, now: u64)
    ensures
        ({
            let failed = exists|i: int|
                {
                    &&& 0 <= i < jobs.len()
                    &&& (#[trigger] jobs[i]).state@ != "running"@
                    &&& jobs[i].result@ != "success"@
                };
            let stale = exists|i: int|
                {
                    &&& 0 <= i < jobs.len()
                    &&& (#[trigger] jobs[i]).state@ != "running"@
                    &&& now - jobs[i].ended > 2 * 24 * 3600
                };
            let running = exists|i: int|
                0 <= i < jobs.len() && (#[trigger] jobs[i]).state@ == "running"@;
            loudest(jobs, now) == if jobs.len() == 0 {
                Tier::Unknown
            } else if failed {
                Tier::Failed
            } else if stale {
                Tier::Stale
            } else if running {
                Tier::Running
            } else {
                Tier::Fine
            }
        }),
        TICK_S == 600,
{
    if exists|i: int|
        0 <= i < jobs.len() && !(#[trigger] jobs[i]).runs() && jobs[i].age(now) > STALE_AFTER_S {
        let i = choose|i: int|
            0 <= i < jobs.len() && !(#[trigger] jobs[i]).runs() && jobs[i].age(now) > STALE_AFTER_S;
        assert(jobs[i].state@ != "running"@ && now - jobs[i].ended > 2 * 24 * 3600);
    }
}

/// How long ago something was is told in minutes, hours or days, to the nearest
/// whole one, and not at all within a minute and a half.
pub proof fn law_times_are_told_to_the_nearest(secs: u64, n: nat)
    ensures
        secs < 90 ==> long_ago(secs) == "just now"@,
        90 <= secs < 5400 && n * 60 <= secs + 30 < (n + 1) * 60 ==> long_ago(secs) == decimal(n)
            + " min ago"@,
        5400 <= secs < 47 * 3600 && n * 3600 <= secs + 1800 < (n + 1) * 3600 ==> long_ago(secs)
            == decimal(n) + " h ago"@,
        47 * 3600 <= secs && n * 86_400 <= secs + 43_200 < (n + 1) * 86_400 ==> long_ago(secs)
            == decimal(n) + " days ago"@,
{
    if n * 60 <= secs + 30 < (n + 1) * 60 {
        assert((secs + 30) / 60 == n);
    }
    if n * 3600 <= secs + 1800 < (n + 1) * 3600 {
        assert((secs + 1800) / 3600 == n);
    }
    if n * 86_400 <= secs + 43_200 < (n + 1) * 86_400 {
        assert((secs + 43_200) / 86_400 == n);
    }
}

proof fn lemma_nearest(n: nat, d: nat, q: nat)
    requires
        d > 0,
        2 * n <= 2 * q * d + d,
        2 * q * d <= 2 * n + d,
        2 * n == 2 * q * d + d || 2 * q * d == 2 * n + d ==> q % 2 == 0,
    ensures
        nearest(n, d) == q,
{
    let p = n / d;
    let r = n % d;
    assert(n == p * d + r && 0 <= r < d) by (nonlinear_arith)
        requires
            d > 0,
            p == n / d,
            r == n % d,
    ;
    assert(p <= q <= p + 1) by (nonlinear_arith)
        requires
            n == p * d + r,
            0 <= r < d,
            d > 0,
            2 * n <= 2 * q * d + d,
            2 * q * d <= 2 * n + d,
    ;
    if q == p + 1 {
        assert(q * d == p * d + d) by (nonlinear_arith)
            requires
                q == p + 1,
        ;
    }
    assert(2 * q * d == 2 * (q * d)) by (nonlinear_arith);
}

/// A size is told in bytes below a KiB, and above in the largest of four units
/// that it holds one of, to the nearest tenth, and to the even one where two are
/// as near. (Below 2^53, beyond which the number itself is rounded first.)
pub proof fn law_sizes_are_told_to_the_nearest_tenth(n: u64, t: nat, u: nat)
    requires
        n < 0x20_0000_0000_0000,
        1 <= u <= 4,
    ensures
        n < 1024 ==> size_text(n) == decimal(n as nat) + " B"@,
        ({
            let one: nat = if u == 1 {
                1024
            } else if u == 2 {
                1024 * 1024
            } else if u == 3 {
                1024 * 1024 * 1024
            } else {
                1024 * 1024 * 1024 * 1024
            };
            &&& one <= n
            &&& u == 4 || n < 1024 * one
            &&& 20 * n <= 2 * t * one + one
            &&& 2 * t * one <= 20 * n + one
            &&& 20 * n == 2 * t * one + one || 2 * t * one == 20 * n + one ==> t % 2 == 0
        }) ==> size_text(n) == decimal(t / 10) + "."@ + decimal(t % 10) + (if u == 1 {
            " KiB"@
        } else if u == 2 {
            " MiB"@
        } else if u == 3 {
            " GiB"@
        } else {
            " TiB"@
        }),
{
    assert((n as nat) / 1nat == n && (n as nat) % 1nat == 0);
    assert(spare(n as nat, 1) == 1);
    assert(nearest(n as nat, 1) == n);
    assert(as_double(n) == n);
    let one: nat = if u == 1 {
        1024
    } else if u == 2 {
        1024 * 1024
    } else if u == 3 {
        1024 * 1024 * 1024
    } else {
        1024 * 1024 * 1024 * 1024
    };
    if {
        &&& one <= n
        &&& u == 4 || n < 1024 * one
        &&& 20 * n <= 2 * t * one + one
        &&& 2 * t * one <= 20 * n + one
        &&& 20 * n == 2 * t * one + one || 2 * t * one == 20 * n + one ==> t % 2 == 0
    } {
        assert(unit_of(n as nat) == u);
        lemma_nearest((10 * n) as nat, one, t);
        assert(decimal(t % 10) =~= seq![digit(t % 10)]);
    }
}

/// What a job's line says: that it runs and since when, that it failed and when,
/// or when it last went well, how large the snapshot was and what it is called,
/// as far as that is known.
pub proof fn law_what_a_line_says(job: Job, now: u64)
    ensures
        ({
            let since = |at: u64|
                if now < at {
                    0u64
                } else {
                    (now - at) as u64
                };
            let line = job_line(job, now);
            &&& job.state@ == "running"@ ==> line == "running, started "@ + long_ago(
                since(job.started),
            )
            &&& job.state@ != "running"@ && job.result@ != "success"@ ==> line == "failed "@
                + long_ago(since(job.ended))
            &&& job.state@ != "running"@ && job.result@ == "success"@ ==> {
                let when = long_ago(since(job.ended));
                let size = when + (", "@ + size_text(job.snapshot_bytes));
                &&& job.snapshot_bytes == 0 && job.snapshot@.len() == 0 ==> line == when
                &&& job.snapshot_bytes > 0 && job.snapshot@.len() == 0 ==> line == size
                &&& job.snapshot_bytes == 0 && job.snapshot@.len() > 0 ==> line == when + (" ("@
                    + job.snapshot@ + ")"@)
                &&& job.snapshot_bytes > 0 && job.snapshot@.len() > 0 ==> line == size + (" ("@
                    + job.snapshot@ + ")"@)
            }
        }),
{
}

/// The job whose figures stand for the target is one that ended last, and of
/// several the last listed.
pub proof fn law_the_newest_job_speaks_for_the_target(jobs: Seq<Job>)
    requires
        jobs.len() > 0,
    ensures
        0 <= newest(jobs) < jobs.len(),
        forall|i: int|
            0 <= i < jobs.len() ==> (#[trigger] jobs[i]).ended <= jobs[newest(jobs)].ended,
        forall|i: int|
            newest(jobs) < i < jobs.len() ==> (#[trigger] jobs[i]).ended < jobs[newest(jobs)].ended,
    decreases jobs.len(),
{
    if jobs.len() > 1 {
        let head = jobs.drop_last();
        law_the_newest_job_speaks_for_the_target(head);
        assert forall|i: int| 0 <= i < jobs.len() implies (#[trigger] jobs[i]).ended <= jobs[newest(
            jobs,
        )].ended by {
            if i < head.len() {
                assert(head[i] == jobs[i]);
            }
        }
        assert forall|i: int| newest(jobs) < i < jobs.len() implies (#[trigger] jobs[i]).ended
            < jobs[newest(jobs)].ended by {
            if i < head.len() {
                assert(head[i] == jobs[i]);
            }
        }
    }
}

/// The tooltip is a line for each job in their order, below a title, and what is
/// used and free on the target below them, where that is known.
pub proof fn law_the_tooltip_lists_every_job(jobs: Seq<Job>, now: u64, i: int)
    ensures
        jobs.len() == 0 ==> tip(jobs, now) == "Backup: no run recorded yet"@,
        job_lines(jobs, now).len() == jobs.len(),
        0 <= i < jobs.len() ==> job_lines(jobs, now)[i] == jobs[i].job@ + "  "@ + job_line(
            jobs[i],
            now,
        ),
        jobs.len() > 0 && jobs[newest(jobs)].repo_bytes == 0 ==> tip(jobs, now) == joined(
            seq!["Backup"@] + job_lines(jobs, now),
            "\n"@,
        ),
        jobs.len() > 0 && jobs[newest(jobs)].repo_bytes > 0 ==> tip(jobs, now) == joined(
            seq!["Backup"@] + job_lines(jobs, now),
            "\n"@,
        ) + "\n"@ + ("meros-server  "@ + size_text(jobs[newest(jobs)].repo_bytes) + " used, "@
            + size_text(jobs[newest(jobs)].target_avail_bytes) + " free"@),
{
    if jobs.len() > 0 && jobs[newest(jobs)].repo_bytes > 0 {
        let lines = seq!["Backup"@] + job_lines(jobs, now);
        let last = "meros-server  "@ + size_text(jobs[newest(jobs)].repo_bytes) + " used, "@
            + size_text(jobs[newest(jobs)].target_avail_bytes) + " free"@;
        assert(lines.push(last).drop_last() =~= lines);
    }
}

} // verus!
