use swaypplet::backup::{ago, bytes, describe, Job, Snapshot, Tier, STALE_AFTER_S};

/// Some point in time, in seconds.
const NOW: u64 = 1_789_600_000;

fn job(state: &str, result: &str, ended: u64) -> Job {
    Job {
        job: "home".into(),
        state: state.into(),
        result: result.into(),
        ended,
        ..Job::default()
    }
}

#[test]
fn no_files_is_unknown_not_ok() {
    assert_eq!(Snapshot::default().tier(NOW), Tier::Unknown);
}

#[test]
fn failure_outranks_a_running_sibling() {
    let snap = Snapshot {
        jobs: vec![job("idle", "exit-code", NOW), job("running", "", 0)],
    };
    assert_eq!(snap.tier(NOW), Tier::Failed);
}

#[test]
fn two_missed_nights_are_stale() {
    let snap = Snapshot {
        jobs: vec![job("idle", "success", NOW - STALE_AFTER_S - 60)],
    };
    assert_eq!(snap.tier(NOW), Tier::Stale);
}

#[test]
fn a_fresh_success_is_quiet() {
    let snap = Snapshot {
        jobs: vec![job("idle", "success", NOW - 300)],
    };
    assert_eq!(snap.tier(NOW), Tier::Fine);
}

#[test]
fn the_units_own_output_parses() {
    let written = r#"{
      "job": "home",
      "state": "idle",
      "result": "success",
      "started": 1789586889,
      "ended": 1789586909,
      "snapshot": "796a8304",
      "snapshot_bytes": 67819475074,
      "repo_bytes": 32679960054,
      "target_avail_bytes": 1301167185920
    }"#;
    let read: serde_json::Value = serde_json::from_str(written).expect("the unit's own JSON");
    let text = |key: &str| read[key].as_str().unwrap().to_string();
    let count = |key: &str| read[key].as_u64().unwrap();
    let job = Job {
        job: text("job"),
        state: text("state"),
        result: text("result"),
        started: count("started"),
        ended: count("ended"),
        snapshot: text("snapshot"),
        snapshot_bytes: count("snapshot_bytes"),
        repo_bytes: count("repo_bytes"),
        target_avail_bytes: count("target_avail_bytes"),
    };
    assert_eq!(job.job, "home");
    assert!(!job.running());
    assert!(job.succeeded());
    assert_eq!(job.snapshot, "796a8304");
    assert_eq!(bytes(job.snapshot_bytes), "63.2 GiB");
    let snap = Snapshot { jobs: vec![job] };
    assert!(snap.tooltip(NOW).contains("meros-server"));
}

#[test]
fn ago_rounds_to_something_a_human_would_say() {
    assert_eq!(ago(30), "just now");
    assert_eq!(ago(720), "12 min ago");
    assert_eq!(ago(7200), "2 h ago");
    assert_eq!(ago(3 * 86400), "3 days ago");
}

#[test]
fn sizes_are_written_as_a_human_reads_them() {
    assert_eq!(bytes(0), "0 B");
    assert_eq!(bytes(1023), "1023 B");
    assert_eq!(bytes(32_679_960_054), "30.4 GiB");
}

#[test]
fn sizes_round_as_floating_point_does() {
    let units = ["KiB", "MiB", "GiB", "TiB"];
    let mut samples: Vec<u64> = vec![1024, 1536, 1_048_575, 1_048_576, u64::MAX, u64::MAX - 1];
    let mut n: u64 = 1031;
    while n < u64::MAX / 7 {
        samples.push(n);
        samples.push(n | 1);
        n = n / 3 * 7 + 11;
    }
    for n in samples {
        let mut value = n as f64 / 1024.0;
        let mut unit = 0;
        while value >= 1024.0 && unit < 3 {
            value /= 1024.0;
            unit += 1;
        }
        assert_eq!(bytes(n), format!("{value:.1} {}", units[unit]), "{n}");
    }
}

#[test]
fn running_outranks_quiet_and_staleness_outranks_running() {
    let running = Snapshot {
        jobs: vec![job("running", "success", NOW)],
    };
    assert_eq!(running.tier(NOW), Tier::Running);
    let stale = Snapshot {
        jobs: vec![
            job("running", "success", NOW),
            job("idle", "success", NOW - STALE_AFTER_S - 1),
        ],
    };
    assert_eq!(stale.tier(NOW), Tier::Stale);
}

#[test]
fn a_job_without_a_name_takes_that_of_its_file() {
    let named = Job::default().named("home");
    assert_eq!(named.job, "home");
    assert_eq!(job("idle", "", 0).named("other").job, "home");
}

#[test]
fn a_job_says_what_became_of_it() {
    assert_eq!(describe(&job("idle", "exit-code", NOW - 720), NOW), "failed 12 min ago");
    let mut j = job("idle", "success", NOW - 7200);
    assert_eq!(describe(&j, NOW), "2 h ago");
    j.snapshot = "796a8304".into();
    j.snapshot_bytes = 67_819_475_074;
    assert_eq!(describe(&j, NOW), "2 h ago, 63.2 GiB (796a8304)");
    j.state = "running".into();
    j.started = NOW - 10;
    assert_eq!(describe(&j, NOW), "running, started just now");
}

#[test]
fn stale_and_failed_share_a_class() {
    assert_eq!(Tier::Fine.css(), "backup-ok");
    assert_eq!(Tier::Running.css(), "backup-running");
    assert_eq!(Tier::Stale.css(), "backup-warn");
    assert_eq!(Tier::Failed.css(), "backup-warn");
    assert_eq!(Tier::Unknown.css(), "backup-unknown");
}
