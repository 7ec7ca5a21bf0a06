use hornetmq::kernel::events::JobEvent;
use hornetmq::kernel::job::{Job, JobBuilder, JobOptions, JobState, KeepJobs, KeepJobsConfig};

fn options(attempts: u32) -> JobOptions {
    JobOptions {
        attempts,
        backoff: None,
        delay: 0,
        remove_on_complete: None,
        remove_on_fail: None,
        lifo: false,
    }
}

fn full_builder() -> JobBuilder<String> {
    JobBuilder::new()
        .id("1".into())
        .name("test".into())
        .data("payload".into())
        .opts(Ok(options(3)))
        .timestamp(1000)
        .delay(0)
        .priority(0)
        .processed_on(0)
        .attempts_started(0)
}

#[test]
fn event_as_str() {
    assert_eq!(JobEvent::Added.as_str(), "added");
    assert_eq!(JobEvent::Active.as_str(), "active");
    assert_eq!(JobEvent::Completed.as_str(), "completed");
    assert_eq!(JobEvent::Failed.as_str(), "failed");
    assert_eq!(JobEvent::Retrying.as_str(), "retrying");
    assert_eq!(JobEvent::Stalled.as_str(), "stalled");
}

#[test]
fn event_clone_and_eq() {
    let event = JobEvent::Completed;
    let cloned = event.clone();
    assert_eq!(event, cloned);
}

#[test]
fn event_names_are_distinct() {
    let all = [
        JobEvent::Added,
        JobEvent::Active,
        JobEvent::Completed,
        JobEvent::Failed,
        JobEvent::Retrying,
        JobEvent::Stalled,
    ];
    for a in all {
        for b in all {
            assert_eq!(a == b, a.as_str() == b.as_str());
        }
    }
}

#[test]
fn job_builder_builds_correctly() {
    let job: Job<String> = full_builder().build().unwrap();

    assert_eq!(job.id, "1");
    assert_eq!(job.name, "test");
    assert_eq!(job.data, "payload");
    assert_eq!(job.opts.attempts, 3);
    assert!(job.attempts_made.is_none());
}

#[test]
fn job_builder_with_attempts_made() {
    let job: Job<String> = full_builder().attempts_made(2).build().unwrap();

    assert_eq!(job.attempts_made, Some(2));
}

#[test]
fn job_builder_keeps_every_field() {
    let job = full_builder()
        .timestamp(11)
        .delay(12)
        .priority(13)
        .processed_on(14)
        .attempts_started(15)
        .build()
        .unwrap();
    assert_eq!(job.timestamp, 11);
    assert_eq!(job.delay, 12);
    assert_eq!(job.priority, 13);
    assert_eq!(job.processed_on, 14);
    assert_eq!(job.attempts_started, 15);
}

#[test]
fn job_builder_names_the_first_missing_field() {
    let empty: JobBuilder<String> = JobBuilder::default();
    assert_eq!(empty.build().unwrap_err(), "missing field: id");
    let id = || JobBuilder::<String>::new().id("1".into());
    assert_eq!(id().build().unwrap_err(), "missing field: name");
    let name = || id().name("n".into());
    assert_eq!(name().build().unwrap_err(), "missing field: data");
    let data = || name().data("d".into());
    assert_eq!(data().build().unwrap_err(), "missing field: opts");
    let opts = || data().opts(Ok(options(0)));
    assert_eq!(opts().build().unwrap_err(), "missing field: timestamp");
    let timestamp = || opts().timestamp(1);
    assert_eq!(timestamp().build().unwrap_err(), "missing field: delay");
    let delay = || timestamp().delay(1);
    assert_eq!(delay().build().unwrap_err(), "missing field: priority");
    let priority = || delay().priority(1);
    assert_eq!(priority().build().unwrap_err(), "missing field: processedOn");
    let processed_on = || priority().processed_on(1);
    assert_eq!(processed_on().build().unwrap_err(), "missing field: ats");
    assert!(processed_on().attempts_started(0).build().is_ok());
}

#[test]
fn job_builder_reports_bad_options_first() {
    let bad = || JobBuilder::<String>::new().opts(Err("expected value".into()));
    assert_eq!(bad().build().unwrap_err(), "invalid opts JSON: expected value");
    let later = full_builder().opts(Err("oops".into()));
    assert_eq!(later.build().unwrap_err(), "invalid opts JSON: oops");
}

#[test]
fn job_state_equality() {
    assert_eq!(JobState::Waiting, JobState::Waiting);
    assert_ne!(JobState::Waiting, JobState::Active);
}

#[test]
fn keep_jobs_by_truth_value() {
    let all = KeepJobsConfig::Bool(false).to_keep_jobs();
    assert_eq!(all, KeepJobs { count: -1, age: None });
    let none = KeepJobsConfig::Bool(true).to_keep_jobs();
    assert_eq!(none, KeepJobs { count: 0, age: None });
}

#[test]
fn keep_jobs_by_count() {
    for n in [5, 0, -1, i32::MAX, i32::MIN] {
        assert_eq!(KeepJobsConfig::Count(n).to_keep_jobs(), KeepJobs { count: n, age: None });
    }
}

#[test]
fn keep_jobs_by_age_and_count() {
    let both = KeepJobsConfig::Spec { age: Some(3600), count: Some(100) }.to_keep_jobs();
    assert_eq!(both, KeepJobs { count: 100, age: Some(3600) });
    let age = KeepJobsConfig::Spec { age: Some(7200), count: None }.to_keep_jobs();
    assert_eq!(age, KeepJobs { count: -1, age: Some(7200) });
}

#[test]
fn keep_jobs_default_keeps_all() {
    let keep = KeepJobs::default();
    assert_eq!(keep.count, -1);
    assert_eq!(keep.age, None);
    let count_only = KeepJobsConfig::Spec { age: None, count: Some(7) }.to_keep_jobs();
    assert_eq!(count_only, KeepJobs { count: 7, age: None });
}
