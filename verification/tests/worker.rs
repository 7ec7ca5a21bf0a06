use hornetmq::commands::{
    active_jobs, emit_event, fail_stalled, job_field, lock_exists, lock_holder, move_to_delayed,
    requeue_stalled, Command,
};
use hornetmq::kernel::backoff::BackoffStrategy;
use hornetmq::kernel::events::JobEvent;
use hornetmq::kernel::job::{Job, JobOptions, KeepJobs, KeepJobsConfig};
use hornetmq::processor::{
    AfterFetch, Fetching, Outcome, Processing, Settlement, TaskContext, TaskEvent,
};
use hornetmq::scripts::move_to_active::{Limiter, MoveToActiveReturn};
use hornetmq::scripts::move_to_finished::MoveToFinishedTarget;
use hornetmq::stall_checker::{sweep_interval, OptionsReply, StallSweep, SweepReply, SweepStage, SweepStep};
use hornetmq::worker::{RunAction, RunEvent, Worker, WorkerToken};

fn lines(plan: &[Command]) -> Vec<String> {
    plan.iter().map(|c| c.words.join(" ")).collect()
}

fn line(c: &Command) -> String {
    c.words.join(" ")
}

fn options(attempts: u32) -> JobOptions {
    JobOptions {
        attempts,
        backoff: None,
        delay: 0,
        remove_on_complete: None,
        remove_on_fail: None,
        lifo: false,
    }
}

fn job(opts: JobOptions, attempts_made: Option<u32>) -> Job<u32> {
    Job {
        id: "7".to_string(),
        name: "n".to_string(),
        data: 1,
        opts,
        timestamp: 0,
        delay: 0,
        priority: 0,
        processed_on: 0,
        attempts_started: 0,
        attempts_made,
    }
}

fn context(default_backoff: Option<BackoffStrategy>) -> TaskContext {
    TaskContext {
        prefix: "bull:q:".to_string(),
        token: "t:1".to_string(),
        lock_duration: 30_000,
        default_backoff,
        limiter: None,
    }
}

fn settle(
    default_backoff: Option<BackoffStrategy>,
    opts: JobOptions,
    made: Option<u32>,
    outcome: Outcome,
) -> (JobEvent, Settlement) {
    let state = Processing { task: context(default_backoff), job: job(opts, made) };
    let (settling, settlement) = state.finished(outcome);
    assert_eq!(settling.job_id, "7");
    (settling.event, settlement)
}

fn failed() -> Outcome {
    Outcome::Failed("boom".to_string())
}

// Commands.

#[test]
fn events_are_announced_on_the_stream() {
    let c = emit_event("bull:q:", JobEvent::Retrying, "7");
    assert_eq!(
        c.words,
        vec!["XADD", "bull:q:events", "*", "event", "retrying", "jobId", "7"]
    );
}

#[test]
fn delayed_move_releases_an_own_lock() {
    assert_eq!(line(&lock_holder("bull:q:", "7")), "GET bull:q:7:lock");
    let held = move_to_delayed("bull:q:", "7", "t:1", 5000, 1000, &Some("t:1".to_string()));
    assert_eq!(
        lines(&held),
        vec![
            "DEL bull:q:7:lock",
            "LREM bull:q:active 0 7",
            "HINCRBY bull:q:7 atm 1",
            "ZADD bull:q:delayed 24576000 7",
            "ZADD bull:q:marker 6000 0",
        ]
    );
    for holder in [None, Some("t:2".to_string()), Some("t:11".to_string())] {
        let plan = move_to_delayed("bull:q:", "7", "t:1", 5000, 1000, &holder);
        assert_eq!(lines(&plan), lines(&held)[1..].to_vec());
    }
}

#[test]
fn delayed_score_is_due_time_in_steps() {
    let score = |due: u64| {
        let plan = move_to_delayed("p", "j", "t", due, 0, &None);
        plan[2].words[2].parse::<u64>().unwrap()
    };
    assert_eq!(score(1), 0x1000);
    assert_eq!(score(1_700_000_005_000), 1_700_000_005_000 * 0x1000);
    assert_eq!(score(u64::MAX / 0x1000), (u64::MAX / 0x1000) * 0x1000);
    assert_eq!(score(u64::MAX / 0x1000 + 1), u64::MAX);
    assert_eq!(score(u64::MAX), u64::MAX);
    assert!(score(5) < score(6));
}

#[test]
fn stalled_job_commands() {
    assert_eq!(line(&active_jobs("bull:q:")), "LRANGE bull:q:active 0 -1");
    assert_eq!(line(&lock_exists("bull:q:", "7")), "EXISTS bull:q:7:lock");
    assert_eq!(line(&job_field("bull:q:", "7", "atm")), "HGET bull:q:7 atm");
    assert_eq!(
        lines(&requeue_stalled("bull:q:", "7")),
        vec![
            "LREM bull:q:active 0 7",
            "LPUSH bull:q:wait 7",
            "HINCRBY bull:q:7 atm 1",
            "HINCRBY bull:q:7 ats 1",
            "ZADD bull:q:marker 0.0 1",
        ]
    );
    assert_eq!(
        lines(&fail_stalled("bull:q:", "7", 99)),
        vec![
            "LREM bull:q:active 0 7",
            "ZADD bull:q:failed 99 7",
            "HMSET bull:q:7 failedReason job stalled more than allowable limit finishedOn 99",
            "XADD bull:q:events * event failed jobId 7",
        ]
    );
}

// A processor task.

#[test]
fn task_without_jobs_reports_empty() {
    for found in [
        None,
        Some(MoveToActiveReturn::<u32>::Empty),
        Some(MoveToActiveReturn::RateLimited(5)),
    ] {
        match Fetching::new(context(None)).fetched(found) {
            AfterFetch::Stop(report) => assert_eq!(report, TaskEvent::FreedEmpty),
            other => panic!("{other:?}"),
        }
    }
}

#[test]
fn task_that_ran_a_job_reports_freed() {
    let fetching = Fetching::new(context(None));
    let found = Some(MoveToActiveReturn::Job(job(options(1), None)));
    let processing = match fetching.fetched(found) {
        AfterFetch::Run(processing, announce) => {
            assert_eq!(line(&announce), "XADD bull:q:events * event active jobId 7");
            processing
        }
        other => panic!("{other:?}"),
    };
    let (settling, _) = processing.finished(Outcome::Returned(Ok("1".to_string())));
    let (fetching, announce) = settling.settled(true);
    assert_eq!(line(&announce.unwrap()), "XADD bull:q:events * event completed jobId 7");
    match fetching.fetched::<u32>(None) {
        AfterFetch::Stop(report) => assert_eq!(report, TaskEvent::Freed),
        other => panic!("{other:?}"),
    }
}

#[test]
fn nothing_is_announced_of_what_was_not_recorded() {
    let state = Processing { task: context(None), job: job(options(1), None) };
    let (settling, _) = state.finished(failed());
    let (fetching, announce) = settling.settled(false);
    assert!(announce.is_none());
    assert!(fetching.processed_any);
}

#[test]
fn task_asks_with_its_token() {
    let mut task = context(None);
    task.lock_duration = 0x1_0000_0005;
    task.limiter = Some(Limiter { max: 3, duration: 9 });
    let args = Fetching::new(task).request();
    assert_eq!(args.token, "t:1");
    assert_eq!(args.lock_duration, 5);
    assert_eq!(args.limiter, Some(Limiter { max: 3, duration: 9 }));
}

#[test]
fn success_completes_with_the_result() {
    let mut opts = options(3);
    opts.remove_on_complete = Some(KeepJobsConfig::Bool(true));
    opts.remove_on_fail = Some(KeepJobsConfig::Count(9));
    let (event, settlement) = settle(None, opts, Some(2), Outcome::Returned(Ok("\"ok\"".to_string())));
    assert_eq!(event, JobEvent::Completed);
    match settlement {
        Settlement::Finish { target, value, args } => {
            assert_eq!(target, MoveToFinishedTarget::Completed);
            assert_eq!(value, "\"ok\"");
            assert_eq!(args.token, "t:1");
            assert_eq!(args.keep_jobs, KeepJobs { count: 0, age: None });
            assert_eq!(args.lock_duration, 30_000);
            assert_eq!(args.max_attempts, 3);
            assert_eq!(args.max_metrics_size, 100);
            assert!(!args.fail_parent_on_fail);
            assert!(!args.remove_dependency_on_fail);
        }
        other => panic!("{other:?}"),
    }
}

#[test]
fn unserializable_result_is_noted() {
    let (_, settlement) = settle(None, options(1), None, Outcome::Returned(Err("bad key".to_string())));
    match settlement {
        Settlement::Finish { value, args, .. } => {
            assert_eq!(value, "\"serialization error: bad key\"");
            assert_eq!(args.keep_jobs, KeepJobs { count: -1, age: None });
        }
        other => panic!("{other:?}"),
    }
}

#[test]
fn failure_is_retried_until_attempts_are_used_up() {
    for made in 0..5u32 {
        let (event, settlement) = settle(None, options(3), Some(made), failed());
        if made + 1 < 3 {
            assert_eq!(event, JobEvent::Retrying);
            assert!(matches!(settlement, Settlement::Retry { lifo: false }));
        } else {
            assert_eq!(event, JobEvent::Failed);
            match settlement {
                Settlement::Finish { target, value, .. } => {
                    assert_eq!(target, MoveToFinishedTarget::Failed);
                    assert_eq!(value, "boom");
                }
                other => panic!("{other:?}"),
            }
        }
    }
    let (event, _) = settle(None, options(0), None, failed());
    assert_eq!(event, JobEvent::Failed);
    let (event, _) = settle(None, options(u32::MAX), Some(u32::MAX - 1), failed());
    assert_eq!(event, JobEvent::Failed);
}

#[test]
fn own_backoff_precedes_the_default() {
    let default = Some(BackoffStrategy::Fixed(111));
    let mut opts = options(5);
    let (_, settlement) = settle(default, opts, None, failed());
    assert!(matches!(settlement, Settlement::Delay { delay_ms: 111 }));
    opts.backoff = Some(BackoffStrategy::Exponential { base: 1000, max: 3000 });
    for (made, delay) in [(None, 1000), (Some(1), 2000), (Some(2), 3000)] {
        match settle(default, opts, made, failed()).1 {
            Settlement::Delay { delay_ms } => assert_eq!(delay_ms, delay),
            other => panic!("{other:?}"),
        }
    }
    opts.backoff = Some(BackoffStrategy::Fixed(0));
    opts.lifo = true;
    let (event, settlement) = settle(default, opts, None, failed());
    assert_eq!(event, JobEvent::Retrying);
    assert!(matches!(settlement, Settlement::Retry { lifo: true }));
}

#[test]
fn failed_job_keeps_what_it_asks_for() {
    let mut opts = options(1);
    opts.remove_on_fail = Some(KeepJobsConfig::Spec { age: Some(60), count: None });
    match settle(None, opts, None, failed()).1 {
        Settlement::Finish { args, .. } => {
            assert_eq!(args.keep_jobs, KeepJobs { count: -1, age: Some(60) });
        }
        other => panic!("{other:?}"),
    }
}

// The worker.

#[test]
fn tokens_count_up() {
    let mut token = WorkerToken::new();
    let stem = token.token.clone();
    assert_eq!(token.next(), format!("{stem}:1"));
    assert_eq!(token.next(), format!("{stem}:2"));
    assert_eq!(stem.len(), 36);
    let chars: Vec<char> = stem.chars().collect();
    for (i, c) in chars.iter().enumerate() {
        if [8, 13, 18, 23].contains(&i) {
            assert_eq!(*c, '-');
        } else {
            assert!(c.is_ascii_digit() || ('a'..='f').contains(c));
        }
    }
    assert_eq!(chars[14], '4');
    assert!(['8', '9', 'a', 'b'].contains(&chars[19]));
    assert_ne!(WorkerToken::new().token, stem);
}

fn started(action: RunAction) -> TaskContext {
    match action {
        RunAction::Start(state) => {
            assert!(!state.processed_any);
            state.task
        }
        other => panic!("{other:?}"),
    }
}

#[test]
fn worker_settings_reach_the_task() {
    let mut worker = Worker::new("emails", 2)
        .with_lock_duration(60_000)
        .with_backoff(BackoffStrategy::Fixed(5))
        .with_limiter(10, 1000);
    assert_eq!(worker.lock_duration(), 60_000);
    assert_eq!(worker.get_prefixed_key("marker"), "bull:emails:marker");
    let first = started(worker.step(RunEvent::Tick, false));
    assert_eq!(first.prefix, "bull:emails:");
    assert!(first.token.ends_with(":1"));
    assert_eq!(first.lock_duration, 60_000);
    assert_eq!(first.default_backoff, Some(BackoffStrategy::Fixed(5)));
    assert_eq!(first.limiter, Some(Limiter { max: 10, duration: 1000 }));
    let second = started(worker.step(RunEvent::Tick, false));
    assert!(second.token.ends_with(":2"));
    assert_ne!(first.token, second.token);
}

#[test]
fn worker_defaults() {
    let mut worker = Worker::new("q", 1);
    let task = started(worker.step(RunEvent::Tick, false));
    assert_eq!(task.lock_duration, 30_000);
    assert_eq!(task.default_backoff, None);
    assert_eq!(task.limiter, None);
}

#[test]
fn worker_waits_when_full_and_when_idle() {
    let mut worker = Worker::new("q", 1);
    started(worker.step(RunEvent::Tick, false));
    assert!(matches!(worker.step(RunEvent::Tick, false), RunAction::Receive));
    started(worker.step(RunEvent::Task(TaskEvent::Freed), false));
    assert!(matches!(worker.step(RunEvent::Tick, false), RunAction::Receive));
    assert!(matches!(
        worker.step(RunEvent::Task(TaskEvent::FreedEmpty), false),
        RunAction::WaitMarker
    ));
    assert!(matches!(worker.step(RunEvent::Marker(false), false), RunAction::WaitMarker));
    started(worker.step(RunEvent::Marker(true), false));
}

#[test]
fn worker_drains_before_it_finishes() {
    let mut worker = Worker::new("q", 3);
    for _ in 0..3 {
        started(worker.step(RunEvent::Tick, false));
    }
    assert!(matches!(worker.step(RunEvent::Tick, true), RunAction::Receive));
    assert!(matches!(worker.step(RunEvent::Task(TaskEvent::Freed), true), RunAction::Receive));
    assert!(matches!(worker.step(RunEvent::Task(TaskEvent::FreedEmpty), true), RunAction::Receive));
    assert!(matches!(worker.step(RunEvent::Task(TaskEvent::Freed), true), RunAction::Finish));
}

#[test]
fn worker_without_tasks_finishes_at_once() {
    let mut worker = Worker::new("q", 3);
    assert!(matches!(worker.step(RunEvent::Tick, true), RunAction::Finish));
}

#[test]
fn shutdown_while_waiting() {
    let mut full = Worker::new("q", 1);
    started(full.step(RunEvent::Tick, false));
    full.step(RunEvent::Tick, false);
    assert!(matches!(full.step(RunEvent::Task(TaskEvent::Freed), true), RunAction::Finish));
    let mut idle = Worker::new("q", 1);
    started(idle.step(RunEvent::Tick, false));
    idle.step(RunEvent::Tick, false);
    idle.step(RunEvent::Task(TaskEvent::FreedEmpty), false);
    assert!(matches!(idle.step(RunEvent::Marker(true), true), RunAction::Finish));
}

#[test]
fn shutdown_ends_a_full_run_with_its_tasks() {
    let mut worker = Worker::new("q", 3);
    for _ in 0..3 {
        started(worker.step(RunEvent::Tick, false));
    }
    let mut event = RunEvent::Tick;
    let mut steps = 0;
    while !matches!(worker.step(event, true), RunAction::Finish) {
        steps += 1;
        event = RunEvent::Task(TaskEvent::FreedEmpty);
    }
    assert_eq!(steps, 3);
}

#[test]
fn drained_worker_starts_nothing_without_the_marker() {
    let mut worker = Worker::new("q", 2);
    started(worker.step(RunEvent::Tick, false));
    started(worker.step(RunEvent::Tick, false));
    worker.step(RunEvent::Tick, false);
    worker.step(RunEvent::Task(TaskEvent::FreedEmpty), false);
    for _ in 0..10 {
        assert!(matches!(worker.step(RunEvent::Marker(false), false), RunAction::WaitMarker));
    }
    started(worker.step(RunEvent::Marker(true), false));
}

#[test]
fn closed_channel_ends_the_wait() {
    let mut worker = Worker::new("q", 1);
    started(worker.step(RunEvent::Tick, false));
    worker.step(RunEvent::Tick, false);
    started(worker.step(RunEvent::Closed, false));
    assert!(matches!(worker.step(RunEvent::Tick, true), RunAction::Receive));
    assert!(matches!(worker.step(RunEvent::Closed, true), RunAction::Finish));
}

#[test]
fn worker_takes_only_fitting_events() {
    let mut worker = Worker::new("q", 1);
    assert!(worker.can_step(&RunEvent::Tick));
    assert!(!worker.can_step(&RunEvent::Closed));
    started(worker.step(RunEvent::Tick, false));
    worker.step(RunEvent::Tick, false);
    assert!(worker.can_step(&RunEvent::Task(TaskEvent::Freed)));
    assert!(worker.can_step(&RunEvent::Closed));
    assert!(!worker.can_step(&RunEvent::Tick));
    worker.step(RunEvent::Task(TaskEvent::FreedEmpty), false);
    assert!(worker.can_step(&RunEvent::Marker(false)));
    worker.step(RunEvent::Marker(false), true);
    assert!(!worker.can_step(&RunEvent::Tick));
}

#[test]
fn worker_can_run_again() {
    let mut worker = Worker::new("q", 2);
    assert!(matches!(worker.step(RunEvent::Tick, true), RunAction::Finish));
    worker.begin();
    assert!(worker.can_step(&RunEvent::Tick));
    started(worker.step(RunEvent::Tick, false));
    started(worker.step(RunEvent::Tick, false));
    worker.step(RunEvent::Tick, false);
    worker.begin();
    assert!(matches!(worker.step(RunEvent::Tick, false), RunAction::Receive));
    assert!(matches!(worker.step(RunEvent::Task(TaskEvent::Freed), true), RunAction::Receive));
    assert!(matches!(worker.step(RunEvent::Task(TaskEvent::Freed), true), RunAction::Finish));
}

#[test]
fn worker_never_exceeds_its_concurrency() {
    let mut worker = Worker::new("q", 3);
    let (mut active, mut event) = (0, RunEvent::Tick);
    for step in 0..200 {
        event = match worker.step(event, step > 150) {
            RunAction::Start(_) => {
                active += 1;
                assert!(active <= 3);
                assert!(step <= 150);
                RunEvent::Tick
            }
            RunAction::Receive => {
                active -= 1;
                RunEvent::Task(if step % 3 == 0 { TaskEvent::FreedEmpty } else { TaskEvent::Freed })
            }
            RunAction::WaitMarker => RunEvent::Marker(step % 2 == 0),
            RunAction::Finish => {
                assert_eq!(active, 0);
                return;
            }
        };
    }
    panic!("the worker did not finish");
}

// Stalled jobs.

fn sweep(jobs: &[&str]) -> (StallSweep, SweepStep) {
    StallSweep::new("bull:q:", jobs.iter().map(|s| s.to_string()).collect())
}

fn query(step: &SweepStep) -> String {
    line(step.query.as_ref().unwrap())
}

#[test]
fn sweeps_come_twice_per_lock() {
    assert_eq!(sweep_interval(30_000), 15_000);
    assert_eq!(sweep_interval(7), 3);
}

#[test]
fn empty_sweep_is_over() {
    let (_, step) = sweep(&[]);
    assert!(step.run.is_empty());
    assert!(step.query.is_none());
}

#[test]
fn sweep_visits_every_job() {
    let (mut sweep, step) = sweep(&["1", "2", "3", "4"]);
    assert_eq!(sweep.stage(), SweepStage::Lock);
    assert_eq!(query(&step), "EXISTS bull:q:1:lock");
    let step = sweep.answer(SweepReply::Lock(Some(true)), 9);
    assert!(step.run.is_empty());
    assert_eq!(query(&step), "EXISTS bull:q:2:lock");
    let step = sweep.answer(SweepReply::Lock(None), 9);
    assert!(step.run.is_empty());
    assert_eq!(query(&step), "EXISTS bull:q:3:lock");
    let step = sweep.answer(SweepReply::Lock(Some(false)), 9);
    assert_eq!(lines(&step.run), vec!["XADD bull:q:events * event stalled jobId 3"]);
    assert_eq!(query(&step), "HGET bull:q:3 atm");
    let step = sweep.answer(SweepReply::Attempts(Some(1)), 9);
    assert!(step.run.is_empty());
    assert_eq!(query(&step), "HGET bull:q:3 opts");
    let step = sweep.answer(SweepReply::Options(OptionsReply::Read(options(2))), 9);
    assert_eq!(lines(&step.run), lines(&requeue_stalled("bull:q:", "3")));
    assert_eq!(query(&step), "EXISTS bull:q:4:lock");
    sweep.answer(SweepReply::Lock(Some(false)), 9);
    sweep.answer(SweepReply::Attempts(Some(2)), 9);
    let step = sweep.answer(SweepReply::Options(OptionsReply::Read(options(2))), 77);
    assert_eq!(lines(&step.run), lines(&fail_stalled("bull:q:", "4", 77)));
    assert!(step.query.is_none());
}

#[test]
fn sweep_falls_back_where_it_cannot_read() {
    let verdict = |attempts: Option<u32>, reply: OptionsReply| {
        let (mut s, _) = sweep(&["5"]);
        s.answer(SweepReply::Lock(Some(false)), 1);
        s.answer(SweepReply::Attempts(attempts), 1);
        let step = s.answer(SweepReply::Options(reply), 1);
        assert!(step.query.is_none());
        lines(&step.run)
    };
    let requeue = lines(&requeue_stalled("bull:q:", "5"));
    let fail = lines(&fail_stalled("bull:q:", "5", 1));
    assert_eq!(verdict(None, OptionsReply::Invalid), requeue);
    assert_eq!(verdict(Some(1), OptionsReply::Invalid), fail);
    assert_eq!(verdict(None, OptionsReply::Read(options(0))), fail);
    assert_eq!(verdict(None, OptionsReply::Unreadable), Vec::<String>::new());
}
