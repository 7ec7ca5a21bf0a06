//! One processor task of a worker: it takes job after job until there is none, runs each, and
//! settles what became of it.
//!
//! The task passes through three states. [`Fetching`] asks for a job; [`Processing`] has one
//! that is to be run; [`Settling`] has the result and waits for it to be recorded. What a state
//! asks for is done outside, and the outcome is handed to the state's method.

use vstd::prelude::*;
use crate::commands::{announcement, emit_event, Command};
use crate::kernel::backoff::{delay_after, law_delay_never_shrinks, BackoffStrategy};
use crate::kernel::events::JobEvent;
use crate::kernel::job::{Job, JobOptions, KeepJobs, KeepJobsConfig, KEEP_ALL};
use crate::kernel::retry::{next_retry_delay, retry_delay, should_retry};
use crate::scripts::move_to_active::{Limiter, MoveToActiveArgs, MoveToActiveReturn};
use crate::scripts::move_to_finished::{MoveToFinishedArgs, MoveToFinishedArgsView, MoveToFinishedTarget};
use crate::text::join;
use vstd::arithmetic::power2::pow2;

verus! {

/// What a task reports when it ends.
#[derive(Debug, Clone, Copy, PartialEq, Eq, Structural)]
pub enum TaskEvent {
    /// It has run at least one job.
    Freed,
    /// There was no job for it.
    FreedEmpty,
}

/// What a task has from its worker, and the token that it holds locks with.
#[derive(Debug)]
pub struct TaskContext {
    pub prefix: String,
    pub token: String,
    pub lock_duration: u64,
    pub default_backoff: Option<BackoffStrategy>,
    pub limiter: Option<Limiter>,
}

/// The context with its texts as character sequences.
#[verifier::ext_equal]
pub struct TaskContextView {
    pub prefix: Seq<char>,
    pub token: Seq<char>,
    pub lock_duration: u64,
    pub default_backoff: Option<BackoffStrategy>,
    pub limiter: Option<Limiter>,
}

impl View for TaskContext {
    type V = TaskContextView;

    open spec fn view(&self) -> TaskContextView {
        TaskContextView {
            prefix: self.prefix@,
            token: self.token@,
            lock_duration: self.lock_duration,
            default_backoff: self.default_backoff,
            limiter: self.limiter,
        }
    }
}

/// The task is asking for a job.
#[derive(Debug)]
pub struct Fetching {
    pub task: TaskContext,
    pub processed_any: bool,
}

/// The state with its texts as character sequences.
#[verifier::ext_equal]
pub struct FetchingView {
    pub task: TaskContextView,
    pub processed_any: bool,
}

impl View for Fetching {
    type V = FetchingView;

    open spec fn view(&self) -> FetchingView {
        FetchingView { task: self.task@, processed_any: self.processed_any }
    }
}

/// The task has a job that is to be run.
#[derive(Debug)]
pub struct Processing<Data> {
    pub task: TaskContext,
    pub job: Job<Data>,
}

/// The task has the result of a job, which is being recorded.
#[derive(Debug)]
pub struct Settling {
    pub task: TaskContext,
    pub job_id: String,
    pub event: JobEvent,
}

/// What follows the search for a job.
#[derive(Debug)]
pub enum AfterFetch<Data> {
    /// Send the command, then run the job.
    Run(Processing<Data>, Command),
    /// The task ends with this report.
    Stop(TaskEvent),
}

/// How running a job went.
#[derive(Debug)]
pub enum Outcome {
    /// The processor returned a value, and this is its JSON, or the serializer's error text.
    Returned(Result<String, String>),
    /// The processor failed with this error text.
    Failed(String),
}

/// How the result of a job is to be recorded.
#[derive(Debug)]
pub enum Settlement {
    /// Move the job to the completed or the failed set, with its return value or error text.
    Finish { target: MoveToFinishedTarget, value: String, args: MoveToFinishedArgs },
    /// Move the job to the delayed set.
    Delay { delay_ms: u64 },
    /// Put the job back to run at once.
    Retry { lifo: bool },
}

/// A settlement with its texts as character sequences.
#[verifier::ext_equal]
pub enum SettlementView {
    Finish { target: MoveToFinishedTarget, value: Seq<char>, args: MoveToFinishedArgsView },
    Delay { delay_ms: u64 },
    Retry { lifo: bool },
}

impl View for Settlement {
    type V = SettlementView;

    open spec fn view(&self) -> SettlementView {
        match *self {
            Settlement::Finish { target, value, args } => SettlementView::Finish {
                target,
                value: value@,
                args: args@,
            },
            Settlement::Delay { delay_ms } => SettlementView::Delay { delay_ms },
            Settlement::Retry { lifo } => SettlementView::Retry { lifo },
        }
    }
}

/// How many finished jobs to keep; all of them where the job does not say.
pub open spec fn kept(config: Option<KeepJobsConfig>) -> KeepJobs {
    match config {
        Some(config) => config.meaning(),
        None => KeepJobs { count: KEEP_ALL, age: None },
    }
}

/// How often the job has been attempted once the present attempt is counted.
pub open spec fn attempts_so_far(made: Option<u32>) -> nat {
    match made {
        Some(made) => (made + 1) as nat,
        None => 1,
    }
}

/// The backoff that applies to a job: its own, else the worker's.
pub open spec fn effective_backoff(
    own: Option<BackoffStrategy>,
    default: Option<BackoffStrategy>,
) -> Option<BackoffStrategy> {
    if own is Some {
        own
    } else {
        default
    }
}

/// Recording the end of a job.
pub open spec fn finish(
    task: TaskContextView,
    opts: JobOptions,
    target: MoveToFinishedTarget,
    value: Seq<char>,
) -> SettlementView {
    SettlementView::Finish {
        target,
        value,
        args: MoveToFinishedArgsView {
            token: task.token,
            keep_jobs: kept(
                match target {
                    MoveToFinishedTarget::Completed => opts.remove_on_complete,
                    MoveToFinishedTarget::Failed => opts.remove_on_fail,
                },
            ),
            lock_duration: task.lock_duration,
            max_attempts: opts.attempts,
            max_metrics_size: 100,
            fail_parent_on_fail: false,
            remove_dependency_on_fail: false,
        },
    }
}

/// What is done with a job whose processor failed: it is tried again while attempts remain,
/// after the delay that its backoff asks for, and else it has failed.
pub open spec fn settlement_of_failure(
    task: TaskContextView,
    opts: JobOptions,
    made: Option<u32>,
    error: Seq<char>,
) -> SettlementView {
    let attempts = attempts_so_far(made);
    let delay = retry_delay(effective_backoff(opts.backoff, task.default_backoff), attempts);
    if attempts >= opts.attempts {
        finish(task, opts, MoveToFinishedTarget::Failed, error)
    } else if delay > 0 {
        SettlementView::Delay { delay_ms: delay as u64 }
    } else {
        SettlementView::Retry { lifo: opts.lifo }
    }
}

/// What is recorded of a job whose processor returned: the value's JSON, or a JSON string with
/// the serializer's error.
pub open spec fn settlement_of_success(
    task: TaskContextView,
    opts: JobOptions,
    json: Result<Seq<char>, Seq<char>>,
) -> SettlementView {
    let value = match json {
        Ok(json) => json,
        Err(e) => "\"serialization error: "@ + e + "\""@,
    };
    finish(task, opts, MoveToFinishedTarget::Completed, value)
}

/// What is done with a job after its processor has run.
pub open spec fn settlement(
    task: TaskContextView,
    opts: JobOptions,
    made: Option<u32>,
    outcome: Outcome,
) -> SettlementView {
    match outcome {
        Outcome::Returned(json) => settlement_of_success(
            task,
            opts,
            match json {
                Ok(json) => Ok(json@),
                Err(e) => Err(e@),
            },
        ),
        Outcome::Failed(error) => settlement_of_failure(task, opts, made, error@),
    }
}

/// The event that is announced once a settlement is recorded.
pub open spec fn event_of(settlement: SettlementView) -> JobEvent {
    match settlement {
        SettlementView::Finish { target: MoveToFinishedTarget::Completed, .. } =>
            JobEvent::Completed,
        SettlementView::Finish { target: MoveToFinishedTarget::Failed, .. } => JobEvent::Failed,
        SettlementView::Delay { .. } => JobEvent::Retrying,
        SettlementView::Retry { .. } => JobEvent::Retrying,
    }
}

/// The report of a task that ends.
pub open spec fn report(processed_any: bool) -> TaskEvent {
    if processed_any {
        TaskEvent::Freed
    } else {
        TaskEvent::FreedEmpty
    }
}

fn keep_jobs(config: &Option<KeepJobsConfig>) -> (keep: KeepJobs)
    ensures
        keep == kept(*config),
{
    match config {
        Some(config) => config.to_keep_jobs(),
        None => KeepJobs::default(),
    }
}

impl Fetching {
    /// A task that has not asked for a job yet.
    pub fn new(task: TaskContext) -> (state: Self)
        ensures
            state == (Fetching { task, processed_any: false }),
    {
        Fetching { task, processed_any: false }
    }

    /// What the search for the next job is called with. The script takes the low 32 bits of the
    /// lock duration.
    pub fn request(&self) -> (args: MoveToActiveArgs)
        ensures
            args.token@ == self.task@.token,
            args.lock_duration == self.task.lock_duration % 0x1_0000_0000,
            args.limiter == self.task.limiter,
    {
        let full: u64 = self.task.lock_duration;
        let low: u32 = (full % 0x1_0000_0000) as u32;
        MoveToActiveArgs {
            token: self.task.token.clone(),
            lock_duration: low,
            limiter: self.task.limiter,
        }
    }

    /// Takes what the search found; `None` stands for a search that failed. A job is announced
    /// as active and run; anything else ends the task.
    pub fn fetched<Data>(self, found: Option<MoveToActiveReturn<Data>>) -> (next: AfterFetch<Data>)
        ensures
            match found {
                Some(MoveToActiveReturn::Job(job)) => match next {
                    AfterFetch::Run(state, announce) => {
                        &&& state.task == self.task
                        &&& state.job == job
                        &&& announce@ == announcement(self.task@.prefix, JobEvent::Active, job.id@)
                    },
                    AfterFetch::Stop(_) => false,
                },
                _ => next == AfterFetch::<Data>::Stop(report(self.processed_any)),
            },
    {
        match found {
            Some(MoveToActiveReturn::Job(job)) => {
                let announce = emit_event(
                    self.task.prefix.as_str(),
                    JobEvent::Active,
                    job.id.as_str(),
                );
                AfterFetch::Run(Processing { task: self.task, job }, announce)
            },
            _ => AfterFetch::Stop(
                if self.processed_any {
                    TaskEvent::Freed
                } else {
                    TaskEvent::FreedEmpty
                },
            ),
        }
    }
}

impl<Data> Processing<Data> {
    /// Takes the outcome of running the job and decides how it is recorded.
    pub fn finished(self, outcome: Outcome) -> (r: (Settling, Settlement))
        requires
            outcome is Failed ==> self.job.attempts_made != Some(u32::MAX),
        ensures
            r.1@ == settlement(self.task@, self.job.opts, self.job.attempts_made, outcome),
            r.0.task == self.task,
            r.0.job_id == self.job.id,
            r.0.event == event_of(r.1@),
    {
        let opts = self.job.opts;
        match outcome {
            Outcome::Returned(json) => {
                let value = match json {
                    Ok(json) => json,
                    Err(e) => {
                        let mut text = join("\"serialization error: ", e.as_str());
                        text.append("\"");
                        text
                    },
                };
                let args = finish_args(&self.task, &opts, keep_jobs(&opts.remove_on_complete));
                (
                    Settling { task: self.task, job_id: self.job.id, event: JobEvent::Completed },
                    Settlement::Finish { target: MoveToFinishedTarget::Completed, value, args },
                )
            },
            Outcome::Failed(error) => {
                let made: u32 = match self.job.attempts_made {
                    Some(made) => made,
                    None => 0,
                };
                let attempts_made: u32 = made + 1;
                if should_retry(attempts_made, opts.attempts) {
                    let backoff = match &opts.backoff {
                        Some(own) => Some(own),
                        None => self.task.default_backoff.as_ref(),
                    };
                    let delay: u64 = next_retry_delay(backoff, attempts_made);
                    let settlement = if delay > 0 {
                        Settlement::Delay { delay_ms: delay }
                    } else {
                        Settlement::Retry { lifo: opts.lifo }
                    };
                    (
                        Settling { task: self.task, job_id: self.job.id, event: JobEvent::Retrying },
                        settlement,
                    )
                } else {
                    let args = finish_args(&self.task, &opts, keep_jobs(&opts.remove_on_fail));
                    (
                        Settling { task: self.task, job_id: self.job.id, event: JobEvent::Failed },
                        Settlement::Finish {
                            target: MoveToFinishedTarget::Failed,
                            value: error,
                            args,
                        },
                    )
                }
            },
        }
    }
}

/// The packed argument with which a job is finished.
fn finish_args(task: &TaskContext, opts: &JobOptions, keep_jobs: KeepJobs) -> (args:
    MoveToFinishedArgs)
    ensures
        args@ == (MoveToFinishedArgsView {
            token: task@.token,
            keep_jobs,
            lock_duration: task.lock_duration,
            max_attempts: opts.attempts,
            max_metrics_size: 100,
            fail_parent_on_fail: false,
            remove_dependency_on_fail: false,
        }),
{
    MoveToFinishedArgs {
        token: task.token.clone(),
        keep_jobs,
        lock_duration: task.lock_duration,
        max_attempts: opts.attempts,
        max_metrics_size: 100,
        fail_parent_on_fail: false,
        remove_dependency_on_fail: false,
    }
}

impl Settling {
    /// Takes whether the settlement was recorded, announces it if so, and goes on to the next
    /// job either way.
    pub fn settled(self, recorded: bool) -> (r: (Fetching, Option<Command>))
        ensures
            r.0.task == self.task,
            r.0.processed_any,
            match r.1 {
                Some(announce) => recorded && announce@ == announcement(
                    self.task@.prefix,
                    self.event,
                    self.job_id@,
                ),
                None => !recorded,
            },
    {
        let announce = if recorded {
            Some(emit_event(self.task.prefix.as_str(), self.event, self.job_id.as_str()))
        } else {
            None
        };
        (Fetching { task: self.task, processed_any: true }, announce)
    }
}

/// A failed job is given up exactly when this attempt was its last: while attempts remain it is
/// tried again, and it is never tried again after that.
pub proof fn law_retried_while_attempts_remain(
    task: TaskContextView,
    opts: JobOptions,
    made: Option<u32>,
    error: Seq<char>,
)
    ensures
        ({
            let s = settlement_of_failure(task, opts, made, error);
            &&& s is Finish <==> attempts_so_far(made) >= opts.attempts
            &&& s is Finish ==> event_of(s) == JobEvent::Failed
            &&& s !is Finish ==> event_of(s) == JobEvent::Retrying
        }),
{
}

/// A job that fails every time it runs, each failure being counted, is tried again after the
/// failures 1 up to `attempts - 1`, and given up at failure `attempts`. A job that asks for no
/// attempts still runs once.
pub proof fn law_always_failing_job(
    task: TaskContextView,
    opts: JobOptions,
    failures: u32,
    error: Seq<char>,
)
    requires
        failures >= 1,
    ensures
        ({
            let s = settlement_of_failure(task, opts, Some((failures - 1) as u32), error);
            &&& failures < opts.attempts ==> s !is Finish
            &&& failures >= opts.attempts ==> s == finish(
                task,
                opts,
                MoveToFinishedTarget::Failed,
                error,
            )
        }),
{
}

/// A job's own backoff decides its delay whatever the worker's default is, and the default
/// decides for a job that has none. Without either, or with a delay of 0, the retry is immediate.
pub proof fn law_backoff_precedence(
    task: TaskContextView,
    opts: JobOptions,
    made: Option<u32>,
    error: Seq<char>,
)
    requires
        attempts_so_far(made) < opts.attempts,
    ensures
        ({
            let s = settlement_of_failure(task, opts, made, error);
            let n = attempts_so_far(made);
            &&& opts.backoff matches Some(own) ==> {
                &&& delay_after(own, n) > 0 ==> s == (SettlementView::Delay {
                    delay_ms: delay_after(own, n) as u64,
                })
                &&& delay_after(own, n) <= 0 ==> s == (SettlementView::Retry { lifo: opts.lifo })
            }
            &&& opts.backoff is None && (task.default_backoff matches Some(default) && delay_after(
                default,
                n,
            ) > 0) ==> s == (SettlementView::Delay {
                delay_ms: delay_after(task.default_backoff->0, n) as u64,
            })
            &&& opts.backoff is None && task.default_backoff is None ==> s == (
            SettlementView::Retry { lifo: opts.lifo })
        }),
{
}

/// Of two retries of one job that are both delayed, the later waits at least as long.
pub proof fn law_retry_delays_never_shrink(
    task: TaskContextView,
    opts: JobOptions,
    made: u32,
    made_later: u32,
    error: Seq<char>,
)
    requires
        made <= made_later,
    ensures
        ({
            let first = settlement_of_failure(task, opts, Some(made), error);
            let second = settlement_of_failure(task, opts, Some(made_later), error);
            first is Delay && second is Delay ==> first->delay_ms <= second->delay_ms
        }),
{
    if let Some(strategy) = effective_backoff(opts.backoff, task.default_backoff) {
        law_delay_never_shrinks(
            strategy,
            attempts_so_far(Some(made)),
            attempts_so_far(Some(made_later)),
        );
    }
}

/// A job whose processor returned is completed, whatever its attempts.
pub proof fn law_success_completes(
    task: TaskContextView,
    opts: JobOptions,
    json: Result<Seq<char>, Seq<char>>,
)
    ensures
        event_of(settlement_of_success(task, opts, json)) == JobEvent::Completed,
{
}

/// One round of a task, from one search to the next: the job that was found is announced as
/// active; what is recorded, and announced if that succeeded, is the outcome of that same job;
/// and the task goes on with its context unchanged, having run a job.
pub proof fn law_round<Data>(
    start: Fetching,
    job: Job<Data>,
    processing: Processing<Data>,
    active: Command,
    outcome: Outcome,
    settling: Settling,
    recorded_as: Settlement,
    recorded: bool,
    end: Fetching,
    event: Option<Command>,
)
    requires
        call_ensures(
            Fetching::fetched::<Data>,
            (start, Some(MoveToActiveReturn::Job(job))),
            AfterFetch::Run(processing, active),
        ),
        call_ensures(Processing::<Data>::finished, (processing, outcome), (settling, recorded_as)),
        call_ensures(Settling::settled, (settling, recorded), (end, event)),
    ensures
        active@ == announcement(start.task@.prefix, JobEvent::Active, job.id@),
        recorded_as@ == settlement(start.task@, job.opts, job.attempts_made, outcome),
        event is Some <==> recorded,
        event is Some ==> event->0@ == announcement(
            start.task@.prefix,
            event_of(recorded_as@),
            job.id@,
        ),
        end.task == start.task,
        end.processed_any,
{
}

/// A task that has run a job reports that it did, and one that has not reports that it did not.
pub proof fn law_report<Data>(task: TaskContext, first: Fetching, later: Fetching, report: TaskEvent)
    requires
        call_ensures(Fetching::new, (task,), first),
        later.processed_any,
    ensures
        call_ensures(
            Fetching::fetched::<Data>,
            (first, None::<MoveToActiveReturn<Data>>),
            AfterFetch::Stop(report),
        ) ==> report == TaskEvent::FreedEmpty,
        call_ensures(
            Fetching::fetched::<Data>,
            (later, None::<MoveToActiveReturn<Data>>),
            AfterFetch::Stop(report),
        ) ==> report == TaskEvent::Freed,
{
}

/// A failed attempt is counted: the job is given up exactly if, with this attempt, it has been
/// attempted as often as its options allow, and is tried again otherwise. What is recorded and
/// announced is about that job, with the error as the reason of a failure.
pub proof fn law_failure_counted<Data>(
    p: Processing<Data>,
    error: String,
    r: (Settling, Settlement),
)
    requires
        call_ensures(Processing::<Data>::finished, (p, Outcome::Failed(error)), r),
    ensures
        r.1@ is Finish <==> (match p.job.attempts_made {
            Some(made) => made + 1,
            None => 1,
        }) >= p.job.opts.attempts,
        r.1@ matches SettlementView::Finish { target, value, args } ==> {
            &&& target == MoveToFinishedTarget::Failed
            &&& value == error@
            &&& r.0.event == JobEvent::Failed
        },
        r.1@ !is Finish ==> r.0.event == JobEvent::Retrying,
        r.0.job_id == p.job.id,
        r.0.task == p.task,
{
}

/// A retry waits as long as the backoff says: the job's own, and the worker's only for a job
/// without one. A fixed backoff gives its delay, an exponential one its base, doubled for each
/// earlier attempt, up to its maximum. Where that is nothing, or there is no backoff, the job
/// goes back at once, to the end of the list that it asks for.
pub proof fn law_retry_waits_for_backoff<Data>(
    p: Processing<Data>,
    error: String,
    r: (Settling, Settlement),
    earlier: nat,
)
    requires
        call_ensures(Processing::<Data>::finished, (p, Outcome::Failed(error)), r),
        p.job.attempts_made matches Some(made) ==> made == earlier,
        p.job.attempts_made is None ==> earlier == 0,
        earlier + 1 < p.job.opts.attempts,
    ensures
        ({
            let backoff = match p.job.opts.backoff {
                Some(own) => Some(own),
                None => p.task.default_backoff,
            };
            let at_once = SettlementView::Retry { lifo: p.job.opts.lifo };
            match backoff {
                None => r.1@ == at_once,
                Some(BackoffStrategy::Fixed(ms)) => if ms == 0 {
                    r.1@ == at_once
                } else {
                    r.1@ == (SettlementView::Delay { delay_ms: ms })
                },
                Some(BackoffStrategy::Exponential { base, max }) => {
                    let doubled = base * pow2(earlier);
                    if doubled == 0 || max == 0 {
                        r.1@ == at_once
                    } else {
                        &&& r.1@ is Delay
                        &&& doubled <= max ==> r.1@->delay_ms == doubled
                        &&& doubled > max ==> r.1@->delay_ms == max
                    }
                },
            }
        }),
{
    if let Some(BackoffStrategy::Exponential { base, max }) = effective_backoff(
        p.job.opts.backoff,
        p.task.default_backoff,
    ) {
        let doubled = base * pow2(earlier);
        assert(doubled >= 0) by (nonlinear_arith)
            requires
                doubled == base * pow2(earlier),
        ;
    }
}

/// How many failed jobs are kept is what the job's `remove_on_fail` says, and nothing else: all
/// of them where it says nothing, whatever `remove_on_complete` says.
pub proof fn law_failed_jobs_kept<Data>(
    p: Processing<Data>,
    error: String,
    r: (Settling, Settlement),
)
    requires
        call_ensures(Processing::<Data>::finished, (p, Outcome::Failed(error)), r),
        r.1@ is Finish,
    ensures
        ({
            let keep = r.1@->args.keep_jobs;
            match p.job.opts.remove_on_fail {
                None => keep.count == -1 && keep.age is None,
                Some(KeepJobsConfig::Bool(true)) => keep.count == 0 && keep.age is None,
                Some(KeepJobsConfig::Bool(false)) => keep.count == -1 && keep.age is None,
                Some(KeepJobsConfig::Count(n)) => keep.count == n && keep.age is None,
                Some(KeepJobsConfig::Spec { age, count }) => {
                    &&& keep.age == age
                    &&& count is None ==> keep.count == -1
                    &&& count matches Some(n) ==> keep.count == n
                },
            }
        }),
{
}

/// How many completed jobs are kept is what the job's `remove_on_complete` says, and nothing
/// else: all of them where it says nothing, whatever `remove_on_fail` says.
pub proof fn law_completed_jobs_kept<Data>(
    p: Processing<Data>,
    json: Result<String, String>,
    r: (Settling, Settlement),
)
    requires
        call_ensures(Processing::<Data>::finished, (p, Outcome::Returned(json)), r),
    ensures
        r.1@ is Finish,
        ({
            let keep = r.1@->args.keep_jobs;
            match p.job.opts.remove_on_complete {
                None => keep.count == -1 && keep.age is None,
                Some(KeepJobsConfig::Bool(true)) => keep.count == 0 && keep.age is None,
                Some(KeepJobsConfig::Bool(false)) => keep.count == -1 && keep.age is None,
                Some(KeepJobsConfig::Count(n)) => keep.count == n && keep.age is None,
                Some(KeepJobsConfig::Spec { age, count }) => {
                    &&& keep.age == age
                    &&& count is None ==> keep.count == -1
                    &&& count matches Some(n) ==> keep.count == n
                },
            }
        }),
{
}

/// Two failures that are given up, of whatever jobs, keep the same failed jobs if the jobs agree
/// in `remove_on_fail`; two completions do if they agree in `remove_on_complete`.
pub proof fn law_kept_jobs_depend_on_own_option<Data>(
    p: Processing<Data>,
    q: Processing<Data>,
    a: Outcome,
    b: Outcome,
    r: (Settling, Settlement),
    s: (Settling, Settlement),
)
    requires
        call_ensures(Processing::<Data>::finished, (p, a), r),
        call_ensures(Processing::<Data>::finished, (q, b), s),
        r.1@ is Finish,
        s.1@ is Finish,
    ensures
        a is Failed && b is Failed && p.job.opts.remove_on_fail == q.job.opts.remove_on_fail ==> (
        r.1@->args).keep_jobs == (s.1@->args).keep_jobs,
        a is Returned && b is Returned && p.job.opts.remove_on_complete
            == q.job.opts.remove_on_complete ==> (r.1@->args).keep_jobs == (
        s.1@->args).keep_jobs,
{
}

/// A job whose processor returned is completed with the JSON of what it returned, however often
/// it was attempted; where that has no JSON, the value is a JSON string that holds the reason.
pub proof fn law_success_recorded<Data>(
    p: Processing<Data>,
    json: Result<String, String>,
    r: (Settling, Settlement),
)
    requires
        call_ensures(Processing::<Data>::finished, (p, Outcome::Returned(json)), r),
    ensures
        r.1@ matches SettlementView::Finish { target, value, args } && {
            &&& target == MoveToFinishedTarget::Completed
            &&& json matches Ok(text) ==> value == text@
            &&& json matches Err(reason) ==> value == "\"serialization error: "@ + reason@ + "\""@
        },
        r.0.event == JobEvent::Completed,
        r.0.job_id == p.job.id,
        r.0.task == p.task,
{
}

/// The end of a job is recorded under the task's own token and lock duration, with the attempts
/// that the job allows, and with the same settings whether it completed or failed.
pub proof fn law_end_recorded_under_own_token<Data>(
    p: Processing<Data>,
    outcome: Outcome,
    r: (Settling, Settlement),
)
    requires
        call_ensures(Processing::<Data>::finished, (p, outcome), r),
        r.1@ is Finish,
    ensures
        ({
            let args = r.1@->args;
            &&& args.token == p.task@.token
            &&& args.lock_duration == p.task.lock_duration
            &&& args.max_attempts == p.job.opts.attempts
            &&& args.max_metrics_size == 100
            &&& !args.fail_parent_on_fail
            &&& !args.remove_dependency_on_fail
        }),
{
}

/// The next job is asked for under the task's own token and limit, and with its lock duration, of
/// which the low 32 bits are taken: all of it wherever that fits.
pub proof fn law_request_carries_settings(state: Fetching, args: MoveToActiveArgs)
    requires
        call_ensures(Fetching::request, (&state,), args),
    ensures
        args.token@ == state.task.token@,
        args.limiter == state.task.limiter,
        state.task.lock_duration <= u32::MAX ==> args.lock_duration == state.task.lock_duration,
        (state.task.lock_duration - args.lock_duration) % 0x1_0000_0000 == 0,
{
}

/// A job that was found is run, whatever it is and whatever ran before; anything else that a
/// search can give ends the task, which reports whether it has run a job.
pub proof fn law_found_job_is_run<Data>(
    state: Fetching,
    found: Option<MoveToActiveReturn<Data>>,
    next: AfterFetch<Data>,
)
    requires
        call_ensures(Fetching::fetched::<Data>, (state, found), next),
    ensures
        found matches Some(MoveToActiveReturn::Job(job)) ==> (next matches AfterFetch::Run(
            p,
            _,
        ) && p.job == job && p.task == state.task),
        !(found matches Some(MoveToActiveReturn::Job(_))) ==> next == AfterFetch::<Data>::Stop(
            if state.processed_any {
                TaskEvent::Freed
            } else {
                TaskEvent::FreedEmpty
            },
        ),
{
}

} // verus!
