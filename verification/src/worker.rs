//! A worker: its settings and its main loop.
//!
//! The loop waits for tasks to end, for work to arrive, and starts tasks. All waiting is done
//! outside: [`Worker::step`] takes what happened and says what to do next.

use vstd::prelude::*;
use crate::kernel::backoff::BackoffStrategy;
use crate::processor::{Fetching, FetchingView, TaskContext, TaskContextView, TaskEvent};
use crate::queue_keys::{prefix_of, queue_prefix};
use crate::scripts::move_to_active::Limiter;
use crate::text::{decimal, decimal_text, join, lemma_decimal_digits, number};

verus! {

/// How long a job's lock lasts unless the worker says otherwise, in milliseconds.
pub const DEFAULT_LOCK_DURATION: u64 = 30_000;

/// Makes the tokens of a worker's tasks: a random part that is the worker's own, and a counter.
#[derive(Debug)]
pub struct WorkerToken {
    pub token: String,
    pub postfix: u64,
}

/// Whether a character is a hexadecimal digit in lower case.
pub open spec fn is_lower_hex(c: char) -> bool {
    '0' <= c <= '9' || 'a' <= c <= 'f'
}

/// Whether a text has the form of a random UUID: groups of 8, 4, 4, 4 and 12 hexadecimal digits
/// between hyphens, the third starting with the version 4 and the fourth with the variant.
pub open spec fn is_uuid_v4(s: Seq<char>) -> bool {
    &&& s.len() == 36
    &&& forall|i: int|
        0 <= i < 36 ==> if i == 8 || i == 13 || i == 18 || i == 23 {
            #[trigger] s[i] == '-'
        } else {
            is_lower_hex(s[i])
        }
    &&& s[14] == '4'
    &&& s[19] == '8' || s[19] == '9' || s[19] == 'a' || s[19] == 'b'
}

/// `uuid::Uuid::new_v4` makes a random UUID and its `to_string` writes it in hyphenated lower
/// case. Nothing is claimed of the random digits.
#[verifier::external_body]
fn random_uuid() -> (s: String)
    ensures
        is_uuid_v4(s@),
{
    uuid::Uuid::new_v4().to_string()
}

/// The token with the given counter.
pub open spec fn token_text(token: Seq<char>, postfix: nat) -> Seq<char> {
    token + ":"@ + decimal(postfix)
}

impl WorkerToken {
    pub fn new() -> (t: Self)
        ensures
            is_uuid_v4(t.token@),
            t.postfix == 0,
    {
        WorkerToken { token: random_uuid(), postfix: 0 }
    }

    /// The next token.
    pub fn next(&mut self) -> (text: String)
        requires
            old(self).postfix < u64::MAX,
        ensures
            final(self).token == old(self).token,
            final(self).postfix == old(self).postfix + 1,
            text@ == token_text(old(self).token@, (old(self).postfix + 1) as nat),
    {
        self.postfix = self.postfix + 1;
        let mut text = join(self.token.as_str(), ":");
        text.append(decimal_text(self.postfix).as_str());
        text
    }
}

/// The tokens of one worker are all different.
pub proof fn law_tokens_distinct(token: Seq<char>, a: nat, b: nat)
    requires
        token_text(token, a) == token_text(token, b),
    ensures
        a == b,
{
    let (s, t) = (token_text(token, a), token_text(token, b));
    let n = token.len() + ":"@.len();
    assert(decimal(a) =~= s.skip(n as int));
    assert(decimal(b) =~= t.skip(n as int));
    crate::text::law_decimal_injective(a, b);
}

/// Where the main loop stands.
#[derive(Debug, Clone, Copy, PartialEq, Eq, Structural)]
pub enum Phase {
    /// At the top of the loop.
    Top,
    /// Waiting for a task to end, because as many are running as may.
    Full,
    /// Waiting for the marker, because there was no job the last time.
    Idle,
    /// Shutting down, waiting for the running tasks to end.
    Draining,
    /// Shut down.
    Finished,
}

/// What happened while the loop was waiting.
#[derive(Debug, Clone, Copy, PartialEq, Eq, Structural)]
pub enum RunEvent {
    /// Nothing: the loop goes on.
    Tick,
    /// A task has ended with this report.
    Task(TaskEvent),
    /// No task can report any more.
    Closed,
    /// The wait for the marker is over; `true` if the marker was there.
    Marker(bool),
}

/// What to do next.
#[derive(Debug)]
pub enum RunAction {
    /// Wait for a task to report, then step with `Task` or `Closed`.
    Receive,
    /// Wait for the marker, for a limited time, then step with `Marker`.
    WaitMarker,
    /// Start a task, then step with `Tick`.
    Start(Fetching),
    /// The worker has shut down.
    Finish,
}

/// An action, with a started task as a view.
#[verifier::ext_equal]
pub enum RunActionView {
    Receive,
    WaitMarker,
    Start(FetchingView),
    Finish,
}

impl View for RunAction {
    type V = RunActionView;

    open spec fn view(&self) -> RunActionView {
        match *self {
            RunAction::Receive => RunActionView::Receive,
            RunAction::WaitMarker => RunActionView::WaitMarker,
            RunAction::Start(state) => RunActionView::Start(state@),
            RunAction::Finish => RunActionView::Finish,
        }
    }
}

/// The settings of a worker and the state of its main loop.
#[derive(Debug)]
pub struct Worker {
    prefix: String,
    concurrency: usize,
    active_tasks: usize,
    token: WorkerToken,
    drained: bool,
    lock_duration: u64,
    default_backoff: Option<BackoffStrategy>,
    limiter: Option<Limiter>,
    phase: Phase,
}

/// A worker with its texts as character sequences.
#[verifier::ext_equal]
pub struct WorkerView {
    pub prefix: Seq<char>,
    pub concurrency: nat,
    pub active_tasks: nat,
    pub token: Seq<char>,
    pub postfix: nat,
    pub drained: bool,
    pub lock_duration: u64,
    pub default_backoff: Option<BackoffStrategy>,
    pub limiter: Option<Limiter>,
    pub phase: Phase,
}

impl View for Worker {
    type V = WorkerView;

    closed spec fn view(&self) -> WorkerView {
        WorkerView {
            prefix: self.prefix@,
            concurrency: self.concurrency as nat,
            active_tasks: self.active_tasks as nat,
            token: self.token.token@,
            postfix: self.token.postfix as nat,
            drained: self.drained,
            lock_duration: self.lock_duration,
            default_backoff: self.default_backoff,
            limiter: self.limiter,
            phase: self.phase,
        }
    }
}

impl WorkerView {
    /// At least one task may run, and a worker that waits for a task has one.
    pub open spec fn wf(self) -> bool {
        &&& self.concurrency > 0
        &&& self.phase == Phase::Full || self.phase == Phase::Draining ==> self.active_tasks > 0
        &&& self.phase == Phase::Idle ==> self.drained
    }

    /// No more tasks than the worker's concurrency allows, and one fewer while it waits for work.
    pub open spec fn within_limit(self) -> bool {
        &&& self.active_tasks <= self.concurrency
        &&& self.phase == Phase::Idle ==> self.active_tasks < self.concurrency
    }

    /// Whether an event can come in the present phase.
    pub open spec fn expects(self, event: RunEvent) -> bool {
        match self.phase {
            Phase::Top => event is Tick,
            Phase::Full | Phase::Draining => event is Task || event is Closed,
            Phase::Idle => event is Marker,
            Phase::Finished => false,
        }
    }

    /// The next task, with a token of its own and the worker's settings.
    pub open spec fn next_task(self) -> FetchingView {
        FetchingView {
            task: TaskContextView {
                prefix: self.prefix,
                token: token_text(self.token, self.postfix + 1),
                lock_duration: self.lock_duration,
                default_backoff: self.default_backoff,
                limiter: self.limiter,
            },
            processed_any: false,
        }
    }

    /// Starting one more task.
    pub open spec fn started(self) -> (WorkerView, RunActionView) {
        (
            WorkerView {
                active_tasks: self.active_tasks + 1,
                postfix: self.postfix + 1,
                phase: Phase::Top,
                ..self
            },
            RunActionView::Start(self.next_task()),
        )
    }

    /// A free slot: start a task, or wait for the marker if there was no job the last time.
    pub open spec fn slot_free(self) -> (WorkerView, RunActionView) {
        if self.drained {
            (WorkerView { phase: Phase::Idle, ..self }, RunActionView::WaitMarker)
        } else {
            self.started()
        }
    }

    /// The loop without a request to shut down: wait for a slot if there is none.
    pub open spec fn looked_for_slot(self) -> (WorkerView, RunActionView) {
        if self.active_tasks >= self.concurrency {
            (WorkerView { phase: Phase::Full, ..self }, RunActionView::Receive)
        } else {
            self.slot_free()
        }
    }

    /// Shutting down: wait for the running tasks.
    pub open spec fn drained_down(self) -> (WorkerView, RunActionView) {
        if self.active_tasks == 0 {
            (WorkerView { phase: Phase::Finished, ..self }, RunActionView::Finish)
        } else {
            (WorkerView { phase: Phase::Draining, ..self }, RunActionView::Receive)
        }
    }

    /// One task fewer. A task that found no job tells the loop to wait for the marker, unless
    /// the worker is shutting down.
    pub open spec fn freed(self, event: TaskEvent) -> WorkerView {
        WorkerView {
            active_tasks: (self.active_tasks - 1) as nat,
            drained: self.drained || (event == TaskEvent::FreedEmpty && self.phase == Phase::Full),
            ..self
        }
    }

    /// The main loop, from one wait to the next.
    pub open spec fn next(self, event: RunEvent, shutdown: bool) -> (WorkerView, RunActionView) {
        if self.phase == Phase::Draining {
            match event {
                RunEvent::Task(report) => self.freed(report).drained_down(),
                _ => (WorkerView { phase: Phase::Finished, ..self }, RunActionView::Finish),
            }
        } else {
            match event {
                RunEvent::Tick => if shutdown {
                    self.drained_down()
                } else {
                    self.looked_for_slot()
                },
                RunEvent::Task(report) => if shutdown {
                    self.freed(report).drained_down()
                } else {
                    self.freed(report).looked_for_slot()
                },
                RunEvent::Closed => if shutdown {
                    self.drained_down()
                } else {
                    self.slot_free()
                },
                RunEvent::Marker(there) => if shutdown {
                    self.drained_down()
                } else if there {
                    (WorkerView { drained: false, ..self }).started()
                } else {
                    self.looked_for_slot()
                },
            }
        }
    }
}

impl Worker {
    /// A worker of the given queue that runs up to `concurrency` tasks at a time.
    pub fn new(queue_name: &str, concurrency: usize) -> (worker: Worker)
        requires
            concurrency > 0,
        ensures
            worker@ == (WorkerView {
                prefix: queue_prefix(queue_name@),
                concurrency: concurrency as nat,
                active_tasks: 0,
                token: worker@.token,
                postfix: 0,
                drained: false,
                lock_duration: DEFAULT_LOCK_DURATION,
                default_backoff: None,
                limiter: None,
                phase: Phase::Top,
            }),
            is_uuid_v4(worker@.token),
            worker@.wf(),
    {
        Worker {
            prefix: prefix_of(queue_name),
            concurrency,
            active_tasks: 0,
            token: WorkerToken::new(),
            drained: false,
            lock_duration: DEFAULT_LOCK_DURATION,
            default_backoff: None,
            limiter: None,
            phase: Phase::Top,
        }
    }

    /// Takes at most `max` jobs in `duration` milliseconds.
    pub fn with_limiter(self, max: u32, duration: u64) -> (worker: Worker)
        ensures
            worker@ == (WorkerView { limiter: Some(Limiter { max, duration }), ..self@ }),
    {
        Worker { limiter: Some(Limiter { max, duration }), ..self }
    }

    /// Locks jobs for this many milliseconds.
    pub fn with_lock_duration(self, lock_duration: u64) -> (worker: Worker)
        ensures
            worker@ == (WorkerView { lock_duration, ..self@ }),
    {
        Worker { lock_duration, ..self }
    }

    /// The backoff for jobs that have none of their own.
    pub fn with_backoff(self, strategy: BackoffStrategy) -> (worker: Worker)
        ensures
            worker@ == (WorkerView { default_backoff: Some(strategy), ..self@ }),
    {
        Worker { default_backoff: Some(strategy), ..self }
    }

    /// The lock duration in milliseconds.
    pub fn lock_duration(&self) -> (ms: u64)
        ensures
            ms == self@.lock_duration,
    {
        self.lock_duration
    }

    /// A key of the worker's queue.
    pub fn get_prefixed_key(&self, key: &str) -> (prefixed: String)
        ensures
            prefixed@ == self@.prefix + key@,
    {
        join(self.prefix.as_str(), key)
    }

    /// Goes to the top of the loop, to run for the first time or once more. Tasks that are still
    /// running keep counting.
    pub fn begin(&mut self)
        ensures
            final(self)@ == (WorkerView { phase: Phase::Top, ..old(self)@ }),
            old(self)@.wf() ==> final(self)@.wf(),
    {
        self.phase = Phase::Top;
    }

    /// Whether the loop can take this event now: it fits the phase, and the counters have room.
    pub fn can_step(&self, event: &RunEvent) -> (can: bool)
        ensures
            can == (self@.expects(*event) && self@.postfix < u64::MAX && self@.active_tasks
                < usize::MAX),
    {
        let expected = match self.phase {
            Phase::Top => matches!(event, RunEvent::Tick),
            Phase::Full | Phase::Draining => matches!(event, RunEvent::Task(_))
                || matches!(event, RunEvent::Closed),
            Phase::Idle => matches!(event, RunEvent::Marker(_)),
            Phase::Finished => false,
        };
        expected && self.token.postfix < u64::MAX && self.active_tasks < usize::MAX
    }

    /// A task with the next token.
    fn start_processor_task(&mut self) -> (action: RunAction)
        requires
            old(self)@.postfix < u64::MAX,
            old(self)@.active_tasks < usize::MAX,
        ensures
            (final(self)@, action@) == old(self)@.started(),
    {
        self.active_tasks = self.active_tasks + 1;
        self.phase = Phase::Top;
        let token = self.token.next();
        RunAction::Start(
            Fetching::new(
                TaskContext {
                    prefix: self.prefix.clone(),
                    token,
                    lock_duration: self.lock_duration,
                    default_backoff: self.default_backoff,
                    limiter: self.limiter,
                },
            ),
        )
    }

    fn use_slot(&mut self) -> (action: RunAction)
        requires
            old(self)@.postfix < u64::MAX,
            old(self)@.active_tasks < usize::MAX,
        ensures
            (final(self)@, action@) == old(self)@.slot_free(),
    {
        if self.drained {
            self.phase = Phase::Idle;
            RunAction::WaitMarker
        } else {
            self.start_processor_task()
        }
    }

    fn look_for_slot(&mut self) -> (action: RunAction)
        requires
            old(self)@.postfix < u64::MAX,
        ensures
            (final(self)@, action@) == old(self)@.looked_for_slot(),
    {
        if self.active_tasks >= self.concurrency {
            self.phase = Phase::Full;
            RunAction::Receive
        } else {
            self.use_slot()
        }
    }

    fn drain(&mut self) -> (action: RunAction)
        ensures
            (final(self)@, action@) == old(self)@.drained_down(),
    {
        if self.active_tasks == 0 {
            self.phase = Phase::Finished;
            RunAction::Finish
        } else {
            self.phase = Phase::Draining;
            RunAction::Receive
        }
    }

    /// One step of the main loop: takes what happened and whether a shutdown was requested, and
    /// says what to do next.
    pub fn step(&mut self, event: RunEvent, shutdown: bool) -> (action: RunAction)
        requires
            old(self)@.wf(),
            old(self)@.expects(event),
            old(self)@.postfix < u64::MAX,
            old(self)@.active_tasks < usize::MAX,
        ensures
            (final(self)@, action@) == old(self)@.next(event, shutdown),
            final(self)@.wf(),
            // No task is started once a shutdown is requested, or before the marker comes to a
            // worker that found no job.
            action is Start ==> !shutdown && (old(self)@.drained ==> event == RunEvent::Marker(
                true,
            )),
            // The concurrency is respected, and the worker finishes when its tasks have ended.
            !(event is Closed) && old(self)@.within_limit() ==> final(self)@.within_limit(),
            !(event is Closed) && action is Finish ==> final(self)@.active_tasks == 0,
            // The concurrency is used: the worker waits for a task to end only when as many are
            // running as may, or when it is shutting down, and with work to do it starts a task.
            !shutdown && old(self)@.phase != Phase::Draining && action is Receive
                ==> final(self)@.active_tasks >= final(self)@.concurrency,
            !shutdown && event is Tick && !old(self)@.drained && old(self)@.active_tasks
                < old(self)@.concurrency ==> action is Start,
    {
        match event {
            RunEvent::Tick => if shutdown {
                self.drain()
            } else {
                self.look_for_slot()
            },
            RunEvent::Task(report) => {
                self.active_tasks = self.active_tasks - 1;
                if self.phase == Phase::Draining {
                    return self.drain();
                }
                if report == TaskEvent::FreedEmpty {
                    self.drained = true;
                }
                if shutdown {
                    self.drain()
                } else {
                    self.look_for_slot()
                }
            },
            RunEvent::Closed => {
                if self.phase == Phase::Draining {
                    self.phase = Phase::Finished;
                    return RunAction::Finish;
                }
                if shutdown {
                    self.drain()
                } else {
                    self.use_slot()
                }
            },
            RunEvent::Marker(there) => if shutdown {
                self.drain()
            } else if there {
                self.drained = false;
                self.start_processor_task()
            } else {
                self.look_for_slot()
            },
        }
    }
}

// What holds of every run of the main loop. A run is the list of what happened, step by step:
// the event, and whether a shutdown was requested at that moment.

/// The worker after a run.
pub open spec fn after(w: WorkerView, run: Seq<(RunEvent, bool)>) -> WorkerView
    decreases run.len(),
{
    if run.len() == 0 {
        w
    } else {
        after(w, run.drop_last()).next(run.last().0, run.last().1).0
    }
}

/// What the worker does at the last step of a run.
pub open spec fn last_action(w: WorkerView, run: Seq<(RunEvent, bool)>) -> RunActionView {
    after(w, run.drop_last()).next(run.last().0, run.last().1).1
}

/// Whether every event of a run comes when it can.
pub open spec fn possible(w: WorkerView, run: Seq<(RunEvent, bool)>) -> bool
    decreases run.len(),
{
    run.len() > 0 ==> possible(w, run.drop_last()) && after(w, run.drop_last()).expects(
        run.last().0,
    )
}

/// How many tasks are started in a run.
pub open spec fn starts(w: WorkerView, run: Seq<(RunEvent, bool)>) -> nat
    decreases run.len(),
{
    if run.len() == 0 {
        0
    } else {
        starts(w, run.drop_last()) + if last_action(w, run) is Start {
            1nat
        } else {
            0nat
        }
    }
}

/// How many tasks end in a run.
pub open spec fn ends(run: Seq<(RunEvent, bool)>) -> nat
    decreases run.len(),
{
    if run.len() == 0 {
        0
    } else {
        ends(run.drop_last()) + if run.last().0 is Task {
            1nat
        } else {
            0nat
        }
    }
}

/// Whether tasks can report throughout a run.
pub open spec fn never_closed(run: Seq<(RunEvent, bool)>) -> bool {
    forall|i: int| 0 <= i < run.len() ==> !((#[trigger] run[i]).0 is Closed)
}

/// A run keeps a worker well-formed, the active tasks are those that were started and have not
/// ended, and every started task has used up one token.
pub proof fn law_active_tasks_counted(w: WorkerView, run: Seq<(RunEvent, bool)>)
    requires
        w.wf(),
        possible(w, run),
    ensures
        after(w, run).wf(),
        after(w, run).active_tasks == w.active_tasks + starts(w, run) - ends(run),
        after(w, run).postfix == w.postfix + starts(w, run),
    decreases run.len(),
{
    if run.len() > 0 {
        law_active_tasks_counted(w, run.drop_last());
    }
}

/// There are never more tasks than the worker's concurrency allows.
pub proof fn law_concurrency_respected(w: WorkerView, run: Seq<(RunEvent, bool)>)
    requires
        w.wf(),
        w.within_limit(),
        possible(w, run),
        never_closed(run),
    ensures
        after(w, run).within_limit(),
        after(w, run).active_tasks <= w.concurrency,
        after(w, run).concurrency == w.concurrency,
    decreases run.len(),
{
    if run.len() > 0 {
        let init = run.drop_last();
        assert forall|i: int| 0 <= i < init.len() implies !((#[trigger] init[i]).0 is Closed) by {
            assert(init[i] == run[i]);
        }
        law_concurrency_respected(w, init);
        law_active_tasks_counted(w, init);
        assert(!(run[run.len() - 1].0 is Closed));
    }
}

/// Once a shutdown is requested, no further task is started.
pub proof fn law_no_start_after_shutdown(w: WorkerView, run: Seq<(RunEvent, bool)>, from: int)
    requires
        0 <= from <= run.len(),
        forall|i: int| from <= i < run.len() ==> (#[trigger] run[i]).1,
        possible(w, run),
    ensures
        starts(w, run) == starts(w, run.take(from)),
    decreases run.len(),
{
    if from == run.len() {
        assert(run.take(from) =~= run);
    } else {
        let init = run.drop_last();
        assert forall|i: int| from <= i < init.len() implies (#[trigger] init[i]).1 by {
            assert(init[i] == run[i]);
        }
        law_no_start_after_shutdown(w, init, from);
        assert(init.take(from) =~= run.take(from));
        assert(run[run.len() - 1].1);
    }
}

/// The worker shuts down only after every task that it started has ended.
pub proof fn law_shutdown_waits_for_tasks(w: WorkerView, run: Seq<(RunEvent, bool)>)
    requires
        w.wf(),
        w.phase != Phase::Finished,
        possible(w, run),
        never_closed(run),
        after(w, run).phase == Phase::Finished,
    ensures
        after(w, run).active_tasks == 0,
        w.active_tasks + starts(w, run) == ends(run),
{
    law_active_tasks_counted(w, run);
    law_active_tasks_counted(w, run.drop_last());
    assert(!(run[run.len() - 1].0 is Closed));
}

/// A worker that shuts down with some tasks running has finished as soon as that many have
/// ended, whatever they report.
pub proof fn law_drain_ends(w: WorkerView, run: Seq<(RunEvent, bool)>)
    requires
        w.wf(),
        w.phase == Phase::Draining,
        run.len() == w.active_tasks,
        forall|i: int| 0 <= i < run.len() ==> (#[trigger] run[i]).0 is Task,
    ensures
        possible(w, run),
        after(w, run).phase == Phase::Finished,
        last_action(w, run) is Finish,
{
    lemma_draining(w, run.drop_last());
    assert(run[run.len() - 1].0 is Task);
}

/// While fewer tasks have ended than were running, the worker is still draining.
proof fn lemma_draining(w: WorkerView, run: Seq<(RunEvent, bool)>)
    requires
        w.wf(),
        w.phase == Phase::Draining,
        run.len() < w.active_tasks,
        forall|i: int| 0 <= i <= run.len() - 1 ==> (#[trigger] run[i]).0 is Task,
    ensures
        possible(w, run),
        after(w, run).phase == Phase::Draining,
        after(w, run).active_tasks == w.active_tasks - run.len(),
    decreases run.len(),
{
    if run.len() > 0 {
        let init = run.drop_last();
        assert forall|i: int| 0 <= i <= init.len() - 1 implies (#[trigger] init[i]).0 is Task by {
            assert(init[i] == run[i]);
        }
        lemma_draining(w, init);
        assert(run[run.len() - 1].0 is Task);
    }
}

/// A run is its first step and then the others.
proof fn lemma_first_step(w: WorkerView, first: (RunEvent, bool), run: Seq<(RunEvent, bool)>)
    ensures
        after(w, seq![first] + run) == after(w.next(first.0, first.1).0, run),
        possible(w, seq![first] + run) <==> w.expects(first.0) && possible(
            w.next(first.0, first.1).0,
            run,
        ),
    decreases run.len(),
{
    let whole = seq![first] + run;
    reveal_with_fuel(after, 2);
    reveal_with_fuel(possible, 2);
    if run.len() == 0 {
        assert(whole.drop_last() =~= Seq::empty());
        assert(whole.last() == first);
    } else {
        assert(whole.drop_last() =~= seq![first] + run.drop_last());
        assert(whole.last() == run.last());
        lemma_first_step(w, first, run.drop_last());
    }
}

/// A worker that is asked to shut down at the top of its loop starts no task any more, and has
/// finished as soon as those that are running have ended. Without any it finishes at once.
pub proof fn law_shutdown_ends_run(w: WorkerView, reports: Seq<(RunEvent, bool)>)
    requires
        w.wf(),
        w.phase == Phase::Top,
        reports.len() == w.active_tasks,
        forall|i: int|
            0 <= i < reports.len() ==> (#[trigger] reports[i]).0 is Task && reports[i].1,
    ensures
        ({
            let run = seq![(RunEvent::Tick, true)] + reports;
            &&& possible(w, run)
            &&& after(w, run).phase == Phase::Finished
            &&& after(w, run).active_tasks == 0
            &&& starts(w, run) == 0
        }),
{
    let first = (RunEvent::Tick, true);
    let run = seq![first] + reports;
    let next = w.next(first.0, first.1).0;
    lemma_first_step(w, first, reports);
    if w.active_tasks == 0 {
        assert(reports =~= Seq::empty());
    } else {
        law_drain_ends(next, reports);
        law_active_tasks_counted(next, reports);
        lemma_only_ends(next, reports);
    }
    assert forall|i: int| 0 <= i < run.len() implies (#[trigger] run[i]).1 by {
        if i > 0 {
            assert(run[i] == reports[i - 1]);
        }
    }
    law_no_start_after_shutdown(w, run, 0);
    assert(run.take(0) =~= Seq::empty());
}

/// In a run of nothing but reports under shutdown, each step is one end and no start.
proof fn lemma_only_ends(w: WorkerView, reports: Seq<(RunEvent, bool)>)
    requires
        possible(w, reports),
        forall|i: int|
            0 <= i < reports.len() ==> (#[trigger] reports[i]).0 is Task && reports[i].1,
    ensures
        ends(reports) == reports.len(),
        starts(w, reports) == 0,
    decreases reports.len(),
{
    if reports.len() > 0 {
        let init = reports.drop_last();
        assert forall|i: int| 0 <= i < init.len() implies (#[trigger] init[i]).0 is Task
            && init[i].1 by {
            assert(init[i] == reports[i]);
        }
        lemma_only_ends(w, init);
        assert(reports[reports.len() - 1].0 is Task);
        assert(reports[reports.len() - 1].1);
    }
}

/// A shutdown that is requested at any moment ends the run: from then on no task is started, and
/// the run has no more steps than tasks are running, and one. After that many the worker has
/// finished.
pub proof fn law_shutdown_bounds_run(w: WorkerView, run: Seq<(RunEvent, bool)>)
    requires
        w.wf(),
        w.phase != Phase::Finished,
        possible(w, run),
        forall|i: int| 0 <= i < run.len() ==> (#[trigger] run[i]).1,
    ensures
        starts(w, run) == 0,
        run.len() <= w.active_tasks + 1,
        run.len() == w.active_tasks + 1 ==> after(w, run).phase == Phase::Finished,
        after(w, run).phase == Phase::Finished && never_closed(run) ==> after(w, run).active_tasks
            == 0 && ends(run) == w.active_tasks,
{
    lemma_under_shutdown(w, run);
    law_no_start_after_shutdown(w, run, 0);
    assert(run.take(0) =~= Seq::empty());
    if after(w, run).phase == Phase::Finished && never_closed(run) {
        law_shutdown_waits_for_tasks(w, run);
    }
}

/// Under shutdown the first step leads to draining, and each further one is the end of a task.
proof fn lemma_under_shutdown(w: WorkerView, run: Seq<(RunEvent, bool)>)
    requires
        w.wf(),
        w.phase != Phase::Finished,
        possible(w, run),
        forall|i: int| 0 <= i < run.len() ==> (#[trigger] run[i]).1,
    ensures
        after(w, run).wf(),
        run.len() > 0 && after(w, run).phase != Phase::Finished ==> {
            &&& after(w, run).phase == Phase::Draining
            &&& after(w, run).active_tasks + run.len() <= w.active_tasks + 1
        },
        run.len() <= w.active_tasks + 1,
    decreases run.len(),
{
    law_active_tasks_counted(w, run);
    if run.len() > 0 {
        let init = run.drop_last();
        assert forall|i: int| 0 <= i < init.len() implies (#[trigger] init[i]).1 by {
            assert(init[i] == run[i]);
        }
        lemma_under_shutdown(w, init);
        assert(run[run.len() - 1].1);
    }
}

/// After a task found no job, no task is started in a run in which the marker does not come.
pub proof fn law_no_start_without_marker(w: WorkerView, run: Seq<(RunEvent, bool)>)
    requires
        w.wf(),
        w.drained,
        possible(w, run),
        forall|i: int| 0 <= i < run.len() ==> (#[trigger] run[i]).0 != RunEvent::Marker(true),
    ensures
        starts(w, run) == 0,
        after(w, run).drained,
    decreases run.len(),
{
    if run.len() > 0 {
        let init = run.drop_last();
        assert forall|i: int| 0 <= i < init.len() implies (#[trigger] init[i]).0
            != RunEvent::Marker(true) by {
            assert(init[i] == run[i]);
        }
        law_no_start_without_marker(w, init);
        law_active_tasks_counted(w, init);
        assert(run[run.len() - 1].0 != RunEvent::Marker(true));
        law_drained_waits_for_marker(after(w, init), run.last().0, run.last().1);
    }
}

/// After a task found no job, none is started before the marker says that there is work.
pub proof fn law_drained_waits_for_marker(w: WorkerView, event: RunEvent, shutdown: bool)
    requires
        w.wf(),
        w.expects(event),
        w.drained,
    ensures
        w.next(event, shutdown).1 is Start ==> event == RunEvent::Marker(true),
        !w.next(event, shutdown).0.drained ==> event == RunEvent::Marker(true),
{
}

/// The settings of a worker do not change while it runs.
pub proof fn law_settings_fixed(w: WorkerView, run: Seq<(RunEvent, bool)>)
    ensures
        after(w, run).prefix == w.prefix,
        after(w, run).concurrency == w.concurrency,
        after(w, run).token == w.token,
        after(w, run).lock_duration == w.lock_duration,
        after(w, run).default_backoff == w.default_backoff,
        after(w, run).limiter == w.limiter,
    decreases run.len(),
{
    if run.len() > 0 {
        law_settings_fixed(w, run.drop_last());
    }
}

/// The concurrency is used. While no shutdown is requested, the loop waits for a task to end
/// exactly if as many tasks are running as may; with a slot free it starts a task, unless the
/// last search found no job: then it waits for the marker, and starts a task when that comes.
pub proof fn law_free_slot_is_used(w: WorkerView, event: RunEvent)
    requires
        w.wf(),
        w.expects(event),
        w.phase != Phase::Draining,
        !(event is Closed),
    ensures
        ({
            let (next, action) = w.next(event, false);
            let running = if event is Task {
                w.active_tasks - 1
            } else {
                w.active_tasks as int
            };
            let no_work = w.drained || event == RunEvent::Task(TaskEvent::FreedEmpty);
            &&& event == RunEvent::Marker(true) ==> action is Start && !next.drained
            &&& event != RunEvent::Marker(true) ==> {
                &&& action is Receive <==> running >= w.concurrency
                &&& running < w.concurrency && no_work ==> action is WaitMarker
                &&& running < w.concurrency && !no_work ==> action is Start
                &&& next.drained == no_work
            }
            &&& action is Start ==> next.active_tasks == running + 1
            &&& action !is Start ==> next.active_tasks == running
        }),
{
}

/// When no task can report any more, the loop stops waiting for one, and goes on as with a free
/// slot.
pub proof fn law_closed_ends_the_wait(w: WorkerView)
    requires
        w.phase == Phase::Full,
    ensures
        w.drained ==> w.next(RunEvent::Closed, false).1 is WaitMarker,
        !w.drained ==> w.next(RunEvent::Closed, false).1 is Start,
{
}

/// A worker with work to do starts a task at each round of its loop until as many are running as
/// its concurrency allows, and only then waits for one to end.
pub proof fn law_fills_up_to_concurrency(w: WorkerView, rounds: nat)
    requires
        w.wf(),
        w.phase == Phase::Top,
        !w.drained,
        w.active_tasks + rounds <= w.concurrency,
    ensures
        ({
            let run = Seq::new(rounds, |i: int| (RunEvent::Tick, false));
            let end = after(w, run);
            &&& possible(w, run)
            &&& starts(w, run) == rounds
            &&& end.active_tasks == w.active_tasks + rounds
            &&& end.phase == Phase::Top && !end.drained && end.concurrency == w.concurrency
            &&& w.active_tasks + rounds == w.concurrency ==> end.next(
                RunEvent::Tick,
                false,
            ).1 is Receive
        }),
    decreases rounds,
{
    let run = Seq::new(rounds, |i: int| (RunEvent::Tick, false));
    if rounds > 0 {
        let init = Seq::new((rounds - 1) as nat, |i: int| (RunEvent::Tick, false));
        assert(run.drop_last() =~= init);
        law_fills_up_to_concurrency(w, (rounds - 1) as nat);
    }
}

/// A new worker of a queue starts as many tasks as its concurrency, one at each round, before it
/// waits for one to end.
pub proof fn law_new_worker_fills_up(queue_name: &str, concurrency: usize, worker: Worker)
    requires
        concurrency > 0,
        call_ensures(Worker::new, (queue_name, concurrency), worker),
    ensures
        ({
            let run = Seq::new(concurrency as nat, |i: int| (RunEvent::Tick, false));
            &&& possible(worker@, run)
            &&& starts(worker@, run) == concurrency
            &&& after(worker@, run).next(RunEvent::Tick, false).1 is Receive
        }),
{
    law_fills_up_to_concurrency(worker@, concurrency as nat);
}

/// A worker that is not asked to shut down never stops.
pub proof fn law_runs_until_shutdown(w: WorkerView, run: Seq<(RunEvent, bool)>)
    requires
        w.phase != Phase::Draining,
        w.phase != Phase::Finished,
        possible(w, run),
        forall|i: int| 0 <= i < run.len() ==> !(#[trigger] run[i]).1,
    ensures
        after(w, run).phase != Phase::Draining,
        after(w, run).phase != Phase::Finished,
        run.len() > 0 ==> last_action(w, run) !is Finish,
    decreases run.len(),
{
    if run.len() > 0 {
        let init = run.drop_last();
        assert forall|i: int| 0 <= i < init.len() implies !(#[trigger] init[i]).1 by {
            assert(init[i] == run[i]);
        }
        law_runs_until_shutdown(w, init);
        assert(!run[run.len() - 1].1);
    }
}

/// A task that is started has the worker's settings, and a token that is the worker's, a colon
/// and the count of the tasks so far.
pub proof fn law_started_task(w: WorkerView, event: RunEvent, shutdown: bool)
    requires
        w.next(event, shutdown).1 is Start,
    ensures
        ({
            let state = w.next(event, shutdown).1->Start_0;
            let n = w.token.len() as int;
            &&& !state.processed_any
            &&& state.task.prefix == w.prefix
            &&& state.task.lock_duration == w.lock_duration
            &&& state.task.default_backoff == w.default_backoff
            &&& state.task.limiter == w.limiter
            &&& state.task.token.len() > n + 1
            &&& state.task.token.take(n) == w.token
            &&& state.task.token[n] == ':'
            &&& number(state.task.token.skip(n + 1)) == w.postfix + 1
            &&& w.next(event, shutdown).0.postfix == w.postfix + 1
        }),
{
    reveal_strlit(":");
    lemma_decimal_digits(w.postfix + 1);
    let token = w.next(event, shutdown).1->Start_0.task.token;
    assert(token.take(w.token.len() as int) =~= w.token);
    assert(token.skip(w.token.len() as int + 1) =~= decimal(w.postfix + 1));
}

/// A start of a run is a run, and starts no more tasks than the whole.
proof fn lemma_start_of_run(w: WorkerView, run: Seq<(RunEvent, bool)>, n: int)
    requires
        possible(w, run),
        0 <= n <= run.len(),
    ensures
        possible(w, run.take(n)),
        starts(w, run.take(n)) <= starts(w, run),
        n < run.len() && last_action(w, run) is Start ==> starts(w, run.take(n)) < starts(w, run),
    decreases run.len(),
{
    if n == run.len() {
        assert(run.take(n) =~= run);
    } else {
        lemma_start_of_run(w, run.drop_last(), n);
        assert(run.drop_last().take(n) =~= run.take(n));
    }
}

/// No two tasks of a run have the same token.
pub proof fn law_tasks_have_different_tokens(
    w: WorkerView,
    run: Seq<(RunEvent, bool)>,
    first: int,
    second: int,
)
    requires
        w.wf(),
        possible(w, run),
        0 < first < second <= run.len(),
        last_action(w, run.take(first)) is Start,
        last_action(w, run.take(second)) is Start,
    ensures
        last_action(w, run.take(first))->Start_0.task.token != last_action(
            w,
            run.take(second),
        )->Start_0.task.token,
{
    let (a, b) = (run.take(first), run.take(second));
    lemma_start_of_run(w, run, first);
    lemma_start_of_run(w, run, second);
    assert(b.take(first) =~= a);
    lemma_start_of_run(w, b, first);
    lemma_start_of_run(w, a, first - 1);
    lemma_start_of_run(w, b, second - 1);
    assert(a.drop_last() =~= a.take(first - 1));
    assert(b.drop_last() =~= b.take(second - 1));
    law_active_tasks_counted(w, a.drop_last());
    law_active_tasks_counted(w, b.drop_last());
    law_settings_fixed(w, a.drop_last());
    law_settings_fixed(w, b.drop_last());
    let (u, v) = (after(w, a.drop_last()), after(w, b.drop_last()));
    law_started_task(u, a.last().0, a.last().1);
    law_started_task(v, b.last().0, b.last().1);
    assert(u.postfix + 1 <= v.postfix);
}

/// What a worker is set up with reaches its tasks: the queue, the lock duration, the backoff and
/// the limit. Without a setting of its own it locks jobs for half a minute and has no backoff and
/// no limit.
pub proof fn law_settings_reach_tasks(
    queue_name: &str,
    concurrency: usize,
    plain: Worker,
    lock_duration: u64,
    locking: Worker,
    strategy: BackoffStrategy,
    backing_off: Worker,
    max: u32,
    duration: u64,
    worker: Worker,
)
    requires
        concurrency > 0,
        call_ensures(Worker::new, (queue_name, concurrency), plain),
        call_ensures(Worker::with_lock_duration, (plain, lock_duration), locking),
        call_ensures(Worker::with_backoff, (locking, strategy), backing_off),
        call_ensures(Worker::with_limiter, (backing_off, max, duration), worker),
    ensures
        plain@.next(RunEvent::Tick, false).1 matches RunActionView::Start(state) && {
            &&& state.task.prefix == "bull:"@ + queue_name@ + ":"@
            &&& state.task.lock_duration == 30_000
            &&& state.task.default_backoff is None
            &&& state.task.limiter is None
        },
        worker@.next(RunEvent::Tick, false).1 matches RunActionView::Start(state) && {
            &&& state.task.prefix == "bull:"@ + queue_name@ + ":"@
            &&& state.task.lock_duration == lock_duration
            &&& state.task.default_backoff == Some(strategy)
            &&& state.task.limiter matches Some(limiter) && limiter.max == max
                && limiter.duration == duration
        },
        worker@.concurrency == concurrency,
        worker@.token == plain@.token,
{
}

/// Under shutdown the loop waits for the running tasks and does nothing else: it finishes as soon
/// as none is running, or none can report, and waits for the next otherwise. Whether there was
/// work the last time is remembered for another run, and learned only from a task that was waited
/// for because all slots were taken.
pub proof fn law_step_under_shutdown(w: WorkerView, event: RunEvent, shutdown: bool)
    requires
        w.wf(),
        w.expects(event),
        shutdown || w.phase == Phase::Draining,
    ensures
        ({
            let (next, action) = w.next(event, shutdown);
            let running = if event is Task {
                w.active_tasks - 1
            } else {
                w.active_tasks as int
            };
            let given_up = event is Closed && w.phase == Phase::Draining;
            &&& next.active_tasks == running
            &&& action is Finish <==> running == 0 || given_up
            &&& action !is Finish ==> action is Receive
            &&& action is Finish <==> next.phase == Phase::Finished
            &&& action is Receive <==> next.phase == Phase::Draining
            &&& next.drained <==> w.drained || (event == RunEvent::Task(TaskEvent::FreedEmpty)
                && w.phase == Phase::Full)
        }),
{
}

/// What the loop asks for can come: after a start it goes on, when it waits for a task the report
/// of one or the end of all reports is taken, when it waits for the marker the marker or its
/// absence, and when it has finished nothing more.
pub proof fn law_action_leads_to_event(w: WorkerView, event: RunEvent, shutdown: bool)
    requires
        w.wf(),
        w.expects(event),
    ensures
        ({
            let (next, action) = w.next(event, shutdown);
            &&& action is Start ==> next.expects(RunEvent::Tick)
            &&& action is Receive ==> next.expects(RunEvent::Closed) && next.expects(
                RunEvent::Task(TaskEvent::Freed),
            ) && next.expects(RunEvent::Task(TaskEvent::FreedEmpty))
            &&& action is WaitMarker ==> next.expects(RunEvent::Marker(true)) && next.expects(
                RunEvent::Marker(false),
            )
            &&& action is Finish ==> forall|e: RunEvent| !next.expects(e)
            &&& next.wf()
        }),
{
}

} // verus!
