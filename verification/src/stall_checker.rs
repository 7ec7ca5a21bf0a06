//! Finding jobs that a worker has dropped: still on the active list, but with no lock.
//!
//! A sweep goes through the active list job by job. All queries are made outside:
//! [`StallSweep::answer`] takes a reply, and says which commands to send and what to ask next.

use vstd::prelude::*;
use crate::commands::{announcement, commands, fail_plan, job_key, lock_key, requeue_plan};
use crate::commands::{emit_event, fail_stalled, job_field, lock_exists, requeue_stalled, Command};
use crate::kernel::events::JobEvent;
use crate::kernel::job::JobOptions;
use crate::kernel::retry::should_retry;
use crate::text::texts;

verus! {

/// How often a sweep is made: twice per lock duration. Both are in milliseconds.
pub fn sweep_interval(lock_duration: u64) -> (ms: u64)
    ensures
        ms == lock_duration / 2,
{
    lock_duration / 2
}

/// What a sweep is asking about the present job.
#[derive(Debug, Clone, Copy, PartialEq, Eq, Structural)]
pub enum SweepStage {
    /// Whether it is locked.
    Lock,
    /// How often it has been attempted.
    Attempts,
    /// What its options are.
    Options,
    /// Nothing: the sweep is over.
    Done,
}

/// What was read of a job's options.
#[derive(Debug, Clone, Copy, PartialEq, Eq, Structural)]
pub enum OptionsReply {
    /// There are none to be had.
    Unreadable,
    /// They are not valid options.
    Invalid,
    Read(JobOptions),
}

/// A reply to a query of the sweep. `None` stands for a query that failed.
#[derive(Debug, Clone, Copy, PartialEq, Eq, Structural)]
pub enum SweepReply {
    Lock(Option<bool>),
    Attempts(Option<u32>),
    Options(OptionsReply),
}

/// What to do next: send the commands, whether or not they succeed, then make the query if there
/// is one. Without a query the sweep is over.
#[derive(Debug)]
pub struct SweepStep {
    pub run: Vec<Command>,
    pub query: Option<Command>,
}

/// A step with its commands as character sequences.
#[verifier::ext_equal]
pub struct SweepStepView {
    pub run: Seq<Seq<Seq<char>>>,
    pub query: Option<Seq<Seq<char>>>,
}

impl View for SweepStep {
    type V = SweepStepView;

    open spec fn view(&self) -> SweepStepView {
        SweepStepView {
            run: commands(self.run@),
            query: match self.query {
                Some(c) => Some(c@),
                None => None,
            },
        }
    }
}

/// A sweep through the active list of a queue.
#[derive(Debug)]
pub struct StallSweep {
    prefix: String,
    jobs: Vec<String>,
    at: usize,
    stage: SweepStage,
    attempts: u32,
}

/// A sweep with its texts as character sequences.
#[verifier::ext_equal]
pub struct SweepView {
    pub prefix: Seq<char>,
    pub jobs: Seq<Seq<char>>,
    pub at: nat,
    pub stage: SweepStage,
    pub attempts: u32,
}

impl View for StallSweep {
    type V = SweepView;

    closed spec fn view(&self) -> SweepView {
        SweepView {
            prefix: self.prefix@,
            jobs: texts(self.jobs@),
            at: self.at as nat,
            stage: self.stage,
            attempts: self.attempts,
        }
    }
}

/// Whether a job counts as locked. When in doubt it does.
pub open spec fn held(exists: Option<bool>) -> bool {
    exists != Some(false)
}

/// How often a job may be attempted; once if its options are not valid.
pub open spec fn allowed_attempts(reply: OptionsReply) -> nat {
    match reply {
        OptionsReply::Read(opts) => opts.attempts as nat,
        _ => 1,
    }
}

/// What is done with a stalled job: put back while attempts remain, else failed. A job whose
/// options cannot be read is left alone.
pub open spec fn verdict(
    prefix: Seq<char>,
    job_id: Seq<char>,
    attempts: u32,
    reply: OptionsReply,
    now: u64,
) -> Seq<Seq<Seq<char>>> {
    if reply is Unreadable {
        seq![]
    } else if attempts < allowed_attempts(reply) {
        requeue_plan(prefix, job_id)
    } else {
        fail_plan(prefix, job_id, now as nat)
    }
}

impl SweepView {
    /// A sweep that is not over is at one of its jobs.
    pub open spec fn wf(self) -> bool {
        self.stage != SweepStage::Done ==> self.at < self.jobs.len()
    }

    /// Whether a reply can come in the present stage.
    pub open spec fn expects(self, reply: SweepReply) -> bool {
        match self.stage {
            SweepStage::Lock => reply is Lock,
            SweepStage::Attempts => reply is Attempts,
            SweepStage::Options => reply is Options,
            SweepStage::Done => false,
        }
    }

    /// Going to the job with the given index, after some commands; past the last the sweep is
    /// over.
    pub open spec fn at_job(self, index: nat, run: Seq<Seq<Seq<char>>>) -> (
        SweepView,
        SweepStepView,
    ) {
        if index < self.jobs.len() {
            (
                SweepView { at: index, stage: SweepStage::Lock, ..self },
                SweepStepView {
                    run,
                    query: Some(seq!["EXISTS"@, lock_key(self.prefix, self.jobs[index as int])]),
                },
            )
        } else {
            (
                SweepView { at: index, stage: SweepStage::Done, ..self },
                SweepStepView { run, query: None },
            )
        }
    }

    /// The sweep, from one query to the next.
    pub open spec fn next(self, reply: SweepReply, now: u64) -> (SweepView, SweepStepView) {
        let job_id = self.jobs[self.at as int];
        match reply {
            SweepReply::Lock(exists) => if held(exists) {
                self.at_job(self.at + 1, seq![])
            } else {
                (
                    SweepView { stage: SweepStage::Attempts, ..self },
                    SweepStepView {
                        run: seq![announcement(self.prefix, JobEvent::Stalled, job_id)],
                        query: Some(seq!["HGET"@, job_key(self.prefix, job_id), "atm"@]),
                    },
                )
            },
            SweepReply::Attempts(made) => (
                SweepView {
                    stage: SweepStage::Options,
                    attempts: match made {
                        Some(n) => n,
                        None => 0,
                    },
                    ..self
                },
                SweepStepView {
                    run: seq![],
                    query: Some(seq!["HGET"@, job_key(self.prefix, job_id), "opts"@]),
                },
            ),
            SweepReply::Options(opts) => self.at_job(
                self.at + 1,
                verdict(self.prefix, job_id, self.attempts, opts, now),
            ),
        }
    }
}

impl StallSweep {
    /// Starts a sweep through the given active jobs.
    pub fn new(prefix: &str, jobs: Vec<String>) -> (r: (StallSweep, SweepStep))
        ensures
            (r.0@, r.1@) == (SweepView {
                prefix: prefix@,
                jobs: texts(jobs@),
                at: 0,
                stage: SweepStage::Done,
                attempts: 0,
            }).at_job(0, seq![]),
            r.0@.wf(),
    {
        let mut sweep = StallSweep {
            prefix: prefix.to_string(),
            jobs,
            at: 0,
            stage: SweepStage::Done,
            attempts: 0,
        };
        let step = sweep.go_to(0, Vec::new());
        (sweep, step)
    }

    /// What the sweep is asking, which says what kind of reply it takes.
    pub fn stage(&self) -> (stage: SweepStage)
        ensures
            stage == self@.stage,
    {
        self.stage
    }

    fn go_to(&mut self, index: usize, run: Vec<Command>) -> (step: SweepStep)
        ensures
            (final(self)@, step@) == old(self)@.at_job(index as nat, commands(run@)),
            final(self)@.wf(),
    {
        self.at = index;
        if index < self.jobs.len() {
            self.stage = SweepStage::Lock;
            let query = lock_exists(self.prefix.as_str(), self.jobs[index].as_str());
            SweepStep { run, query: Some(query) }
        } else {
            self.stage = SweepStage::Done;
            SweepStep { run, query: None }
        }
    }

    /// Takes the reply to the last query, and the time in milliseconds since the Unix epoch.
    pub fn answer(&mut self, reply: SweepReply, now: u64) -> (step: SweepStep)
        requires
            old(self)@.wf(),
            old(self)@.expects(reply),
        ensures
            (final(self)@, step@) == old(self)@.next(reply, now),
            final(self)@.wf(),
    {
        let at: usize = self.at;
        proof {
            assert(at < self.jobs.len());
        }
        match reply {
            SweepReply::Lock(exists) => {
                let is_held = match exists {
                    Some(exists) => exists,
                    None => true,
                };
                if is_held {
                    let none: Vec<Command> = Vec::new();
                    proof {
                        assert(commands(none@) =~= seq![]);
                    }
                    self.go_to(at + 1, none)
                } else {
                    self.stage = SweepStage::Attempts;
                    let prefix = self.prefix.as_str();
                    let job_id = self.jobs[at].as_str();
                    let run: Vec<Command> = vec![emit_event(prefix, JobEvent::Stalled, job_id)];
                    proof {
                        assert(commands(run@) =~= seq![
                            announcement(prefix@, JobEvent::Stalled, job_id@),
                        ]);
                    }
                    SweepStep { run, query: Some(job_field(prefix, job_id, "atm")) }
                }
            },
            SweepReply::Attempts(made) => {
                self.stage = SweepStage::Options;
                self.attempts = match made {
                    Some(n) => n,
                    None => 0,
                };
                let none: Vec<Command> = Vec::new();
                proof {
                    assert(commands(none@) =~= seq![]);
                }
                let query = job_field(self.prefix.as_str(), self.jobs[at].as_str(), "opts");
                SweepStep { run: none, query: Some(query) }
            },
            SweepReply::Options(opts) => {
                let run = self.decide(opts, now);
                self.go_to(at + 1, run)
            },
        }
    }

    fn decide(&self, reply: OptionsReply, now: u64) -> (run: Vec<Command>)
        requires
            self@.at < self@.jobs.len(),
        ensures
            commands(run@) == verdict(
                self@.prefix,
                self@.jobs[self@.at as int],
                self@.attempts,
                reply,
                now,
            ),
    {
        let max: u32 = match reply {
            OptionsReply::Unreadable => {
                let none: Vec<Command> = Vec::new();
                proof {
                    assert(commands(none@) =~= seq![]);
                }
                return none;
            },
            OptionsReply::Invalid => 1,
            OptionsReply::Read(opts) => opts.attempts,
        };
        let prefix = self.prefix.as_str();
        let job_id = self.jobs[self.at].as_str();
        if should_retry(self.attempts, max) {
            requeue_stalled(prefix, job_id)
        } else {
            fail_stalled(prefix, job_id, now)
        }
    }
}

// What a whole sweep does.

/// The replies to the queries about one job. Those about attempts and options count only if the
/// job is not locked.
pub struct JobReplies {
    pub lock: Option<bool>,
    pub attempts: Option<u32>,
    pub options: OptionsReply,
    pub now: u64,
}

/// The commands that one job gives rise to.
pub open spec fn commands_for_job(prefix: Seq<char>, job_id: Seq<char>, r: JobReplies) -> Seq<
    Seq<Seq<char>>,
> {
    if held(r.lock) {
        seq![]
    } else {
        seq![announcement(prefix, JobEvent::Stalled, job_id)] + verdict(
            prefix,
            job_id,
            match r.attempts {
                Some(n) => n,
                None => 0,
            },
            r.options,
            r.now,
        )
    }
}

/// The commands that the jobs from `from` on give rise to, job by job.
pub open spec fn commands_for_jobs(
    prefix: Seq<char>,
    jobs: Seq<Seq<char>>,
    replies: Seq<JobReplies>,
    from: nat,
) -> Seq<Seq<Seq<char>>>
    decreases jobs.len() - from,
{
    if from >= jobs.len() {
        seq![]
    } else {
        commands_for_job(prefix, jobs[from as int], replies[from as int]) + commands_for_jobs(
            prefix,
            jobs,
            replies,
            from + 1,
        )
    }
}

/// The sweep's way through the present job: where it is afterwards, and the commands it has sent.
pub open spec fn visit(v: SweepView, r: JobReplies) -> (SweepView, Seq<Seq<Seq<char>>>) {
    let (v1, s1) = v.next(SweepReply::Lock(r.lock), r.now);
    if held(r.lock) {
        (v1, s1.run)
    } else {
        let (v2, s2) = v1.next(SweepReply::Attempts(r.attempts), r.now);
        let (v3, s3) = v2.next(SweepReply::Options(r.options), r.now);
        (v3, s1.run + s2.run + s3.run)
    }
}

/// The sweep's way from the present job to its end.
pub open spec fn sweep(v: SweepView, replies: Seq<JobReplies>) -> (
    SweepView,
    Seq<Seq<Seq<char>>>,
)
    decreases v.jobs.len() - v.at,
{
    if v.stage == SweepStage::Lock && v.at < v.jobs.len() {
        let (w, sent) = visit(v, replies[v.at as int]);
        let (end, rest) = sweep(w, replies);
        (end, sent + rest)
    } else {
        (v, seq![])
    }
}

/// A sweep visits every job of the active list once, in order, and sends for each what its
/// replies give rise to: nothing for a locked one, and for a stalled one the announcement and the
/// verdict.
pub proof fn law_sweep_visits_every_job(v: SweepView, replies: Seq<JobReplies>)
    requires
        v.wf(),
        v.stage == SweepStage::Lock || (v.stage == SweepStage::Done && v.at >= v.jobs.len()),
    ensures
        sweep(v, replies).0.stage == SweepStage::Done,
        sweep(v, replies).0.at >= v.jobs.len(),
        sweep(v, replies).1 == commands_for_jobs(v.prefix, v.jobs, replies, v.at),
    decreases v.jobs.len() - v.at,
{
    if v.stage == SweepStage::Lock {
        let r = replies[v.at as int];
        let (w, sent) = visit(v, r);
        assert(sent =~= commands_for_job(v.prefix, v.jobs[v.at as int], r));
        law_sweep_visits_every_job(w, replies);
    }
}

/// A job whose lock is there is never touched, and neither is one whose lock cannot be read.
pub proof fn law_locked_job_untouched(prefix: Seq<char>, job_id: Seq<char>, r: JobReplies)
    requires
        r.lock != Some(false),
    ensures
        commands_for_job(prefix, job_id, r) == Seq::<Seq<Seq<char>>>::empty(),
{
}

/// A stalled job is put back while attempts remain and fails when they are used up.
pub proof fn law_stalled_job_requeued_or_failed(
    prefix: Seq<char>,
    job_id: Seq<char>,
    attempts: u32,
    opts: JobOptions,
    now: u64,
)
    ensures
        attempts < opts.attempts ==> verdict(
            prefix,
            job_id,
            attempts,
            OptionsReply::Read(opts),
            now,
        ) == requeue_plan(prefix, job_id),
        attempts >= opts.attempts ==> verdict(
            prefix,
            job_id,
            attempts,
            OptionsReply::Read(opts),
            now,
        ) == fail_plan(prefix, job_id, now as nat),
{
}

/// A job without a lock is announced as stalled, and then decided on by how often it has been
/// attempted: it is put back while its options allow a further attempt, and fails otherwise. A
/// count that cannot be read is none, options that are not valid allow one attempt, and a job
/// whose options cannot be read is only announced.
pub proof fn law_stalled_job_settled(prefix: Seq<char>, job_id: Seq<char>, r: JobReplies)
    requires
        r.lock == Some(false),
    ensures
        ({
            let sent = commands_for_job(prefix, job_id, r);
            let made = match r.attempts {
                Some(n) => n as int,
                None => 0,
            };
            let decided = sent.skip(1);
            &&& sent.len() > 0
            &&& sent[0] == seq![
                "XADD"@,
                prefix + "events"@,
                "*"@,
                "event"@,
                "stalled"@,
                "jobId"@,
                job_id,
            ]
            &&& match r.options {
                OptionsReply::Unreadable => decided.len() == 0,
                OptionsReply::Invalid => if made < 1 {
                    decided == requeue_plan(prefix, job_id)
                } else {
                    decided == fail_plan(prefix, job_id, r.now as nat)
                },
                OptionsReply::Read(opts) => if made < opts.attempts {
                    decided == requeue_plan(prefix, job_id)
                } else {
                    decided == fail_plan(prefix, job_id, r.now as nat)
                },
            }
        }),
{
    let verdict = commands_for_job(prefix, job_id, r).skip(1);
    let made = match r.attempts {
        Some(n) => n,
        None => 0,
    };
    assert(verdict =~= self::verdict(prefix, job_id, made, r.options, r.now));
}

/// A sweep asks about each job in turn: first whether it has a lock, and of one that has none how
/// often it has been attempted and what its options are. All of it is asked of that job.
pub proof fn law_sweep_asks_about_the_job(v: SweepView, reply: SweepReply, now: u64)
    requires
        v.wf(),
        v.expects(reply),
    ensures
        ({
            let job_id = v.jobs[v.at as int];
            let (next, step) = v.next(reply, now);
            &&& reply == SweepReply::Lock(Some(false)) ==> {
                &&& next.at == v.at && next.stage == SweepStage::Attempts
                &&& step.query == Some(seq!["HGET"@, v.prefix + job_id, "atm"@])
            }
            &&& reply is Attempts ==> {
                &&& next.at == v.at && next.stage == SweepStage::Options
                &&& step.query == Some(seq!["HGET"@, v.prefix + job_id, "opts"@])
                &&& step.run.len() == 0
            }
            &&& reply != SweepReply::Lock(Some(false)) && reply !is Attempts ==> {
                &&& next.at == v.at + 1
                &&& v.at + 1 < v.jobs.len() ==> next.stage == SweepStage::Lock && step.query
                    == Some(seq!["EXISTS"@, v.prefix + v.jobs[v.at as int + 1] + ":lock"@])
                &&& v.at + 1 >= v.jobs.len() ==> next.stage == SweepStage::Done
                    && step.query is None
            }
            &&& next.prefix == v.prefix && next.jobs == v.jobs
        }),
{
}

/// A whole sweep, from its start: it begins with the lock of the first job, sends nothing before
/// it has a reply, and in the end has sent for every job of the list, in order, what its replies
/// give rise to.
pub proof fn law_whole_sweep(
    prefix: &str,
    jobs: Vec<String>,
    r: (StallSweep, SweepStep),
    replies: Seq<JobReplies>,
)
    requires
        call_ensures(StallSweep::new, (prefix, jobs), r),
    ensures
        r.1@.run.len() == 0,
        jobs@.len() == 0 ==> r.1@.query is None,
        jobs@.len() > 0 ==> r.1@.query == Some(
            seq!["EXISTS"@, prefix@ + jobs@[0]@ + ":lock"@],
        ),
        sweep(r.0@, replies).0.stage == SweepStage::Done,
        sweep(r.0@, replies).1 == commands_for_jobs(prefix@, texts(jobs@), replies, 0),
{
    assert(texts(jobs@).len() == jobs@.len());
    law_sweep_visits_every_job(r.0@, replies);
}

/// The commands of several jobs are those of the first and then those of the others, so that none
/// is left out and none comes twice.
pub proof fn law_every_job_has_its_turn(
    prefix: Seq<char>,
    jobs: Seq<Seq<char>>,
    replies: Seq<JobReplies>,
    from: nat,
)
    ensures
        from >= jobs.len() ==> commands_for_jobs(prefix, jobs, replies, from).len() == 0,
        from < jobs.len() ==> commands_for_jobs(prefix, jobs, replies, from) == commands_for_job(
            prefix,
            jobs[from as int],
            replies[from as int],
        ) + commands_for_jobs(prefix, jobs, replies, from + 1),
{
}

/// Two sweeps fit into the time that a lock lasts, and the interval is the longest with which they
/// do.
pub proof fn law_two_sweeps_per_lock(lock_duration: u64, ms: u64)
    requires
        call_ensures(sweep_interval, (lock_duration,), ms),
    ensures
        2 * ms <= lock_duration,
        lock_duration < 2 * (ms + 1),
{
}

} // verus!
