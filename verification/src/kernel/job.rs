//! Jobs, their options, and building a job from the fields of its hash.

use vstd::prelude::*;
use crate::kernel::backoff::BackoffStrategy;

verus! {

/// The count that keeps all finished jobs.
pub const KEEP_ALL: i32 = -1;

/// How many finished jobs to keep, and for how long. A count of -1 keeps all of them.
#[derive(Debug, Clone, Copy, PartialEq, Eq, Structural)]
pub struct KeepJobs {
    pub count: i32,
    pub age: Option<i32>,
}

impl Default for KeepJobs {
    fn default() -> (keep: Self)
        ensures
            keep == (KeepJobs { count: KEEP_ALL, age: None }),
    {
        KeepJobs { count: KEEP_ALL, age: None }
    }
}

/// The forms in which a job says how many finished jobs to keep.
#[derive(Debug, Clone, Copy, PartialEq, Eq, Structural)]
pub enum KeepJobsConfig {
    /// `true` removes the job at once, `false` keeps all jobs.
    Bool(bool),
    Count(i32),
    Spec { age: Option<i32>, count: Option<i32> },
}

impl KeepJobsConfig {
    /// What the form means.
    pub open spec fn meaning(self) -> KeepJobs {
        match self {
            KeepJobsConfig::Bool(remove) => KeepJobs {
                count: if remove {
                    0
                } else {
                    KEEP_ALL
                },
                age: None,
            },
            KeepJobsConfig::Count(n) => KeepJobs { count: n, age: None },
            KeepJobsConfig::Spec { age, count } => KeepJobs {
                count: match count {
                    Some(n) => n,
                    None => KEEP_ALL,
                },
                age,
            },
        }
    }

    pub fn to_keep_jobs(&self) -> (keep: KeepJobs)
        ensures
            keep == self.meaning(),
    {
        match self {
            KeepJobsConfig::Bool(true) => KeepJobs { count: 0, age: None },
            KeepJobsConfig::Bool(false) => KeepJobs::default(),
            KeepJobsConfig::Count(n) => KeepJobs { count: *n, age: None },
            KeepJobsConfig::Spec { age, count } => KeepJobs {
                count: match count {
                    Some(n) => *n,
                    None => KEEP_ALL,
                },
                age: *age,
            },
        }
    }
}

#[derive(Debug, Clone, Copy, PartialEq, Eq, Structural)]
pub enum JobState {
    Waiting,
    Delayed,
    Active,
    Completed,
    Failed,
}

/// The options that a job was added with, as far as a worker reads them.
#[derive(Debug, Clone, Copy, PartialEq, Eq, Structural)]
pub struct JobOptions {
    pub attempts: u32,
    pub backoff: Option<BackoffStrategy>,
    pub delay: u64,
    pub remove_on_complete: Option<KeepJobsConfig>,
    pub remove_on_fail: Option<KeepJobsConfig>,
    pub lifo: bool,
}

#[derive(Debug)]
pub struct Job<Data> {
    pub id: String,
    pub name: String,
    pub data: Data,
    pub opts: JobOptions,
    pub timestamp: u64,
    pub delay: u64,
    pub priority: u32,
    pub processed_on: u64,
    pub attempts_started: u32,
    pub attempts_made: Option<u32>,
}

/// A job with its texts as character sequences.
#[verifier::ext_equal]
pub struct JobView<Data> {
    pub id: Seq<char>,
    pub name: Seq<char>,
    pub data: Data,
    pub opts: JobOptions,
    pub timestamp: u64,
    pub delay: u64,
    pub priority: u32,
    pub processed_on: u64,
    pub attempts_started: u32,
    pub attempts_made: Option<u32>,
}

impl<Data> View for Job<Data> {
    type V = JobView<Data>;

    open spec fn view(&self) -> JobView<Data> {
        JobView {
            id: self.id@,
            name: self.name@,
            data: self.data,
            opts: self.opts,
            timestamp: self.timestamp,
            delay: self.delay,
            priority: self.priority,
            processed_on: self.processed_on,
            attempts_started: self.attempts_started,
            attempts_made: self.attempts_made,
        }
    }
}

/// Collects the fields of a job one by one.
pub struct JobBuilder<Data> {
    id: Option<String>,
    name: Option<String>,
    data: Option<Data>,
    opts: Option<JobOptions>,
    opts_err: Option<String>,
    timestamp: Option<u64>,
    delay: Option<u64>,
    priority: Option<u32>,
    processed_on: Option<u64>,
    attempts_started: Option<u32>,
    attempts_made: Option<u32>,
}

/// The fields that a builder has collected.
#[verifier::ext_equal]
pub struct JobFields<Data> {
    pub id: Option<Seq<char>>,
    pub name: Option<Seq<char>>,
    pub data: Option<Data>,
    pub opts: Option<JobOptions>,
    pub opts_err: Option<Seq<char>>,
    pub timestamp: Option<u64>,
    pub delay: Option<u64>,
    pub priority: Option<u32>,
    pub processed_on: Option<u64>,
    pub attempts_started: Option<u32>,
    pub attempts_made: Option<u32>,
}

/// The contents of an optional string.
pub open spec fn optional_text(s: Option<String>) -> Option<Seq<char>> {
    match s {
        Some(s) => Some(s@),
        None => None,
    }
}

impl<Data> JobFields<Data> {
    /// No field at all.
    pub open spec fn none() -> JobFields<Data> {
        JobFields {
            id: None,
            name: None,
            data: None,
            opts: None,
            opts_err: None,
            timestamp: None,
            delay: None,
            priority: None,
            processed_on: None,
            attempts_started: None,
            attempts_made: None,
        }
    }

    /// The id and nothing else.
    pub open spec fn of_id(id: Seq<char>) -> JobFields<Data> {
        JobFields { id: Some(id), ..JobFields::none() }
    }

    /// The first field that a job needs and that is not there.
    pub open spec fn first_missing(self) -> Option<Seq<char>> {
        if self.id is None {
            Some("id"@)
        } else if self.name is None {
            Some("name"@)
        } else if self.data is None {
            Some("data"@)
        } else if self.opts is None {
            Some("opts"@)
        } else if self.timestamp is None {
            Some("timestamp"@)
        } else if self.delay is None {
            Some("delay"@)
        } else if self.priority is None {
            Some("priority"@)
        } else if self.processed_on is None {
            Some("processedOn"@)
        } else if self.attempts_started is None {
            Some("ats"@)
        } else {
            None
        }
    }

    /// The job made of the fields. Options that could not be read come before a missing field.
    pub open spec fn built(self) -> Result<JobView<Data>, Seq<char>> {
        match self.opts_err {
            Some(err) => Err(err),
            None => match self.first_missing() {
                Some(field) => Err("missing field: "@ + field),
                None => Ok(
                    JobView {
                        id: self.id->0,
                        name: self.name->0,
                        data: self.data->0,
                        opts: self.opts->0,
                        timestamp: self.timestamp->0,
                        delay: self.delay->0,
                        priority: self.priority->0,
                        processed_on: self.processed_on->0,
                        attempts_started: self.attempts_started->0,
                        attempts_made: self.attempts_made,
                    },
                ),
            },
        }
    }
}

/// A job or an error text, with its texts as character sequences.
pub open spec fn build_result<Data>(r: Result<Job<Data>, String>) -> Result<JobView<Data>, Seq<char>> {
    match r {
        Ok(job) => Ok(job@),
        Err(e) => Err(e@),
    }
}

/// The error for a missing field.
fn missing<Data>(field: &str) -> (r: Result<Job<Data>, String>)
    ensures
        build_result(r) == Err::<JobView<Data>, Seq<char>>("missing field: "@ + field@),
{
    let mut text = "missing field: ".to_string();
    text.append(field);
    Err(text)
}

impl<Data> View for JobBuilder<Data> {
    type V = JobFields<Data>;

    closed spec fn view(&self) -> JobFields<Data> {
        JobFields {
            id: optional_text(self.id),
            name: optional_text(self.name),
            data: self.data,
            opts: self.opts,
            opts_err: optional_text(self.opts_err),
            timestamp: self.timestamp,
            delay: self.delay,
            priority: self.priority,
            processed_on: self.processed_on,
            attempts_started: self.attempts_started,
            attempts_made: self.attempts_made,
        }
    }
}

impl<Data> Default for JobBuilder<Data> {
    fn default() -> (builder: Self)
        ensures
            builder@ == JobFields::<Data>::none(),
    {
        Self::new()
    }
}

impl<Data> JobBuilder<Data> {
    pub fn new() -> (builder: Self)
        ensures
            builder@ == JobFields::<Data>::none(),
    {
        JobBuilder {
            id: None,
            name: None,
            data: None,
            opts: None,
            opts_err: None,
            timestamp: None,
            delay: None,
            priority: None,
            processed_on: None,
            attempts_started: None,
            attempts_made: None,
        }
    }

    pub fn id(self, id: String) -> (builder: Self)
        ensures
            builder@ == (JobFields { id: Some(id@), ..self@ }),
    {
        JobBuilder { id: Some(id), ..self }
    }

    pub fn name(self, name: String) -> (builder: Self)
        ensures
            builder@ == (JobFields { name: Some(name@), ..self@ }),
    {
        JobBuilder { name: Some(name), ..self }
    }

    pub fn data(self, data: Data) -> (builder: Self)
        ensures
            builder@ == (JobFields { data: Some(data), ..self@ }),
    {
        JobBuilder { data: Some(data), ..self }
    }

    /// Takes the options that were read from JSON, or the reader's error text.
    pub fn opts(self, opts: Result<JobOptions, String>) -> (builder: Self)
        ensures
            builder@ == self@.with_opts(
                match opts {
                    Ok(o) => Ok(o),
                    Err(e) => Err(e@),
                },
            ),
    {
        match opts {
            Ok(parsed) => JobBuilder { opts: Some(parsed), ..self },
            Err(e) => {
                let mut text = "invalid opts JSON: ".to_string();
                text.append(e.as_str());
                JobBuilder { opts_err: Some(text), ..self }
            },
        }
    }

    pub fn timestamp(self, timestamp: u64) -> (builder: Self)
        ensures
            builder@ == (JobFields { timestamp: Some(timestamp), ..self@ }),
    {
        JobBuilder { timestamp: Some(timestamp), ..self }
    }

    pub fn delay(self, delay: u64) -> (builder: Self)
        ensures
            builder@ == (JobFields { delay: Some(delay), ..self@ }),
    {
        JobBuilder { delay: Some(delay), ..self }
    }

    pub fn priority(self, priority: u32) -> (builder: Self)
        ensures
            builder@ == (JobFields { priority: Some(priority), ..self@ }),
    {
        JobBuilder { priority: Some(priority), ..self }
    }

    pub fn processed_on(self, processed_on: u64) -> (builder: Self)
        ensures
            builder@ == (JobFields { processed_on: Some(processed_on), ..self@ }),
    {
        JobBuilder { processed_on: Some(processed_on), ..self }
    }

    pub fn attempts_started(self, attempts_started: u32) -> (builder: Self)
        ensures
            builder@ == (JobFields { attempts_started: Some(attempts_started), ..self@ }),
    {
        JobBuilder { attempts_started: Some(attempts_started), ..self }
    }

    pub fn attempts_made(self, attempts_made: u32) -> (builder: Self)
        ensures
            builder@ == (JobFields { attempts_made: Some(attempts_made), ..self@ }),
    {
        JobBuilder { attempts_made: Some(attempts_made), ..self }
    }

    /// Builds the job. Fails with the error of the options, or names the first missing field.
    pub fn build(self) -> (r: Result<Job<Data>, String>)
        ensures
            build_result(r) == self@.built(),
    {
        let JobBuilder {
            id,
            name,
            data,
            opts,
            opts_err,
            timestamp,
            delay,
            priority,
            processed_on,
            attempts_started,
            attempts_made,
        } = self;
        if let Some(err) = opts_err {
            return Err(err);
        }
        let id = match id {
            Some(id) => id,
            None => return missing("id"),
        };
        let name = match name {
            Some(name) => name,
            None => return missing("name"),
        };
        let data = match data {
            Some(data) => data,
            None => return missing("data"),
        };
        let opts = match opts {
            Some(opts) => opts,
            None => return missing("opts"),
        };
        let timestamp: u64 = match timestamp {
            Some(timestamp) => timestamp,
            None => return missing("timestamp"),
        };
        let delay: u64 = match delay {
            Some(delay) => delay,
            None => return missing("delay"),
        };
        let priority: u32 = match priority {
            Some(priority) => priority,
            None => return missing("priority"),
        };
        let processed_on: u64 = match processed_on {
            Some(processed_on) => processed_on,
            None => return missing("processedOn"),
        };
        let attempts_started: u32 = match attempts_started {
            Some(attempts_started) => attempts_started,
            None => return missing("ats"),
        };
        Ok(
            Job {
                id,
                name,
                data,
                opts,
                timestamp,
                delay,
                priority,
                processed_on,
                attempts_started,
                attempts_made,
            },
        )
    }
}

impl<Data> JobFields<Data> {
    /// The fields after the options were read, or could not be read.
    pub open spec fn with_opts(self, opts: Result<JobOptions, Seq<char>>) -> JobFields<Data> {
        match opts {
            Ok(o) => JobFields { opts: Some(o), ..self },
            Err(e) => JobFields { opts_err: Some("invalid opts JSON: "@ + e), ..self },
        }
    }
}

/// What the forms mean: `true` keeps no job and `false` all of them, a count keeps that many, and
/// of an age and a count each is taken as it is given, where no count keeps all.
pub proof fn law_keep_forms(config: KeepJobsConfig, keep: KeepJobs)
    requires
        call_ensures(KeepJobsConfig::to_keep_jobs, (&config,), keep),
    ensures
        match config {
            KeepJobsConfig::Bool(true) => keep.count == 0 && keep.age is None,
            KeepJobsConfig::Bool(false) => keep.count == -1 && keep.age is None,
            KeepJobsConfig::Count(n) => keep.count == n && keep.age is None,
            KeepJobsConfig::Spec { age, count } => {
                &&& keep.age == age
                &&& count is None ==> keep.count == -1
                &&& count matches Some(n) ==> keep.count == n
            },
        },
{
}

/// A job is built exactly if every field that it needs is there and its options could be read, and
/// it then has the fields that were collected. Else the error is that of the options, or names the
/// first field that is not there, in the order of a job's fields.
pub proof fn law_built_from_fields<Data>(builder: JobBuilder<Data>, r: Result<Job<Data>, String>)
    requires
        call_ensures(JobBuilder::<Data>::build, (builder,), r),
    ensures
        r is Ok <==> {
            &&& builder@.opts_err is None
            &&& builder@.id is Some && builder@.name is Some && builder@.data is Some
            &&& builder@.opts is Some && builder@.timestamp is Some && builder@.delay is Some
            &&& builder@.priority is Some && builder@.processed_on is Some
            &&& builder@.attempts_started is Some
        },
        r matches Ok(job) ==> {
            &&& builder@.id == Some(job.id@) && builder@.name == Some(job.name@)
            &&& builder@.data == Some(job.data) && builder@.opts == Some(job.opts)
            &&& builder@.timestamp == Some(job.timestamp) && builder@.delay == Some(job.delay)
            &&& builder@.priority == Some(job.priority)
            &&& builder@.processed_on == Some(job.processed_on)
            &&& builder@.attempts_started == Some(job.attempts_started)
            &&& builder@.attempts_made == job.attempts_made
        },
        r matches Err(e) ==> {
            let b = builder@;
            let missing = |field: Seq<char>| e@ == "missing field: "@ + field;
            if b.opts_err is Some {
                b.opts_err == Some(e@)
            } else if b.id is None {
                missing("id"@)
            } else if b.name is None {
                missing("name"@)
            } else if b.data is None {
                missing("data"@)
            } else if b.opts is None {
                missing("opts"@)
            } else if b.timestamp is None {
                missing("timestamp"@)
            } else if b.delay is None {
                missing("delay"@)
            } else if b.priority is None {
                missing("priority"@)
            } else if b.processed_on is None {
                missing("processedOn"@)
            } else {
                b.attempts_started is None && missing("ats"@)
            }
        },
{
}

/// A builder that was given a value for every field builds the job with those values.
pub proof fn law_built_as_given<Data>(
    b: Seq<JobBuilder<Data>>,
    job: Job<Data>,
    r: Result<Job<Data>, String>,
)
    requires
        b.len() == 10,
        call_ensures(JobBuilder::<Data>::new, (), b[0]),
        call_ensures(JobBuilder::<Data>::id, (b[0], job.id), b[1]),
        call_ensures(JobBuilder::<Data>::name, (b[1], job.name), b[2]),
        call_ensures(JobBuilder::<Data>::data, (b[2], job.data), b[3]),
        call_ensures(
            JobBuilder::<Data>::opts,
            (b[3], Ok::<JobOptions, String>(job.opts)),
            b[4],
        ),
        call_ensures(JobBuilder::<Data>::timestamp, (b[4], job.timestamp), b[5]),
        call_ensures(JobBuilder::<Data>::delay, (b[5], job.delay), b[6]),
        call_ensures(JobBuilder::<Data>::priority, (b[6], job.priority), b[7]),
        call_ensures(JobBuilder::<Data>::processed_on, (b[7], job.processed_on), b[8]),
        call_ensures(JobBuilder::<Data>::attempts_started, (b[8], job.attempts_started), b[9]),
        call_ensures(JobBuilder::<Data>::build, (b[9],), r),
        job.attempts_made is None,
    ensures
        r matches Ok(built) && built@ == job@,
{
}

/// A count of attempts is kept on the job, and options that could not be read make the job fail
/// with the reason.
pub proof fn law_attempts_and_bad_options<Data>(
    before: JobBuilder<Data>,
    made: u32,
    counted: JobBuilder<Data>,
    reason: String,
    failed: JobBuilder<Data>,
    r: Result<Job<Data>, String>,
)
    requires
        call_ensures(JobBuilder::<Data>::attempts_made, (before, made), counted),
        call_ensures(JobBuilder::<Data>::opts, (counted, Err::<JobOptions, String>(reason)), failed),
        call_ensures(JobBuilder::<Data>::build, (failed,), r),
    ensures
        counted@ == (JobFields { attempts_made: Some(made), ..before@ }),
        r is Err && r->Err_0@ == "invalid opts JSON: "@ + reason@,
{
}

} // verus!
