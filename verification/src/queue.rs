//! A queue that jobs are added to.

use vstd::prelude::*;
use vstd::utf8::encode_utf8;
use crate::kernel::backoff::BackoffStrategy;
use crate::kernel::job::KeepJobsConfig;
use crate::msgpack::{array_head, packed_bool, packed_map, packed_nil, packed_sint, packed_str, packed_uint};
use crate::queue_keys::{keys_under, law_prefix_injective, prefix_of, queue_prefix};
use crate::scripts::add_delayed_job::{law_delayed_keys, AddDelayedJob};
use crate::scripts::add_standard_job::{law_first_argument_unambiguous, law_options_by_name, law_options_unambiguous};
use crate::scripts::add_standard_job::{packed_args, packed_keep, AddStandardJob, AddStandardJobOpts};
use crate::scripts::{add_delayed_job, add_standard_job, ScriptCall, ScriptCallView};

verus! {

/// The options of a new job.
#[derive(Debug)]
pub struct AddJobOptions {
    /// Milliseconds before the job is processed for the first time.
    pub delay: Option<u64>,
    /// A number that is handed to the script and kept on the job. The library does not order jobs
    /// by it: without a delay the job joins the waiting list like any other.
    pub priority: Option<u32>,
    /// How often the job is tried.
    pub attempts: Option<u32>,
    pub backoff: Option<BackoffStrategy>,
    /// The job's id; without one an id is generated.
    pub job_id: Option<String>,
    /// Whether the job goes before those that wait.
    pub lifo: Option<bool>,
    pub remove_on_complete: Option<KeepJobsConfig>,
    pub remove_on_fail: Option<KeepJobsConfig>,
}

impl Default for AddJobOptions {
    fn default() -> (opts: Self)
        ensures
            opts == (AddJobOptions {
                delay: None,
                priority: None,
                attempts: None,
                backoff: None,
                job_id: None,
                lifo: None,
                remove_on_complete: None,
                remove_on_fail: None,
            }),
    {
        AddJobOptions {
            delay: None,
            priority: None,
            attempts: None,
            backoff: None,
            job_id: None,
            lifo: None,
            remove_on_complete: None,
            remove_on_fail: None,
        }
    }
}

impl AddJobOptions {
    /// Whether the job is to wait before it is processed for the first time.
    pub open spec fn is_delayed(self) -> bool {
        self.delay matches Some(ms) && ms > 0
    }

    /// The options that are packed for the script; the id goes separately.
    pub open spec fn packed_part(self) -> AddStandardJobOpts {
        AddStandardJobOpts {
            delay: self.delay,
            priority: self.priority,
            attempts: self.attempts,
            backoff: self.backoff,
            lifo: self.lifo,
            remove_on_complete: self.remove_on_complete,
            remove_on_fail: self.remove_on_fail,
        }
    }

    /// The id that the script is given; empty where it is to generate one.
    pub open spec fn custom_id(self) -> Seq<char> {
        match self.job_id {
            Some(id) => id@,
            None => ""@,
        }
    }
}

/// The script call that adds a job. Either script replies with the job's id.
#[derive(Debug)]
pub enum AddCall {
    /// A call of the script that puts the job onto the waiting list.
    Standard(ScriptCall),
    /// A call of the script that puts the job into the delayed set.
    Delayed(ScriptCall),
}

/// A call with its keys and arguments as sequences.
#[verifier::ext_equal]
pub enum AddCallView {
    Standard(ScriptCallView),
    Delayed(ScriptCallView),
}

impl View for AddCall {
    type V = AddCallView;

    open spec fn view(&self) -> AddCallView {
        match *self {
            AddCall::Standard(call) => AddCallView::Standard(call@),
            AddCall::Delayed(call) => AddCallView::Delayed(call@),
        }
    }
}

/// The call that adds a job to a queue: with a positive delay, also beside a priority, that of a
/// delayed job, else that of a job which may run at once.
pub open spec fn add_call(
    queue: Seq<char>,
    job_name: Seq<char>,
    data: Seq<char>,
    opts: AddJobOptions,
    now: u64,
) -> AddCallView {
    let (prefix, packed, id) = (queue_prefix(queue), opts.packed_part(), opts.custom_id());
    if opts.is_delayed() {
        AddCallView::Delayed(
            add_delayed_job::call_for(prefix, job_name, data, packed, id, now),
        )
    } else {
        AddCallView::Standard(
            add_standard_job::call_for(prefix, job_name, data, packed, id, now),
        )
    }
}

/// A queue, by its name.
#[derive(Debug)]
pub struct Queue {
    name: String,
}

impl View for Queue {
    type V = Seq<char>;

    closed spec fn view(&self) -> Seq<char> {
        self.name@
    }
}

impl Queue {
    pub fn new(name: String) -> (queue: Queue)
        ensures
            queue@ == name@,
    {
        Queue { name }
    }

    /// The script call that adds a job with the given JSON data at the time `now`, in
    /// milliseconds since the Unix epoch. A job with a delay goes to the delayed set, and the
    /// waiting list is not touched.
    pub fn add(&self, job_name: &str, json_data: &str, opts: AddJobOptions, now: u64) -> (call:
        AddCall)
        requires
            now <= i64::MAX,
        ensures
            call@ == add_call(self@, job_name@, json_data@, opts, now),
            match call@ {
                AddCallView::Delayed(delayed) => {
                    &&& opts.is_delayed()
                    &&& delayed.keys.contains(queue_prefix(self@) + "delayed"@)
                    &&& delayed.keys.contains(queue_prefix(self@) + "marker"@)
                    &&& !delayed.keys.contains(queue_prefix(self@) + "wait"@)
                },
                AddCallView::Standard(_) => !opts.is_delayed(),
            },
    {
        let prefix = prefix_of(self.name.as_str());
        let script_opts = AddStandardJobOpts {
            delay: opts.delay,
            priority: opts.priority,
            attempts: opts.attempts,
            backoff: opts.backoff,
            lifo: opts.lifo,
            remove_on_complete: opts.remove_on_complete,
            remove_on_fail: opts.remove_on_fail,
        };
        let delayed = match opts.delay {
            Some(ms) => ms > 0,
            None => false,
        };
        let custom_id = match opts.job_id {
            Some(id) => id,
            None => "".to_string(),
        };
        if delayed {
            proof {
                law_delayed_keys(prefix@);
            }
            AddCall::Delayed(
                AddDelayedJob.run(
                    prefix.as_str(),
                    job_name,
                    json_data,
                    &script_opts,
                    custom_id.as_str(),
                    now,
                ),
            )
        } else {
            AddCall::Standard(
                AddStandardJob.run(
                    prefix.as_str(),
                    job_name,
                    json_data,
                    &script_opts,
                    custom_id.as_str(),
                    now,
                ),
            )
        }
    }
}

/// What a script is called with to add a job.
pub open spec fn sent(call: AddCallView) -> ScriptCallView {
    match call {
        AddCallView::Standard(call) => call,
        AddCallView::Delayed(call) => call,
    }
}

/// Every option that is given reaches the script: the packed options are a map that holds, under
/// the name of each option that is set, the value that the caller set, and nothing else.
pub proof fn law_options_reach_script(
    queue: Queue,
    job_name: &str,
    data: &str,
    opts: AddJobOptions,
    now: u64,
    call: AddCall,
) -> (entries: Seq<(Seq<char>, Seq<u8>)>)
    requires
        call_ensures(Queue::add, (&queue, job_name, data, opts, now), call),
    ensures
        sent(call@).args.len() == 3,
        sent(call@).args[2] == packed_map(entries),
        forall|name: Seq<char>, value: Seq<u8>| #[trigger]
            entries.contains((name, value)) <==> {
                ||| (name == "delay"@ && opts.delay is Some && value == packed_uint(
                    opts.delay->0 as nat,
                ))
                ||| (name == "priority"@ && opts.priority is Some && value == packed_uint(
                    opts.priority->0 as nat,
                ))
                ||| (name == "attempts"@ && opts.attempts is Some && value == packed_uint(
                    opts.attempts->0 as nat,
                ))
                ||| (name == "backoff"@ && opts.backoff is Some && value
                    == opts.backoff->0.packed())
                ||| (name == "lifo"@ && opts.lifo is Some && value == packed_bool(opts.lifo->0))
                ||| (name == "removeOnComplete"@ && opts.remove_on_complete is Some && value
                    == packed_keep(opts.remove_on_complete->0))
                ||| (name == "removeOnFail"@ && opts.remove_on_fail is Some && value
                    == packed_keep(opts.remove_on_fail->0))
            },
{
    law_options_by_name(opts.packed_part())
}

/// Two adds that call a script with the same packed options were given the same options; two that
/// hand over the same data were given the same data.
pub proof fn law_adds_with_other_options_differ(
    queue: Queue,
    job_name: &str,
    data: &str,
    opts: AddJobOptions,
    now: u64,
    call: AddCall,
    other_queue: Queue,
    other_job_name: &str,
    other_data: &str,
    other_opts: AddJobOptions,
    other_now: u64,
    other_call: AddCall,
)
    requires
        call_ensures(Queue::add, (&queue, job_name, data, opts, now), call),
        call_ensures(
            Queue::add,
            (&other_queue, other_job_name, other_data, other_opts, other_now),
            other_call,
        ),
        sent(call@).args == sent(other_call@).args,
    ensures
        opts.delay == other_opts.delay,
        opts.priority == other_opts.priority,
        opts.attempts == other_opts.attempts,
        opts.backoff == other_opts.backoff,
        opts.lifo == other_opts.lifo,
        opts.remove_on_complete == other_opts.remove_on_complete,
        opts.remove_on_fail == other_opts.remove_on_fail,
        data@ == other_data@,
{
    let (a, b) = (sent(call@).args, sent(other_call@).args);
    assert(a[1] == encode_utf8(data@) && b[1] == encode_utf8(other_data@));
    assert(a[2] == opts.packed_part().packed() && b[2] == other_opts.packed_part().packed());
    law_options_unambiguous(opts.packed_part(), other_opts.packed_part());
    vstd::utf8::encode_utf8_decode_utf8(data@);
    vstd::utf8::encode_utf8_decode_utf8(other_data@);
}

/// Two adds that call a script with the same arguments were also made for the same queue at the
/// same time, with the same name for the job and the same id. No id and an empty one are the same:
/// with either the script generates one. A text is taken to be shorter than four gigabytes.
pub proof fn law_adds_of_other_jobs_differ(
    queue: Queue,
    job_name: &str,
    data: &str,
    opts: AddJobOptions,
    now: u64,
    call: AddCall,
    other_queue: Queue,
    other_job_name: &str,
    other_data: &str,
    other_opts: AddJobOptions,
    other_now: u64,
    other_call: AddCall,
)
    requires
        now <= i64::MAX,
        other_now <= i64::MAX,
        call_ensures(Queue::add, (&queue, job_name, data, opts, now), call),
        call_ensures(
            Queue::add,
            (&other_queue, other_job_name, other_data, other_opts, other_now),
            other_call,
        ),
        sent(call@).args == sent(other_call@).args,
        encode_utf8("bull:"@ + queue@ + ":"@).len() < 0x1_0000_0000,
        encode_utf8("bull:"@ + other_queue@ + ":"@).len() < 0x1_0000_0000,
        encode_utf8(job_name@).len() < 0x1_0000_0000,
        encode_utf8(other_job_name@).len() < 0x1_0000_0000,
        opts.job_id matches Some(id) ==> encode_utf8(id@).len() < 0x1_0000_0000,
        other_opts.job_id matches Some(id) ==> encode_utf8(id@).len() < 0x1_0000_0000,
    ensures
        queue@ == other_queue@,
        job_name@ == other_job_name@,
        now == other_now,
        opts.job_id is Some && other_opts.job_id is Some ==> opts.job_id->0@
            == other_opts.job_id->0@,
        opts.job_id is Some && other_opts.job_id is None ==> opts.job_id->0@.len() == 0,
{
    broadcast use vstd::utf8::is_ascii_chars_encode_utf8;
    reveal_strlit("");
    assert(vstd::utf8::is_ascii_chars(""@));
    assert(encode_utf8(""@).len() == 0);
    let (a, b) = (sent(call@).args, sent(other_call@).args);
    let (id, other_id) = (opts.custom_id(), other_opts.custom_id());
    assert(a[0] == packed_args(queue_prefix(queue@), job_name@, now as int, id));
    assert(b[0] == packed_args(
        queue_prefix(other_queue@),
        other_job_name@,
        other_now as int,
        other_id,
    ));
    law_first_argument_unambiguous(
        queue_prefix(queue@),
        job_name@,
        now as int,
        id,
        queue_prefix(other_queue@),
        other_job_name@,
        other_now as int,
        other_id,
    );
    law_prefix_injective(queue@, other_queue@);
}

/// Which script is called depends on the delay alone: with a positive one the job goes to the
/// delayed set, and else onto the waiting list. Both are given keys of this queue only, and in the
/// same places of their arguments the prefix, the id, the name and the time of the job, and its
/// data.
pub proof fn law_add_call_shape(
    queue: Queue,
    job_name: &str,
    data: &str,
    opts: AddJobOptions,
    now: u64,
    call: AddCall,
)
    requires
        call_ensures(Queue::add, (&queue, job_name, data, opts, now), call),
    ensures
        ({
            let prefix = "bull:"@ + queue@ + ":"@;
            let args = sent(call@).args;
            let id = match opts.job_id {
                Some(id) => id@,
                None => ""@,
            };
            let nil = packed_nil();
            &&& call@ is Delayed <==> opts.delay is Some && opts.delay->0 > 0
            &&& call@ is Delayed ==> sent(call@).keys == seq![
                prefix + "marker"@,
                prefix + "meta"@,
                prefix + "id"@,
                prefix + "delayed"@,
                prefix + "completed"@,
                prefix + "events"@,
            ]
            &&& call@ is Standard ==> sent(call@).keys == seq![
                prefix + "wait"@,
                prefix + "paused"@,
                prefix + "meta"@,
                prefix + "id"@,
                prefix + "completed"@,
                prefix + "events"@,
                prefix + "marker"@,
            ]
            &&& args.len() == 3
            &&& args[0] == array_head(9) + packed_str(prefix) + packed_str(id) + packed_str(
                job_name@,
            ) + packed_sint(now as int) + nil + nil + nil + nil + nil
            &&& args[1] == encode_utf8(data@)
        }),
{
    let prefix = queue_prefix(queue@);
    assert(keys_under(prefix, add_delayed_job::key_names()) =~= seq![
        prefix + "marker"@,
        prefix + "meta"@,
        prefix + "id"@,
        prefix + "delayed"@,
        prefix + "completed"@,
        prefix + "events"@,
    ]);
    assert(keys_under(prefix, add_standard_job::key_names()) =~= seq![
        prefix + "wait"@,
        prefix + "paused"@,
        prefix + "meta"@,
        prefix + "id"@,
        prefix + "completed"@,
        prefix + "events"@,
        prefix + "marker"@,
    ]);
}

} // verus!
