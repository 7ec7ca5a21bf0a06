//! Finishing a job, as completed or as failed: `moveToFinished-14.lua`.

use vstd::prelude::*;
use vstd::utf8::encode_utf8;
use crate::kernel::job::KeepJobs;
use crate::msgpack::{lemma_no_entries, lemma_with_entry, packed_map, with_entry};
use crate::msgpack::{map_head, packed_bool, packed_sint, packed_str, packed_uint};
use crate::msgpack::{write_bool, write_map_len, write_sint, write_str, write_uint};
use crate::queue_keys::{keys_under, prefixed, QueueKeys};
use crate::reply::{law_number_field_reads_back, law_text_field_reads_back, number_field, text_field, RedisValue, ReplyError, ReplyErrorView};
use crate::scripts::{bytes_of, ScriptCall, ScriptCallView};
use crate::text::{decimal, decimal_text, join};

verus! {

/// How a job ended.
#[derive(Debug, Clone, Copy, PartialEq, Eq, Structural)]
pub enum MoveToFinishedTarget {
    Completed,
    Failed,
}

impl MoveToFinishedTarget {
    /// The name of the set that the job ends in.
    pub open spec fn text(self) -> Seq<char> {
        match self {
            MoveToFinishedTarget::Completed => "completed"@,
            MoveToFinishedTarget::Failed => "failed"@,
        }
    }

    pub fn as_str(&self) -> (name: &'static str)
        ensures
            name@ == self.text(),
    {
        match self {
            MoveToFinishedTarget::Completed => "completed",
            MoveToFinishedTarget::Failed => "failed",
        }
    }
}

/// The packed argument of the script.
#[derive(Debug)]
pub struct MoveToFinishedArgs {
    pub token: String,
    pub keep_jobs: KeepJobs,
    pub lock_duration: u64,
    pub max_attempts: u32,
    pub max_metrics_size: u32,
    pub fail_parent_on_fail: bool,
    pub remove_dependency_on_fail: bool,
}

/// The argument with its token as a character sequence.
#[verifier::ext_equal]
pub struct MoveToFinishedArgsView {
    pub token: Seq<char>,
    pub keep_jobs: KeepJobs,
    pub lock_duration: u64,
    pub max_attempts: u32,
    pub max_metrics_size: u32,
    pub fail_parent_on_fail: bool,
    pub remove_dependency_on_fail: bool,
}

impl View for MoveToFinishedArgs {
    type V = MoveToFinishedArgsView;

    open spec fn view(&self) -> MoveToFinishedArgsView {
        MoveToFinishedArgsView {
            token: self.token@,
            keep_jobs: self.keep_jobs,
            lock_duration: self.lock_duration,
            max_attempts: self.max_attempts,
            max_metrics_size: self.max_metrics_size,
            fail_parent_on_fail: self.fail_parent_on_fail,
            remove_dependency_on_fail: self.remove_dependency_on_fail,
        }
    }
}

impl MoveToFinishedTarget {
    /// The field of the job's hash that takes the return value or the reason of the failure.
    pub open spec fn property(self) -> Seq<char> {
        match self {
            MoveToFinishedTarget::Completed => "returnvalue"@,
            MoveToFinishedTarget::Failed => "failedReason"@,
        }
    }
}

/// How many finished jobs to keep, as a map; without an age its entry is left out.
pub open spec fn packed_keep_jobs(keep: KeepJobs) -> Seq<u8> {
    match keep.age {
        Some(age) => map_head(2) + packed_str("count"@) + packed_sint(keep.count as int)
            + packed_str("age"@) + packed_sint(age as int),
        None => map_head(1) + packed_str("count"@) + packed_sint(keep.count as int),
    }
}

fn pack_keep_jobs(buf: &mut Vec<u8>, keep: &KeepJobs)
    ensures
        final(buf)@ == old(buf)@ + packed_keep_jobs(*keep),
{
    let len: u32 = if keep.age.is_some() {
        2
    } else {
        1
    };
    write_map_len(buf, len);
    write_str(buf, "count");
    write_sint(buf, keep.count as i64);
    if let Some(age) = keep.age {
        write_str(buf, "age");
        write_sint(buf, age as i64);
    }
}

impl MoveToFinishedArgsView {
    /// The argument as a MessagePack map with named keys.
    pub open spec fn packed(self) -> Seq<u8> {
        map_head(7) + packed_str("token"@) + packed_str(self.token) + packed_str("keepJobs"@)
            + packed_keep_jobs(self.keep_jobs) + packed_str("lockDuration"@) + packed_uint(
            self.lock_duration as nat,
        ) + packed_str("attempts"@) + packed_uint(self.max_attempts as nat) + packed_str(
            "maxMetricsSize"@,
        ) + packed_uint(self.max_metrics_size as nat) + packed_str("fpof"@) + packed_bool(
            self.fail_parent_on_fail,
        ) + packed_str("rdof"@) + packed_bool(self.remove_dependency_on_fail)
    }
}

impl MoveToFinishedArgs {
    /// Packs the argument for the script, which reads it by name.
    pub fn to_msgpack(&self) -> (bytes: Vec<u8>)
        ensures
            bytes@ == self@.packed(),
    {
        let mut buf: Vec<u8> = Vec::new();
        write_map_len(&mut buf, 7);
        write_str(&mut buf, "token");
        write_str(&mut buf, self.token.as_str());
        write_str(&mut buf, "keepJobs");
        pack_keep_jobs(&mut buf, &self.keep_jobs);
        write_str(&mut buf, "lockDuration");
        write_uint(&mut buf, self.lock_duration);
        write_str(&mut buf, "attempts");
        write_uint(&mut buf, self.max_attempts as u64);
        write_str(&mut buf, "maxMetricsSize");
        write_uint(&mut buf, self.max_metrics_size as u64);
        write_str(&mut buf, "fpof");
        write_bool(&mut buf, self.fail_parent_on_fail);
        write_str(&mut buf, "rdof");
        write_bool(&mut buf, self.remove_dependency_on_fail);
        buf
    }
}

/// The names of the keys that the script takes, in order.
pub open spec fn key_names(job_id: Seq<char>, target: MoveToFinishedTarget) -> Seq<Seq<char>> {
    seq![
        "wait"@,
        "active"@,
        "prioritized"@,
        "events"@,
        "stalled"@,
        "limiter"@,
        "delayed"@,
        "paused"@,
        "meta"@,
        "pc"@,
        target.text(),
        job_id,
        "metrics:"@ + target.text(),
        "marker"@,
    ]
}

/// The script that finishes a job.
#[derive(Debug, Clone, Copy)]
pub struct MoveToFinished;

impl MoveToFinished {
    /// The call that finishes a job at the time `now`, in milliseconds since the Unix epoch,
    /// without asking for a next job. `value` is the return value or the reason of the failure.
    pub fn run(
        &self,
        prefix: &str,
        job_id: &str,
        value: &str,
        target: MoveToFinishedTarget,
        args: &MoveToFinishedArgs,
        now: u64,
    ) -> (call: ScriptCall)
        ensures
            call@ == (ScriptCallView {
                keys: keys_under(prefix@, key_names(job_id@, target)),
                args: seq![
                    encode_utf8(job_id@),
                    encode_utf8(decimal(now as nat)),
                    encode_utf8(target.property()),
                    encode_utf8(value@),
                    encode_utf8(target.text()),
                    encode_utf8(""@),
                    encode_utf8(prefix@),
                    args@.packed(),
                ],
            }),
    {
        let names: Vec<QueueKeys> = vec![
            QueueKeys::Wait,
            QueueKeys::Active,
            QueueKeys::Prioritized,
            QueueKeys::Events,
            QueueKeys::Stalled,
            QueueKeys::Limiter,
            QueueKeys::Delayed,
            QueueKeys::Paused,
            QueueKeys::Meta,
            QueueKeys::Pc,
            QueueKeys::Custom(target.as_str().to_string()),
            QueueKeys::Custom(job_id.to_string()),
            QueueKeys::Custom(join("metrics:", target.as_str())),
            QueueKeys::Marker,
        ];
        let keys = prefixed(&names, prefix);
        proof {
            assert(crate::queue_keys::names_of(names@) =~= key_names(job_id@, target));
        }
        let property = match target {
            MoveToFinishedTarget::Completed => "returnvalue",
            MoveToFinishedTarget::Failed => "failedReason",
        };
        let args: Vec<Vec<u8>> = vec![
            bytes_of(job_id),
            bytes_of(decimal_text(now).as_str()),
            bytes_of(property),
            bytes_of(value),
            bytes_of(target.as_str()),
            bytes_of(""),
            bytes_of(prefix),
            args.to_msgpack(),
        ];
        ScriptCall { keys, args }
    }
}

/// What became of finishing a job.
#[derive(Debug, Clone, Copy, PartialEq, Eq, Structural)]
pub enum MoveToFinishedReturn {
    Done,
    MissingKey,
    MissingLock,
}

impl MoveToFinishedReturn {
    /// What a reply means: 0, -1 and -2, and nothing else, have a meaning.
    pub open spec fn meaning(v: RedisValue) -> Result<MoveToFinishedReturn, ReplyErrorView> {
        match v {
            RedisValue::Int(code) => if code == 0 {
                Ok(MoveToFinishedReturn::Done)
            } else if code == -1 {
                Ok(MoveToFinishedReturn::MissingKey)
            } else if code == -2 {
                Ok(MoveToFinishedReturn::MissingLock)
            } else {
                Err(ReplyErrorView::UnknownReturn)
            },
            _ => Err(ReplyErrorView::UnknownReturn),
        }
    }

    pub fn from_redis_value(v: &RedisValue) -> (r: Result<MoveToFinishedReturn, ReplyError>)
        ensures
            match r {
                Ok(ret) => MoveToFinishedReturn::meaning(*v) == Ok::<
                    MoveToFinishedReturn,
                    ReplyErrorView,
                >(ret),
                Err(e) => MoveToFinishedReturn::meaning(*v) == Err::<
                    MoveToFinishedReturn,
                    ReplyErrorView,
                >(e@),
            },
    {
        match v {
            RedisValue::Int(code) => {
                if *code == 0 {
                    Ok(MoveToFinishedReturn::Done)
                } else if *code == -1 {
                    Ok(MoveToFinishedReturn::MissingKey)
                } else if *code == -2 {
                    Ok(MoveToFinishedReturn::MissingLock)
                } else {
                    Err(ReplyError::UnknownReturn)
                }
            },
            _ => Err(ReplyError::UnknownReturn),
        }
    }

    /// Whether the job's end has been recorded.
    pub fn is_recorded(&self) -> (recorded: bool)
        ensures
            recorded == (*self is Done),
    {
        match self {
            MoveToFinishedReturn::Done => true,
            _ => false,
        }
    }
}

/// The script is told everything about the end of the job, and reads it back as it was: the job,
/// the time, the value under the field that it belongs in, the set that the job ends in, and the
/// prefix.
pub proof fn law_finish_call(
    prefix: &str,
    job_id: &str,
    value: &str,
    target: MoveToFinishedTarget,
    args: MoveToFinishedArgs,
    now: u64,
    call: ScriptCall,
)
    requires
        call_ensures(
            MoveToFinished::run,
            (&MoveToFinished, prefix, job_id, value, target, &args, now),
            call,
        ),
    ensures
        ({
            let sent = call@.args;
            let (field, set) = match target {
                MoveToFinishedTarget::Completed => ("returnvalue"@, "completed"@),
                MoveToFinishedTarget::Failed => ("failedReason"@, "failed"@),
            };
            &&& sent.len() == 8
            &&& text_field(sent[0]) == Ok::<Seq<char>, ReplyErrorView>(job_id@)
            &&& number_field(sent[1], ""@, u64::MAX as nat) == Ok::<nat, ReplyErrorView>(
                now as nat,
            )
            &&& text_field(sent[2]) == Ok::<Seq<char>, ReplyErrorView>(field)
            &&& text_field(sent[3]) == Ok::<Seq<char>, ReplyErrorView>(value@)
            &&& text_field(sent[4]) == Ok::<Seq<char>, ReplyErrorView>(set)
            &&& text_field(sent[5]) == Ok::<Seq<char>, ReplyErrorView>(""@)
            &&& text_field(sent[6]) == Ok::<Seq<char>, ReplyErrorView>(prefix@)
        }),
{
    law_text_field_reads_back(job_id@);
    law_number_field_reads_back(now as nat, ""@, u64::MAX as nat);
    law_text_field_reads_back(target.property());
    law_text_field_reads_back(value@);
    law_text_field_reads_back(target.text());
    law_text_field_reads_back(""@);
    law_text_field_reads_back(prefix@);
}

/// The script is given keys of this queue only: the job's own, and the set and the metrics of the
/// end that the job has come to.
pub proof fn law_finish_keys(
    prefix: &str,
    job_id: &str,
    value: &str,
    target: MoveToFinishedTarget,
    args: MoveToFinishedArgs,
    now: u64,
    call: ScriptCall,
)
    requires
        call_ensures(
            MoveToFinished::run,
            (&MoveToFinished, prefix, job_id, value, target, &args, now),
            call,
        ),
    ensures
        ({
            let keys = call@.keys;
            &&& keys.len() == 14
            &&& keys[0] == prefix@ + "wait"@ && keys[1] == prefix@ + "active"@
            &&& keys[2] == prefix@ + "prioritized"@ && keys[3] == prefix@ + "events"@
            &&& keys[4] == prefix@ + "stalled"@ && keys[5] == prefix@ + "limiter"@
            &&& keys[6] == prefix@ + "delayed"@ && keys[7] == prefix@ + "paused"@
            &&& keys[8] == prefix@ + "meta"@ && keys[9] == prefix@ + "pc"@
            &&& target is Completed ==> keys[10] == prefix@ + "completed"@ && keys[12] == prefix@
                + ("metrics:"@ + "completed"@)
            &&& target is Failed ==> keys[10] == prefix@ + "failed"@ && keys[12] == prefix@ + (
            "metrics:"@ + "failed"@)
            &&& keys[11] == prefix@ + job_id@ && keys[13] == prefix@ + "marker"@
        }),
{
    let names = key_names(job_id@, target);
    assert(call@.keys == keys_under(prefix@, names));
    assert forall|i: int| 0 <= i < 14 implies #[trigger] call@.keys[i] == prefix@ + names[i] by {
    }
}

/// How many jobs to keep is packed as a map with the count and, where there is one, the age.
pub proof fn law_kept_by_name(keep: KeepJobs)
    ensures
        keep.age is None ==> packed_keep_jobs(keep) == packed_map(
            seq![("count"@, packed_sint(keep.count as int))],
        ),
        keep.age is Some ==> packed_keep_jobs(keep) == packed_map(
            seq![
                ("count"@, packed_sint(keep.count as int)),
                ("age"@, packed_sint(keep.age->0 as int)),
            ],
        ),
{
    let none = Seq::<(Seq<char>, Seq<u8>)>::empty();
    let count = Some(packed_sint(keep.count as int));
    let one = with_entry(none, "count"@, count);
    assert(one =~= seq![("count"@, packed_sint(keep.count as int))]);
    match keep.age {
        Some(age) => {
            let head = map_head(2);
            let packed_age = Some(packed_sint(age as int));
            lemma_no_entries(head);
            lemma_with_entry(head, none, "count"@, count);
            lemma_with_entry(head, one, "age"@, packed_age);
            assert(with_entry(one, "age"@, packed_age) =~= seq![
                ("count"@, packed_sint(keep.count as int)),
                ("age"@, packed_sint(age as int)),
            ]);
        },
        None => {
            let head = map_head(1);
            lemma_no_entries(head);
            lemma_with_entry(head, none, "count"@, count);
        },
    }
}

/// The last argument of the call is a map that holds each setting under its name, as it was given.
pub proof fn law_finish_argument_by_name(
    prefix: &str,
    job_id: &str,
    value: &str,
    target: MoveToFinishedTarget,
    args: MoveToFinishedArgs,
    now: u64,
    call: ScriptCall,
)
    requires
        call_ensures(
            MoveToFinished::run,
            (&MoveToFinished, prefix, job_id, value, target, &args, now),
            call,
        ),
    ensures
        call@.args[7] == packed_map(
            seq![
                ("token"@, packed_str(args.token@)),
                ("keepJobs"@, packed_keep_jobs(args.keep_jobs)),
                ("lockDuration"@, packed_uint(args.lock_duration as nat)),
                ("attempts"@, packed_uint(args.max_attempts as nat)),
                ("maxMetricsSize"@, packed_uint(args.max_metrics_size as nat)),
                ("fpof"@, packed_bool(args.fail_parent_on_fail)),
                ("rdof"@, packed_bool(args.remove_dependency_on_fail)),
            ],
        ),
{
    let head = map_head(7);
    let v1 = packed_str(args.token@);
    let v2 = packed_keep_jobs(args.keep_jobs);
    let v3 = packed_uint(args.lock_duration as nat);
    let v4 = packed_uint(args.max_attempts as nat);
    let v5 = packed_uint(args.max_metrics_size as nat);
    let v6 = packed_bool(args.fail_parent_on_fail);
    let v7 = packed_bool(args.remove_dependency_on_fail);
    let e0 = Seq::<(Seq<char>, Seq<u8>)>::empty();
    let e1 = with_entry(e0, "token"@, Some(v1));
    let e2 = with_entry(e1, "keepJobs"@, Some(v2));
    let e3 = with_entry(e2, "lockDuration"@, Some(v3));
    let e4 = with_entry(e3, "attempts"@, Some(v4));
    let e5 = with_entry(e4, "maxMetricsSize"@, Some(v5));
    let e6 = with_entry(e5, "fpof"@, Some(v6));
    let e7 = with_entry(e6, "rdof"@, Some(v7));
    lemma_no_entries(head);
    lemma_with_entry(head, e0, "token"@, Some(v1));
    lemma_with_entry(head, e1, "keepJobs"@, Some(v2));
    lemma_with_entry(head, e2, "lockDuration"@, Some(v3));
    lemma_with_entry(head, e3, "attempts"@, Some(v4));
    lemma_with_entry(head, e4, "maxMetricsSize"@, Some(v5));
    lemma_with_entry(head, e5, "fpof"@, Some(v6));
    lemma_with_entry(head, e6, "rdof"@, Some(v7));
    assert(e7 =~= seq![
        ("token"@, v1),
        ("keepJobs"@, v2),
        ("lockDuration"@, v3),
        ("attempts"@, v4),
        ("maxMetricsSize"@, v5),
        ("fpof"@, v6),
        ("rdof"@, v7),
    ]);
    assert(call@.args[7] == args@.packed());
}

/// The end of a job counts as recorded for the reply 0 alone; -1 and -2 say what is missing, and
/// nothing else is a reply of the script.
pub proof fn law_finish_reply(
    v: RedisValue,
    r: Result<MoveToFinishedReturn, ReplyError>,
    recorded: bool,
)
    requires
        call_ensures(MoveToFinishedReturn::from_redis_value, (&v,), r),
        r matches Ok(ret) ==> call_ensures(MoveToFinishedReturn::is_recorded, (&ret,), recorded),
    ensures
        r is Ok && recorded ==> v == RedisValue::Int(0),
        v == RedisValue::Int(0) ==> r is Ok && recorded,
        r matches Ok(ret) ==> {
            &&& ret is Done <==> v == RedisValue::Int(0)
            &&& ret is MissingKey <==> v is Int && v->Int_0 == -1
            &&& ret is MissingLock <==> v is Int && v->Int_0 == -2
        },
        r matches Err(e) ==> e@ is UnknownReturn && !(v is Int && -2 <= v->Int_0 <= 0),
{
}

} // verus!
