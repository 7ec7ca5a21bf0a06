//! Putting a failed job back to run at once: `retryJob-10.lua`.

use vstd::prelude::*;
use vstd::utf8::encode_utf8;
use crate::queue_keys::{keys_under, prefixed, QueueKeys};
use crate::reply::{law_number_field_reads_back, law_text_field_reads_back, number_field, text_field, RedisValue, ReplyError, ReplyErrorView};
use crate::scripts::{bytes_of, ScriptCall, ScriptCallView};
use crate::text::{decimal, decimal_text};

verus! {

/// What became of the retry.
#[derive(Debug, Clone, Copy, PartialEq, Eq, Structural)]
pub enum RetryJobReturn {
    Done,
    MissingKey,
    MissingLock,
}

impl RetryJobReturn {
    /// What a reply means: 0, -1 and -2, and nothing else, have a meaning.
    pub open spec fn meaning(v: RedisValue) -> Result<RetryJobReturn, ReplyErrorView> {
        match v {
            RedisValue::Int(code) => if code == 0 {
                Ok(RetryJobReturn::Done)
            } else if code == -1 {
                Ok(RetryJobReturn::MissingKey)
            } else if code == -2 {
                Ok(RetryJobReturn::MissingLock)
            } else {
                Err(ReplyErrorView::UnknownReturn)
            },
            _ => Err(ReplyErrorView::UnknownReturn),
        }
    }

    pub fn from_redis_value(v: &RedisValue) -> (r: Result<RetryJobReturn, ReplyError>)
        ensures
            match r {
                Ok(ret) => RetryJobReturn::meaning(*v) == Ok::<RetryJobReturn, ReplyErrorView>(ret),
                Err(e) => RetryJobReturn::meaning(*v) == Err::<RetryJobReturn, ReplyErrorView>(e@),
            },
    {
        match v {
            RedisValue::Int(code) => {
                if *code == 0 {
                    Ok(RetryJobReturn::Done)
                } else if *code == -1 {
                    Ok(RetryJobReturn::MissingKey)
                } else if *code == -2 {
                    Ok(RetryJobReturn::MissingLock)
                } else {
                    Err(ReplyError::UnknownReturn)
                }
            },
            _ => Err(ReplyError::UnknownReturn),
        }
    }

    /// Whether the job has been put back.
    pub fn is_recorded(&self) -> (recorded: bool)
        ensures
            recorded == (*self is Done),
    {
        match self {
            RetryJobReturn::Done => true,
            _ => false,
        }
    }
}

/// The names of the keys that the script takes, in order.
pub open spec fn key_names(job_id: Seq<char>) -> Seq<Seq<char>> {
    seq![
        "active"@,
        "wait"@,
        "paused"@,
        job_id,
        "meta"@,
        "events"@,
        "delayed"@,
        "prioritized"@,
        "pc"@,
        "marker"@,
    ]
}

/// The list command that puts the job back: to the end that is taken from first for a job that
/// jumps the queue, else to the other end.
pub open spec fn push_command(lifo: bool) -> Seq<char> {
    if lifo {
        "RPUSH"@
    } else {
        "LPUSH"@
    }
}

/// The script that puts a job back.
#[derive(Debug, Clone, Copy)]
pub struct RetryJob;

impl RetryJob {
    /// The call that puts a job back at the time `now`, in milliseconds since the Unix epoch.
    pub fn run(&self, prefix: &str, job_id: &str, token: &str, lifo: bool, now: u64) -> (call:
        ScriptCall)
        ensures
            call@ == (ScriptCallView {
                keys: keys_under(prefix@, key_names(job_id@)),
                args: seq![
                    encode_utf8(prefix@),
                    encode_utf8(decimal(now as nat)),
                    encode_utf8(push_command(lifo)),
                    encode_utf8(job_id@),
                    encode_utf8(token@),
                ],
            }),
    {
        let names: Vec<QueueKeys> = vec![
            QueueKeys::Active,
            QueueKeys::Wait,
            QueueKeys::Paused,
            QueueKeys::Custom(job_id.to_string()),
            QueueKeys::Meta,
            QueueKeys::Events,
            QueueKeys::Delayed,
            QueueKeys::Prioritized,
            QueueKeys::Pc,
            QueueKeys::Marker,
        ];
        let keys = prefixed(&names, prefix);
        proof {
            assert(crate::queue_keys::names_of(names@) =~= key_names(job_id@));
        }
        let push_cmd = if lifo {
            "RPUSH"
        } else {
            "LPUSH"
        };
        let args: Vec<Vec<u8>> = vec![
            bytes_of(prefix),
            bytes_of(decimal_text(now).as_str()),
            bytes_of(push_cmd),
            bytes_of(job_id),
            bytes_of(token),
        ];
        ScriptCall { keys, args }
    }
}

/// The script is told everything that it needs, and reads it back as it was: the prefix, the time,
/// the job and the token that holds its lock. It is given keys of this queue only. A job that
/// jumps the queue goes to the end that jobs are taken from, any other to the other end.
pub proof fn law_retry_call(
    prefix: &str,
    job_id: &str,
    token: &str,
    lifo: bool,
    now: u64,
    call: ScriptCall,
)
    requires
        call_ensures(RetryJob::run, (&RetryJob, prefix, job_id, token, lifo, now), call),
    ensures
        ({
            let args = call@.args;
            &&& args.len() == 5
            &&& text_field(args[0]) == Ok::<Seq<char>, ReplyErrorView>(prefix@)
            &&& number_field(args[1], ""@, u64::MAX as nat) == Ok::<nat, ReplyErrorView>(
                now as nat,
            )
            &&& lifo ==> text_field(args[2]) == Ok::<Seq<char>, ReplyErrorView>("RPUSH"@)
            &&& !lifo ==> text_field(args[2]) == Ok::<Seq<char>, ReplyErrorView>("LPUSH"@)
            &&& text_field(args[3]) == Ok::<Seq<char>, ReplyErrorView>(job_id@)
            &&& text_field(args[4]) == Ok::<Seq<char>, ReplyErrorView>(token@)
        }),
        call@.keys == seq![
            prefix@ + "active"@,
            prefix@ + "wait"@,
            prefix@ + "paused"@,
            prefix@ + job_id@,
            prefix@ + "meta"@,
            prefix@ + "events"@,
            prefix@ + "delayed"@,
            prefix@ + "prioritized"@,
            prefix@ + "pc"@,
            prefix@ + "marker"@,
        ],
{
    law_text_field_reads_back(prefix@);
    law_number_field_reads_back(now as nat, ""@, u64::MAX as nat);
    law_text_field_reads_back("RPUSH"@);
    law_text_field_reads_back("LPUSH"@);
    law_text_field_reads_back(job_id@);
    law_text_field_reads_back(token@);
    assert(call@.keys =~= seq![
        prefix@ + "active"@,
        prefix@ + "wait"@,
        prefix@ + "paused"@,
        prefix@ + job_id@,
        prefix@ + "meta"@,
        prefix@ + "events"@,
        prefix@ + "delayed"@,
        prefix@ + "prioritized"@,
        prefix@ + "pc"@,
        prefix@ + "marker"@,
    ]);
}

/// A retry counts as done for the reply 0 alone; -1 and -2 say what is missing, and nothing else
/// is a reply of the script.
pub proof fn law_retry_reply(v: RedisValue, r: Result<RetryJobReturn, ReplyError>, recorded: bool)
    requires
        call_ensures(RetryJobReturn::from_redis_value, (&v,), r),
        r matches Ok(ret) ==> call_ensures(RetryJobReturn::is_recorded, (&ret,), recorded),
    ensures
        r is Ok && recorded ==> v == RedisValue::Int(0),
        v == RedisValue::Int(0) ==> r is Ok && recorded,
        r matches Ok(ret) ==> {
            &&& ret is Done <==> v == RedisValue::Int(0)
            &&& ret is MissingKey <==> v is Int && v->Int_0 == -1
            &&& ret is MissingLock <==> v is Int && v->Int_0 == -2
        },
        r matches Err(e) ==> e@ is UnknownReturn && !(v is Int && -2 <= v->Int_0 <= 0),
{
}

} // verus!
