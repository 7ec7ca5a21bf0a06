//! Taking the next job to work on: `moveToActive-11.lua`.

use vstd::prelude::*;
use vstd::utf8::encode_utf8;
use crate::kernel::job::{Job, JobBuilder, JobFields, JobOptions, JobView};
use crate::msgpack::{law_str_unambiguous, law_uint_unambiguous, lemma_cut, lemma_same_rest};
use crate::msgpack::{lemma_no_entries, lemma_with_entry, packed_map, with_entry};
use crate::msgpack::{map_head, packed_str, packed_uint, write_map_len, write_str, write_uint};
use crate::queue_keys::{keys_under, prefixed, QueueKeys};
use crate::reply::{law_number_field_reads_back, law_text_field_reads_back};
use crate::reply::{number_field, parse_redis_field, parse_redis_str, text_field, RedisValue, ReplyError, ReplyErrorView};
use crate::scripts::stored_job::lemma_names;
use crate::scripts::{bytes_of, ScriptCall, ScriptCallView};
use crate::text::{decimal, decimal_text, join, same_text};

verus! {

/// At most `max` jobs are taken in `duration` milliseconds.
#[derive(Debug, Clone, Copy, PartialEq, Eq, Structural)]
pub struct Limiter {
    pub max: u32,
    pub duration: u64,
}

/// The packed argument of the script.
#[derive(Debug)]
pub struct MoveToActiveArgs {
    pub token: String,
    pub lock_duration: u32,
    pub limiter: Option<Limiter>,
}

impl Limiter {
    pub open spec fn packed(self) -> Seq<u8> {
        map_head(2) + packed_str("max"@) + packed_uint(self.max as nat) + packed_str("duration"@)
            + packed_uint(self.duration as nat)
    }
}

/// The script's argument as a MessagePack map with named keys. Without a limiter its entry is
/// left out.
pub open spec fn packed_args(token: Seq<char>, lock_duration: nat, limiter: Option<Limiter>) -> Seq<
    u8,
> {
    match limiter {
        Some(limiter) => map_head(3) + packed_str("token"@) + packed_str(token) + packed_str(
            "lockDuration"@,
        ) + packed_uint(lock_duration) + packed_str("limiter"@) + limiter.packed(),
        None => map_head(2) + packed_str("token"@) + packed_str(token) + packed_str(
            "lockDuration"@,
        ) + packed_uint(lock_duration),
    }
}

impl MoveToActiveArgs {
    /// Packs the argument for the script, which reads it by name.
    pub fn to_msgpack(&self) -> (bytes: Vec<u8>)
        ensures
            bytes@ == packed_args(self.token@, self.lock_duration as nat, self.limiter),
    {
        let mut buf: Vec<u8> = Vec::new();
        let len: u32 = if self.limiter.is_some() {
            3
        } else {
            2
        };
        write_map_len(&mut buf, len);
        write_str(&mut buf, "token");
        write_str(&mut buf, self.token.as_str());
        write_str(&mut buf, "lockDuration");
        write_uint(&mut buf, self.lock_duration as u64);
        if let Some(limiter) = &self.limiter {
            write_str(&mut buf, "limiter");
            write_map_len(&mut buf, 2);
            write_str(&mut buf, "max");
            write_uint(&mut buf, limiter.max as u64);
            write_str(&mut buf, "duration");
            write_uint(&mut buf, limiter.duration);
        }
        buf
    }
}

/// Grouping from the right instead of from the left.
proof fn lemma_regroup(
    h: Seq<u8>,
    k1: Seq<u8>,
    token: Seq<u8>,
    k2: Seq<u8>,
    duration: Seq<u8>,
    rest: Seq<u8>,
)
    ensures
        h + k1 + token + k2 + duration + rest == (h + k1) + (token + (k2 + (duration + rest))),
{
    assert(h + k1 + token + k2 + duration + rest =~= (h + k1) + (token + (k2 + (duration
        + rest))));
}

/// The part of the argument that says how many jobs may be taken.
spec fn limiter_part(limiter: Option<Limiter>) -> Seq<u8> {
    match limiter {
        Some(limiter) => packed_str("limiter"@) + limiter.packed(),
        None => Seq::empty(),
    }
}

/// Different limiters are packed differently.
proof fn lemma_limiter(a: Limiter, b: Limiter)
    requires
        a.packed() == b.packed(),
    ensures
        a == b,
{
    let start = map_head(2) + packed_str("max"@);
    let key = packed_str("duration"@);
    let (m, n) = (packed_uint(a.max as nat), packed_uint(b.max as nat));
    let (u, v) = (packed_uint(a.duration as nat), packed_uint(b.duration as nat));
    let none = Seq::<u8>::empty();
    assert(start + m + key + u =~= start + (m + (key + (u + none))));
    assert(start + n + key + v =~= start + (n + (key + (v + none))));
    lemma_same_rest(start, m + (key + (u + none)), n + (key + (v + none)));
    law_uint_unambiguous(a.max as nat, b.max as nat, key + (u + none), key + (v + none));
    lemma_same_rest(key, u + none, v + none);
    law_uint_unambiguous(a.duration as nat, b.duration as nat, none, none);
}

/// The argument tells the script everything that went into it.
pub proof fn law_argument_unambiguous(
    token: Seq<char>,
    lock_duration: u32,
    limiter: Option<Limiter>,
    other_token: Seq<char>,
    other_lock_duration: u32,
    other_limiter: Option<Limiter>,
)
    requires
        encode_utf8(token).len() < 0x1_0000_0000,
        encode_utf8(other_token).len() < 0x1_0000_0000,
        packed_args(token, lock_duration as nat, limiter) == packed_args(
            other_token,
            other_lock_duration as nat,
            other_limiter,
        ),
    ensures
        token == other_token,
        lock_duration == other_lock_duration,
        limiter == other_limiter,
{
    let a = packed_args(token, lock_duration as nat, limiter);
    let b = packed_args(other_token, other_lock_duration as nat, other_limiter);
    let (g, h) = (
        map_head(2 + if limiter is Some {
            1nat
        } else {
            0nat
        }),
        map_head(2 + if other_limiter is Some {
            1nat
        } else {
            0nat
        }),
    );
    let (k1, k2) = (packed_str("token"@), packed_str("lockDuration"@));
    let (s, t) = (packed_str(token), packed_str(other_token));
    let (m, n) = (packed_uint(lock_duration as nat), packed_uint(other_lock_duration as nat));
    let (x, y) = (limiter_part(limiter), limiter_part(other_limiter));
    lemma_regroup(g, k1, s, k2, m, x);
    lemma_regroup(h, k1, t, k2, n, y);
    lemma_limiter_last(g + k1 + s + k2 + m, limiter);
    lemma_limiter_last(h + k1 + t + k2 + n, other_limiter);
    assert(a == (g + k1) + (s + (k2 + (m + x))));
    assert(b == (h + k1) + (t + (k2 + (n + y))));
    lemma_cut(g + k1, h + k1, s + (k2 + (m + x)), t + (k2 + (n + y)));
    assert((g + k1)[0] == g[0] && (h + k1)[0] == h[0]);
    law_str_unambiguous(token, other_token, k2 + (m + x), k2 + (n + y));
    lemma_same_rest(k2, m + x, n + y);
    law_uint_unambiguous(lock_duration as nat, other_lock_duration as nat, x, y);
    if limiter is Some {
        let key = packed_str("limiter"@);
        lemma_same_rest(key, limiter->0.packed(), other_limiter->0.packed());
        lemma_limiter(limiter->0, other_limiter->0);
    }
}

/// The limiter's entry stands last, or is not there.
proof fn lemma_limiter_last(start: Seq<u8>, limiter: Option<Limiter>)
    ensures
        start + limiter_part(limiter) == match limiter {
            Some(limiter) => start + packed_str("limiter"@) + limiter.packed(),
            None => start,
        },
{
    match limiter {
        Some(limiter) => {
            let (key, packed) = (packed_str("limiter"@), limiter.packed());
            assert(start + (key + packed) =~= start + key + packed);
        },
        None => {
            assert(start + Seq::<u8>::empty() =~= start);
        },
    }
}

/// The names of the keys that the script takes, in order.
pub open spec fn key_names() -> Seq<Seq<char>> {
    seq![
        "wait"@,
        "active"@,
        "prioritized"@,
        "events"@,
        "stalled"@,
        "limiter"@,
        "delayed"@,
        "paused"@,
        "meta"@,
        "pc"@,
        "marker"@,
    ]
}

/// The script that takes the next job.
#[derive(Debug, Clone, Copy)]
pub struct MoveToActive;

impl MoveToActive {
    /// The call that takes the next job at the time `now`, in milliseconds since the Unix epoch.
    pub fn run(&self, prefix: &str, opts: &MoveToActiveArgs, now: u64) -> (call: ScriptCall)
        ensures
            call@ == (ScriptCallView {
                keys: keys_under(prefix@, key_names()),
                args: seq![
                    encode_utf8(prefix@),
                    encode_utf8(decimal(now as nat)),
                    packed_args(opts.token@, opts.lock_duration as nat, opts.limiter),
                ],
            }),
    {
        let names: Vec<QueueKeys> = vec![
            QueueKeys::Wait,
            QueueKeys::Active,
            QueueKeys::Prioritized,
            QueueKeys::Events,
            QueueKeys::Stalled,
            QueueKeys::Limiter,
            QueueKeys::Delayed,
            QueueKeys::Paused,
            QueueKeys::Meta,
            QueueKeys::Pc,
            QueueKeys::Marker,
        ];
        let keys = prefixed(&names, prefix);
        proof {
            assert(crate::queue_keys::names_of(names@) =~= key_names());
        }
        let args: Vec<Vec<u8>> = vec![
            bytes_of(prefix),
            bytes_of(decimal_text(now).as_str()),
            opts.to_msgpack(),
        ];
        ScriptCall { keys, args }
    }
}

/// What the script found.
#[derive(Debug)]
pub enum MoveToActiveReturn<JobData> {
    Job(Job<JobData>),
    /// There is no job to take.
    Empty,
    /// No job may be taken for this many milliseconds.
    RateLimited(u64),
}

/// What the script found, with texts as character sequences.
#[verifier::ext_equal]
pub enum FoundView<JobData> {
    Job(JobView<JobData>),
    Empty,
    RateLimited(u64),
}

impl<JobData> View for MoveToActiveReturn<JobData> {
    type V = FoundView<JobData>;

    open spec fn view(&self) -> FoundView<JobData> {
        match *self {
            MoveToActiveReturn::Job(job) => FoundView::Job(job@),
            MoveToActiveReturn::Empty => FoundView::Empty,
            MoveToActiveReturn::RateLimited(ms) => FoundView::RateLimited(ms),
        }
    }
}

/// What a field of a job's hash contributes, given what the readers of the job's data and
/// options make of their fields. `after` holds the fields once this one is read, or the error.
pub open spec fn field_read<
    JobData,
    DecodeData: Fn(&Vec<u8>) -> Result<JobData, String>,
    DecodeOpts: Fn(&Vec<u8>) -> Result<JobOptions, String>,
>(
    decode_data: DecodeData,
    decode_opts: DecodeOpts,
    key: Vec<u8>,
    value: Vec<u8>,
    before: JobFields<JobData>,
    after: Result<JobFields<JobData>, ReplyErrorView>,
) -> bool {
    match text_field(key@) {
        Err(e) => after == Err::<JobFields<JobData>, ReplyErrorView>(e),
        Ok(name) => if name == "name"@ {
            after == match text_field(value@) {
                Ok(text) => Ok(JobFields { name: Some(text), ..before }),
                Err(e) => Err(e),
            }
        } else if name == "data"@ {
            exists|decoded: Result<JobData, String>| #[trigger]
                call_ensures(decode_data, (&value,), decoded) && after == match decoded {
                    Ok(data) => Ok(JobFields { data: Some(data), ..before }),
                    Err(e) => Err(ReplyErrorView::JobParse("invalid data: "@ + e@)),
                }
        } else if name == "opts"@ {
            match text_field(value@) {
                Ok(_) => exists|decoded: Result<JobOptions, String>| #[trigger]
                    call_ensures(decode_opts, (&value,), decoded) && after == Ok::<
                        JobFields<JobData>,
                        ReplyErrorView,
                    >(
                        before.with_opts(
                            match decoded {
                                Ok(o) => Ok(o),
                                Err(e) => Err(e@),
                            },
                        ),
                    ),
                Err(e) => after == Err::<JobFields<JobData>, ReplyErrorView>(e),
            }
        } else if name == "timestamp"@ {
            after == match number_field(value@, name, u64::MAX as nat) {
                Ok(n) => Ok(JobFields { timestamp: Some(n as u64), ..before }),
                Err(e) => Err(e),
            }
        } else if name == "delay"@ {
            after == match number_field(value@, name, u64::MAX as nat) {
                Ok(n) => Ok(JobFields { delay: Some(n as u64), ..before }),
                Err(e) => Err(e),
            }
        } else if name == "priority"@ {
            after == match number_field(value@, name, u32::MAX as nat) {
                Ok(n) => Ok(JobFields { priority: Some(n as u32), ..before }),
                Err(e) => Err(e),
            }
        } else if name == "processedOn"@ {
            after == match number_field(value@, name, u64::MAX as nat) {
                Ok(n) => Ok(JobFields { processed_on: Some(n as u64), ..before }),
                Err(e) => Err(e),
            }
        } else if name == "ats"@ {
            after == match number_field(value@, name, u32::MAX as nat) {
                Ok(n) => Ok(JobFields { attempts_started: Some(n as u32), ..before }),
                Err(e) => Err(e),
            }
        } else if name == "atm"@ {
            after == match number_field(value@, name, u32::MAX as nat) {
                Ok(n) => Ok(JobFields { attempts_made: Some(n as u32), ..before }),
                Err(e) => Err(e),
            }
        } else {
            after == Ok::<JobFields<JobData>, ReplyErrorView>(before)
        },
    }
}

/// Fields or an error, as views.
pub open spec fn fields_result<JobData>(r: Result<JobBuilder<JobData>, ReplyError>) -> Result<
    JobFields<JobData>,
    ReplyErrorView,
> {
    match r {
        Ok(builder) => Ok(builder@),
        Err(e) => Err(e@),
    }
}

/// Reads one field of a job's hash into the builder.
fn read_field<
    JobData,
    DecodeData: Fn(&Vec<u8>) -> Result<JobData, String>,
    DecodeOpts: Fn(&Vec<u8>) -> Result<JobOptions, String>,
>(
    decode_data: &DecodeData,
    decode_opts: &DecodeOpts,
    key: &Vec<u8>,
    value: &Vec<u8>,
    builder: JobBuilder<JobData>,
) -> (r: Result<JobBuilder<JobData>, ReplyError>)
    requires
        forall|bytes: &Vec<u8>| call_requires(*decode_data, (bytes,)),
        forall|bytes: &Vec<u8>| call_requires(*decode_opts, (bytes,)),
    ensures
        field_read(*decode_data, *decode_opts, *key, *value, builder@, fields_result(r)),
{
    let name = match parse_redis_str(key) {
        Ok(name) => name,
        Err(e) => return Err(e),
    };
    let name = name.as_str();
    if same_text(name, "name") {
        match parse_redis_str(value) {
            Ok(text) => Ok(builder.name(text)),
            Err(e) => Err(e),
        }
    } else if same_text(name, "data") {
        match decode_data(value) {
            Ok(data) => Ok(builder.data(data)),
            Err(e) => Err(ReplyError::JobParse(join("invalid data: ", e.as_str()))),
        }
    } else if same_text(name, "opts") {
        match parse_redis_str(value) {
            Ok(_) => Ok(builder.opts(decode_opts(value))),
            Err(e) => Err(e),
        }
    } else if same_text(name, "timestamp") {
        match parse_redis_field(value, name, u64::MAX) {
            Ok(n) => Ok(builder.timestamp(n)),
            Err(e) => Err(e),
        }
    } else if same_text(name, "delay") {
        match parse_redis_field(value, name, u64::MAX) {
            Ok(n) => Ok(builder.delay(n)),
            Err(e) => Err(e),
        }
    } else if same_text(name, "priority") {
        match parse_redis_field(value, name, u32::MAX as u64) {
            Ok(n) => Ok(builder.priority(n as u32)),
            Err(e) => Err(e),
        }
    } else if same_text(name, "processedOn") {
        match parse_redis_field(value, name, u64::MAX) {
            Ok(n) => Ok(builder.processed_on(n)),
            Err(e) => Err(e),
        }
    } else if same_text(name, "ats") {
        match parse_redis_field(value, name, u32::MAX as u64) {
            Ok(n) => Ok(builder.attempts_started(n as u32)),
            Err(e) => Err(e),
        }
    } else if same_text(name, "atm") {
        match parse_redis_field(value, name, u32::MAX as u64) {
            Ok(n) => Ok(builder.attempts_made(n as u32)),
            Err(e) => Err(e),
        }
    } else {
        Ok(builder)
    }
}

/// What a list of keys and values in turn contributes, from the front. Anything in the place of
/// a key or a value that is not a string is skipped together with its partner, and so is a key
/// without a value. The first error ends the reading.
pub open spec fn fields_read<
    JobData,
    DecodeData: Fn(&Vec<u8>) -> Result<JobData, String>,
    DecodeOpts: Fn(&Vec<u8>) -> Result<JobOptions, String>,
>(
    decode_data: DecodeData,
    decode_opts: DecodeOpts,
    raw: Seq<RedisValue>,
    before: JobFields<JobData>,
    after: Result<JobFields<JobData>, ReplyErrorView>,
) -> bool
    decreases raw.len(),
{
    if raw.len() < 2 {
        after == Ok::<JobFields<JobData>, ReplyErrorView>(before)
    } else {
        match (raw[0], raw[1]) {
            (RedisValue::Data(key), RedisValue::Data(value)) => exists|
                step: Result<JobFields<JobData>, ReplyErrorView>,
            | #[trigger]
                field_read(decode_data, decode_opts, key, value, before, step) && match step {
                    Ok(fields) => fields_read(
                        decode_data,
                        decode_opts,
                        raw.skip(2),
                        fields,
                        after,
                    ),
                    Err(e) => after == Err::<JobFields<JobData>, ReplyErrorView>(e),
                },
            _ => fields_read(decode_data, decode_opts, raw.skip(2), before, after),
        }
    }
}

/// Reads a list of keys and values into the builder.
fn read_fields<
    JobData,
    DecodeData: Fn(&Vec<u8>) -> Result<JobData, String>,
    DecodeOpts: Fn(&Vec<u8>) -> Result<JobOptions, String>,
>(
    decode_data: &DecodeData,
    decode_opts: &DecodeOpts,
    raw: &Vec<RedisValue>,
    builder: JobBuilder<JobData>,
) -> (r: Result<JobBuilder<JobData>, ReplyError>)
    requires
        forall|bytes: &Vec<u8>| call_requires(*decode_data, (bytes,)),
        forall|bytes: &Vec<u8>| call_requires(*decode_opts, (bytes,)),
    ensures
        fields_read(*decode_data, *decode_opts, raw@, builder@, fields_result(r)),
{
    let ghost start = builder@;
    let mut current = builder;
    let mut i: usize = 0;
    proof {
        assert(raw@.skip(0) =~= raw@);
    }
    while i < raw.len() && raw.len() - i >= 2
        invariant
            i <= raw.len(),
            start == builder@,
            forall|bytes: &Vec<u8>| call_requires(*decode_data, (bytes,)),
            forall|bytes: &Vec<u8>| call_requires(*decode_opts, (bytes,)),
            forall|after: Result<JobFields<JobData>, ReplyErrorView>| #[trigger]
                fields_read(*decode_data, *decode_opts, raw@.skip(i as int), current@, after)
                    ==> fields_read(*decode_data, *decode_opts, raw@, start, after),
        decreases raw.len() - i,
    {
        let ghost rest = raw@.skip(i as int);
        let ghost before = current@;
        proof {
            assert(rest.skip(2) =~= raw@.skip(i + 2));
            assert(rest[0] == raw@[i as int]);
            assert(rest[1] == raw@[i + 1]);
        }
        if let (RedisValue::Data(key), RedisValue::Data(value)) = (&raw[i], &raw[i + 1]) {
            let step = read_field(decode_data, decode_opts, key, value, current);
            let ghost outcome = fields_result(step);
            match step {
                Ok(next) => {
                    current = next;
                },
                Err(e) => {
                    proof {
                        assert(field_read(
                            *decode_data,
                            *decode_opts,
                            *key,
                            *value,
                            before,
                            outcome,
                        ));
                        assert(fields_read(
                            *decode_data,
                            *decode_opts,
                            rest,
                            before,
                            Err::<JobFields<JobData>, ReplyErrorView>(e@),
                        ));
                    }
                    return Err(e);
                },
            }
            proof {
                assert forall|after: Result<JobFields<JobData>, ReplyErrorView>| #[trigger]
                    fields_read(
                        *decode_data,
                        *decode_opts,
                        rest.skip(2),
                        current@,
                        after,
                    ) implies fields_read(*decode_data, *decode_opts, rest, before, after) by {
                    assert(field_read(*decode_data, *decode_opts, *key, *value, before, outcome));
                }
            }
        } else {
            proof {
                assert forall|after: Result<JobFields<JobData>, ReplyErrorView>| #[trigger]
                    fields_read(
                        *decode_data,
                        *decode_opts,
                        rest.skip(2),
                        current@,
                        after,
                    ) implies fields_read(*decode_data, *decode_opts, rest, before, after) by {
                }
            }
        }
        i = i + 2;
    }
    proof {
        let outcome = Ok::<JobFields<JobData>, ReplyErrorView>(current@);
        assert(fields_read(*decode_data, *decode_opts, raw@.skip(i as int), current@, outcome));
    }
    Ok(current)
}

/// What a reply of the script means.
///
/// Four zeros: nothing to do. A positive number in the third place among zeros: wait that long.
/// A list, the job's id and two numbers: a job, with its hash in the list. Anything else is not
/// a reply of the script.
pub open spec fn reply_read<
    JobData,
    DecodeData: Fn(&Vec<u8>) -> Result<JobData, String>,
    DecodeOpts: Fn(&Vec<u8>) -> Result<JobOptions, String>,
>(
    decode_data: DecodeData,
    decode_opts: DecodeOpts,
    v: RedisValue,
    out: Result<FoundView<JobData>, ReplyErrorView>,
) -> bool {
    match four_items(v) {
        Some((RedisValue::Int(a), RedisValue::Int(b), RedisValue::Int(expire), RedisValue::Int(d)))
            => if a == 0 && b == 0 && expire >= 0 && d == 0 {
            out == Ok::<FoundView<JobData>, ReplyErrorView>(
                if expire == 0 {
                    FoundView::Empty
                } else {
                    FoundView::RateLimited(expire as u64)
                },
            )
        } else {
            out == Err::<FoundView<JobData>, ReplyErrorView>(ReplyErrorView::InvalidResponse)
        },
        Some((RedisValue::Bulk(raw), RedisValue::Data(id), RedisValue::Int(_), RedisValue::Int(_)))
            => match text_field(id@) {
            Err(e) => out == Err::<FoundView<JobData>, ReplyErrorView>(e),
            Ok(id) => exists|fields: Result<JobFields<JobData>, ReplyErrorView>| #[trigger]
                fields_read(
                    decode_data,
                    decode_opts,
                    raw@,
                    JobFields::of_id(id),
                    fields,
                ) && out == match fields {
                    Ok(fields) => match fields.built() {
                        Ok(job) => Ok(FoundView::Job(job)),
                        Err(e) => Err(ReplyErrorView::JobBuild(e)),
                    },
                    Err(e) => Err(e),
                },
        },
        _ => out == Err::<FoundView<JobData>, ReplyErrorView>(ReplyErrorView::InvalidResponse),
    }
}

/// The items of a list of four.
pub open spec fn four_items(v: RedisValue) -> Option<
    (RedisValue, RedisValue, RedisValue, RedisValue),
> {
    match v {
        RedisValue::Bulk(items) => if items@.len() == 4 {
            Some((items@[0], items@[1], items@[2], items@[3]))
        } else {
            None
        },
        _ => None,
    }
}

/// A finding or an error, as views.
pub open spec fn found_result<JobData>(
    r: Result<MoveToActiveReturn<JobData>, ReplyError>,
) -> Result<FoundView<JobData>, ReplyErrorView> {
    match r {
        Ok(found) => Ok(found@),
        Err(e) => Err(e@),
    }
}

impl<JobData> MoveToActiveReturn<JobData> {
    /// Reads a reply of the script. The two readers turn the JSON of the job's data and options
    /// into values; the options' reader is called with valid UTF-8 only.
    pub fn from_redis_value<
        DecodeData: Fn(&Vec<u8>) -> Result<JobData, String>,
        DecodeOpts: Fn(&Vec<u8>) -> Result<JobOptions, String>,
    >(v: &RedisValue, decode_data: &DecodeData, decode_opts: &DecodeOpts) -> (r: Result<
        MoveToActiveReturn<JobData>,
        ReplyError,
    >)
        requires
            forall|bytes: &Vec<u8>| call_requires(*decode_data, (bytes,)),
            forall|bytes: &Vec<u8>| call_requires(*decode_opts, (bytes,)),
        ensures
            reply_read(*decode_data, *decode_opts, *v, found_result(r)),
    {
        let items = match v {
            RedisValue::Bulk(items) => items,
            _ => return Err(ReplyError::InvalidResponse),
        };
        if items.len() != 4 {
            return Err(ReplyError::InvalidResponse);
        }
        match (&items[0], &items[1], &items[2], &items[3]) {
            (
                RedisValue::Int(a),
                RedisValue::Int(b),
                RedisValue::Int(expire),
                RedisValue::Int(d),
            ) => {
                if *a == 0 && *b == 0 && *expire == 0 && *d == 0 {
                    Ok(MoveToActiveReturn::Empty)
                } else if *a == 0 && *b == 0 && *expire > 0 && *d == 0 {
                    Ok(MoveToActiveReturn::RateLimited(*expire as u64))
                } else {
                    Err(ReplyError::InvalidResponse)
                }
            },
            (
                RedisValue::Bulk(raw_job),
                RedisValue::Data(job_id),
                RedisValue::Int(_),
                RedisValue::Int(_),
            ) => {
                let id = match parse_redis_str(job_id) {
                    Ok(id) => id,
                    Err(e) => return Err(e),
                };
                let builder: JobBuilder<JobData> = JobBuilder::new().id(id);
                let fields = read_fields(decode_data, decode_opts, raw_job, builder);
                let ghost outcome = fields_result(fields);
                proof {
                    assert(builder@ == JobFields::<JobData>::of_id(id@));
                    assert(fields_read(*decode_data, *decode_opts, raw_job@, builder@, outcome));
                }
                match fields {
                    Ok(builder) => match builder.build() {
                        Ok(job) => Ok(MoveToActiveReturn::Job(job)),
                        Err(e) => Err(ReplyError::JobBuild(e)),
                    },
                    Err(e) => Err(e),
                }
            },
            _ => Err(ReplyError::InvalidResponse),
        }
    }
}

/// Whether a reader gives one answer only for each input.
pub open spec fn single_valued<T, F: Fn(&Vec<u8>) -> Result<T, String>>(f: F) -> bool {
    forall|bytes: Vec<u8>, a: Result<T, String>, b: Result<T, String>|
        #![trigger call_ensures(f, (&bytes,), a), call_ensures(f, (&bytes,), b)]
        call_ensures(f, (&bytes,), a) && call_ensures(f, (&bytes,), b) ==> a == b
}

/// A reply has one meaning only, if the readers of data and options give one answer each.
pub proof fn law_reply_has_one_meaning<
    JobData,
    DecodeData: Fn(&Vec<u8>) -> Result<JobData, String>,
    DecodeOpts: Fn(&Vec<u8>) -> Result<JobOptions, String>,
>(
    decode_data: DecodeData,
    decode_opts: DecodeOpts,
    v: RedisValue,
    a: Result<FoundView<JobData>, ReplyErrorView>,
    b: Result<FoundView<JobData>, ReplyErrorView>,
)
    requires
        single_valued(decode_data),
        single_valued(decode_opts),
        reply_read(decode_data, decode_opts, v, a),
        reply_read(decode_data, decode_opts, v, b),
    ensures
        a == b,
{
    if let Some(
        (RedisValue::Bulk(raw), RedisValue::Data(id), RedisValue::Int(_), RedisValue::Int(_)),
    ) = four_items(v) {
        if let Ok(id) = text_field(id@) {
            let start = JobFields::<JobData>::of_id(id);
            assert forall|
                p: Result<JobFields<JobData>, ReplyErrorView>,
                q: Result<JobFields<JobData>, ReplyErrorView>,
            |
                #[trigger] fields_read(decode_data, decode_opts, raw@, start, p) && #[trigger]
                fields_read(decode_data, decode_opts, raw@, start, q) implies p == q by {
                lemma_fields_one_meaning(decode_data, decode_opts, raw@, start, p, q);
            }
        }
    }
}

/// The same for the fields of a hash.
proof fn lemma_fields_one_meaning<
    JobData,
    DecodeData: Fn(&Vec<u8>) -> Result<JobData, String>,
    DecodeOpts: Fn(&Vec<u8>) -> Result<JobOptions, String>,
>(
    decode_data: DecodeData,
    decode_opts: DecodeOpts,
    raw: Seq<RedisValue>,
    before: JobFields<JobData>,
    a: Result<JobFields<JobData>, ReplyErrorView>,
    b: Result<JobFields<JobData>, ReplyErrorView>,
)
    requires
        single_valued(decode_data),
        single_valued(decode_opts),
        fields_read(decode_data, decode_opts, raw, before, a),
        fields_read(decode_data, decode_opts, raw, before, b),
    ensures
        a == b,
    decreases raw.len(),
{
    if raw.len() >= 2 {
        match (raw[0], raw[1]) {
            (RedisValue::Data(key), RedisValue::Data(value)) => {
                let p = choose|p: Result<JobFields<JobData>, ReplyErrorView>| #[trigger]
                    field_read(decode_data, decode_opts, key, value, before, p) && match p {
                        Ok(fields) => fields_read(
                            decode_data,
                            decode_opts,
                            raw.skip(2),
                            fields,
                            a,
                        ),
                        Err(e) => a == Err::<JobFields<JobData>, ReplyErrorView>(e),
                    };
                let q = choose|q: Result<JobFields<JobData>, ReplyErrorView>| #[trigger]
                    field_read(decode_data, decode_opts, key, value, before, q) && match q {
                        Ok(fields) => fields_read(
                            decode_data,
                            decode_opts,
                            raw.skip(2),
                            fields,
                            b,
                        ),
                        Err(e) => b == Err::<JobFields<JobData>, ReplyErrorView>(e),
                    };
                assert(p == q);
                if let Ok(fields) = p {
                    lemma_fields_one_meaning(decode_data, decode_opts, raw.skip(2), fields, a, b);
                }
            },
            _ => {
                lemma_fields_one_meaning(decode_data, decode_opts, raw.skip(2), before, a, b);
            },
        }
    }
}

/// The script is told the prefix and the time, and reads them back as they were; its last argument
/// is a map with the token, the lock duration and, where there is one, the limit, each under its
/// name as it was given. It is given keys of this queue only.
pub proof fn law_take_call(prefix: &str, opts: MoveToActiveArgs, now: u64, call: ScriptCall)
    requires
        call_ensures(MoveToActive::run, (&MoveToActive, prefix, &opts, now), call),
    ensures
        call@.args.len() == 3,
        text_field(call@.args[0]) == Ok::<Seq<char>, ReplyErrorView>(prefix@),
        number_field(call@.args[1], ""@, u64::MAX as nat) == Ok::<nat, ReplyErrorView>(now as nat),
        opts.limiter is None ==> call@.args[2] == packed_map(
            seq![
                ("token"@, packed_str(opts.token@)),
                ("lockDuration"@, packed_uint(opts.lock_duration as nat)),
            ],
        ),
        opts.limiter matches Some(limiter) ==> call@.args[2] == packed_map(
            seq![
                ("token"@, packed_str(opts.token@)),
                ("lockDuration"@, packed_uint(opts.lock_duration as nat)),
                (
                    "limiter"@,
                    packed_map(
                        seq![
                            ("max"@, packed_uint(limiter.max as nat)),
                            ("duration"@, packed_uint(limiter.duration as nat)),
                        ],
                    ),
                ),
            ],
        ),
        call@.keys == seq![
            prefix@ + "wait"@,
            prefix@ + "active"@,
            prefix@ + "prioritized"@,
            prefix@ + "events"@,
            prefix@ + "stalled"@,
            prefix@ + "limiter"@,
            prefix@ + "delayed"@,
            prefix@ + "paused"@,
            prefix@ + "meta"@,
            prefix@ + "pc"@,
            prefix@ + "marker"@,
        ],
{
    law_text_field_reads_back(prefix@);
    law_number_field_reads_back(now as nat, ""@, u64::MAX as nat);
    assert(call@.keys =~= seq![
        prefix@ + "wait"@,
        prefix@ + "active"@,
        prefix@ + "prioritized"@,
        prefix@ + "events"@,
        prefix@ + "stalled"@,
        prefix@ + "limiter"@,
        prefix@ + "delayed"@,
        prefix@ + "paused"@,
        prefix@ + "meta"@,
        prefix@ + "pc"@,
        prefix@ + "marker"@,
    ]);
    lemma_argument_by_name(opts.token@, opts.lock_duration as nat, opts.limiter);
    assert(call@.args[2] == packed_args(opts.token@, opts.lock_duration as nat, opts.limiter));
}

/// The packed limit is a map of its two numbers.
proof fn lemma_limiter_by_name(limiter: Limiter)
    ensures
        limiter.packed() == packed_map(
            seq![
                ("max"@, packed_uint(limiter.max as nat)),
                ("duration"@, packed_uint(limiter.duration as nat)),
            ],
        ),
{
    let head = map_head(2);
    let (v1, v2) = (packed_uint(limiter.max as nat), packed_uint(limiter.duration as nat));
    let e0 = Seq::<(Seq<char>, Seq<u8>)>::empty();
    let e1 = with_entry(e0, "max"@, Some(v1));
    lemma_no_entries(head);
    lemma_with_entry(head, e0, "max"@, Some(v1));
    lemma_with_entry(head, e1, "duration"@, Some(v2));
    assert(with_entry(e1, "duration"@, Some(v2)) =~= seq![("max"@, v1), ("duration"@, v2)]);
}

/// The packed argument is a map of the settings.
proof fn lemma_argument_by_name(token: Seq<char>, lock_duration: nat, limiter: Option<Limiter>)
    ensures
        limiter is None ==> packed_args(token, lock_duration, limiter) == packed_map(
            seq![("token"@, packed_str(token)), ("lockDuration"@, packed_uint(lock_duration))],
        ),
        limiter matches Some(limit) ==> packed_args(token, lock_duration, limiter) == packed_map(
            seq![
                ("token"@, packed_str(token)),
                ("lockDuration"@, packed_uint(lock_duration)),
                (
                    "limiter"@,
                    packed_map(
                        seq![
                            ("max"@, packed_uint(limit.max as nat)),
                            ("duration"@, packed_uint(limit.duration as nat)),
                        ],
                    ),
                ),
            ],
        ),
{
    let head = if limiter is Some {
        map_head(3)
    } else {
        map_head(2)
    };
    let (v1, v2) = (packed_str(token), packed_uint(lock_duration));
    let e0 = Seq::<(Seq<char>, Seq<u8>)>::empty();
    let e1 = with_entry(e0, "token"@, Some(v1));
    let e2 = with_entry(e1, "lockDuration"@, Some(v2));
    lemma_no_entries(head);
    lemma_with_entry(head, e0, "token"@, Some(v1));
    lemma_with_entry(head, e1, "lockDuration"@, Some(v2));
    assert(e2 =~= seq![("token"@, v1), ("lockDuration"@, v2)]);
    if let Some(limit) = limiter {
        let v3 = limit.packed();
        lemma_limiter_by_name(limit);
        lemma_with_entry(head, e2, "limiter"@, Some(v3));
        assert(with_entry(e2, "limiter"@, Some(v3)) =~= seq![
            ("token"@, v1),
            ("lockDuration"@, v2),
            ("limiter"@, v3),
        ]);
    }
}

/// A reply of four integers says that there is no job, or how long to wait for one: exactly the
/// number in the third place, where it is positive and the others are zero. With any other
/// integers, and in any other shape than that of a job, it is not a reply of the script.
pub proof fn law_reply_without_job<
    JobData,
    DecodeData: Fn(&Vec<u8>) -> Result<JobData, String>,
    DecodeOpts: Fn(&Vec<u8>) -> Result<JobOptions, String>,
>(
    decode_data: DecodeData,
    decode_opts: DecodeOpts,
    v: RedisValue,
    r: Result<MoveToActiveReturn<JobData>, ReplyError>,
)
    requires
        call_ensures(
            MoveToActiveReturn::<JobData>::from_redis_value::<DecodeData, DecodeOpts>,
            (&v, &decode_data, &decode_opts),
            r,
        ),
    ensures
        !(v matches RedisValue::Bulk(items) && items@.len() == 4) ==> r is Err
            && r->Err_0@ is InvalidResponse,
        v matches RedisValue::Bulk(items) ==> items@.len() == 4 ==> {
            let ints = items@[0] is Int && items@[1] is Int && items@[2] is Int && items@[3] is Int;
            let (a, b, wait, d) = (
                items@[0]->Int_0,
                items@[1]->Int_0,
                items@[2]->Int_0,
                items@[3]->Int_0,
            );
            let job = items@[0] is Bulk && items@[1] is Data && items@[2] is Int && items@[3] is Int;
            &&& ints && a == 0 && b == 0 && d == 0 && wait == 0 ==> r is Ok && r->Ok_0@ is Empty
            &&& ints && a == 0 && b == 0 && d == 0 && wait > 0 ==> r is Ok && (
            r->Ok_0@ matches FoundView::RateLimited(ms) && ms == wait)
            &&& ints && !(a == 0 && b == 0 && d == 0 && wait >= 0) ==> r is Err
                && r->Err_0@ is InvalidResponse
            &&& !ints && !job ==> r is Err && r->Err_0@ is InvalidResponse
            &&& job && r is Ok ==> r->Ok_0@ is Job
        },
{
    if let RedisValue::Bulk(items) = v {
        if items@.len() == 4 {
            let (p, q, s, t) = (items@[0], items@[1], items@[2], items@[3]);
            assert(four_items(v) == Some((p, q, s, t)));
        }
    }
}

/// The first field that cannot be read decides: data that its reader refuses, or a number that is
/// none, makes the whole reply an error that says so, whatever follows.
pub proof fn law_bad_field_refused<
    JobData,
    DecodeData: Fn(&Vec<u8>) -> Result<JobData, String>,
    DecodeOpts: Fn(&Vec<u8>) -> Result<JobOptions, String>,
>(
    decode_data: DecodeData,
    decode_opts: DecodeOpts,
    raw: Seq<RedisValue>,
    before: JobFields<JobData>,
    out: Result<JobFields<JobData>, ReplyErrorView>,
    key: Vec<u8>,
    value: Vec<u8>,
)
    requires
        raw.len() >= 2,
        raw[0] == RedisValue::Data(key),
        raw[1] == RedisValue::Data(value),
        fields_read(decode_data, decode_opts, raw, before, out),
    ensures
        !vstd::utf8::valid_utf8(key@) ==> out is Err && out->Err_0 is JobParse,
        key@ == encode_utf8("name"@) && !vstd::utf8::valid_utf8(value@) ==> out is Err
            && out->Err_0 is JobParse,
        key@ == encode_utf8("data"@) ==> forall|reason: String|
            (forall|decoded: Result<JobData, String>|
                call_ensures(decode_data, (&value,), decoded) ==> decoded == Err::<JobData, String>(
                    reason,
                )) ==> out == Err::<JobFields<JobData>, ReplyErrorView>(
                ReplyErrorView::JobParse(#[trigger] ("invalid data: "@ + reason@)),
            ),
        key@ == encode_utf8("timestamp"@) ==> (number_field(
            value@,
            "timestamp"@,
            u64::MAX as nat,
        ) matches Err(e) ==> out == Err::<JobFields<JobData>, ReplyErrorView>(e)),
        key@ == encode_utf8("delay"@) ==> (number_field(value@, "delay"@, u64::MAX as nat) matches Err(
            e,
        ) ==> out == Err::<JobFields<JobData>, ReplyErrorView>(e)),
        key@ == encode_utf8("priority"@) ==> (number_field(
            value@,
            "priority"@,
            u32::MAX as nat,
        ) matches Err(e) ==> out == Err::<JobFields<JobData>, ReplyErrorView>(e)),
        key@ == encode_utf8("processedOn"@) ==> (number_field(
            value@,
            "processedOn"@,
            u64::MAX as nat,
        ) matches Err(e) ==> out == Err::<JobFields<JobData>, ReplyErrorView>(e)),
        key@ == encode_utf8("ats"@) ==> (number_field(value@, "ats"@, u32::MAX as nat) matches Err(
            e,
        ) ==> out == Err::<JobFields<JobData>, ReplyErrorView>(e)),
        key@ == encode_utf8("atm"@) ==> (number_field(value@, "atm"@, u32::MAX as nat) matches Err(
            e,
        ) ==> out == Err::<JobFields<JobData>, ReplyErrorView>(e)),
{
    lemma_names();
    let step = choose|step: Result<JobFields<JobData>, ReplyErrorView>| #[trigger]
        field_read(decode_data, decode_opts, key, value, before, step) && match step {
            Ok(fields) => fields_read(decode_data, decode_opts, raw.skip(2), fields, out),
            Err(e) => out == Err::<JobFields<JobData>, ReplyErrorView>(e),
        };
}

/// What is not a key with a value, both of them strings, is passed over, two items at a time, and
/// so is a single item at the end.
pub proof fn law_odd_items_skipped<
    JobData,
    DecodeData: Fn(&Vec<u8>) -> Result<JobData, String>,
    DecodeOpts: Fn(&Vec<u8>) -> Result<JobOptions, String>,
>(
    decode_data: DecodeData,
    decode_opts: DecodeOpts,
    raw: Seq<RedisValue>,
    before: JobFields<JobData>,
    out: Result<JobFields<JobData>, ReplyErrorView>,
)
    ensures
        raw.len() < 2 ==> (fields_read(decode_data, decode_opts, raw, before, out) <==> out == Ok::<
            JobFields<JobData>,
            ReplyErrorView,
        >(before)),
        raw.len() >= 2 && !(raw[0] is Data && raw[1] is Data) ==> (fields_read(
            decode_data,
            decode_opts,
            raw,
            before,
            out,
        ) <==> fields_read(decode_data, decode_opts, raw.skip(2), before, out)),
{
}

} // verus!
