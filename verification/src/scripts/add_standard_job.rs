//! Adding a job that may run at once: `addStandardJob-7.lua`.

use vstd::prelude::*;
use vstd::utf8::encode_utf8;
use crate::kernel::backoff::{law_packed_unambiguous, BackoffStrategy};
use crate::kernel::job::KeepJobsConfig;
use crate::msgpack::{array_head, entry, map_head, packed_bool, packed_nil, packed_sint, packed_str, packed_uint, present};
use crate::msgpack::{law_bool_unambiguous, law_sint_unambiguous, law_str_unambiguous, law_uint_unambiguous};
use crate::msgpack::{lemma_cut, lemma_entry, lemma_entry_without, lemma_no_key_at_end, lemma_same_rest, lemma_sint_first, without_key};
use crate::msgpack::{lemma_no_entries, lemma_with_entry, packed_map, with_entry};
use crate::msgpack::{write_array_len, write_bool, write_map_len, write_nil, write_sint, write_str, write_uint};
use crate::queue_keys::{keys_under, prefixed, QueueKeys};
use crate::scripts::{bytes_of, ScriptCall, ScriptCallView};
use crate::text::{as_signed, chars_of, decimal, decimal_text, lemma_decimal_digits, law_decimal_reads_back, parse_signed};

verus! {

/// The options of a new job, packed as a map of those that are set.
#[derive(Debug, Clone, Copy)]
pub struct AddStandardJobOpts {
    pub delay: Option<u64>,
    pub priority: Option<u32>,
    pub attempts: Option<u32>,
    pub backoff: Option<BackoffStrategy>,
    pub lifo: Option<bool>,
    pub remove_on_complete: Option<KeepJobsConfig>,
    pub remove_on_fail: Option<KeepJobsConfig>,
}

pub open spec fn optional_uint(n: Option<u64>) -> Option<Seq<u8>> {
    match n {
        Some(n) => Some(packed_uint(n as nat)),
        None => None,
    }
}

pub open spec fn optional_small_uint(n: Option<u32>) -> Option<Seq<u8>> {
    match n {
        Some(n) => Some(packed_uint(n as nat)),
        None => None,
    }
}

pub open spec fn optional_sint(n: Option<i32>) -> Option<Seq<u8>> {
    match n {
        Some(n) => Some(packed_sint(n as int)),
        None => None,
    }
}

pub open spec fn optional_bool(b: Option<bool>) -> Option<Seq<u8>> {
    match b {
        Some(b) => Some(packed_bool(b)),
        None => None,
    }
}

pub open spec fn optional_backoff(b: Option<BackoffStrategy>) -> Option<Seq<u8>> {
    match b {
        Some(b) => Some(b.packed()),
        None => None,
    }
}

pub open spec fn optional_keep(k: Option<KeepJobsConfig>) -> Option<Seq<u8>> {
    match k {
        Some(k) => Some(packed_keep(k)),
        None => None,
    }
}

/// How many finished jobs to keep: a truth value, a count, or a map of what is set.
pub open spec fn packed_keep(k: KeepJobsConfig) -> Seq<u8> {
    match k {
        KeepJobsConfig::Bool(remove) => packed_bool(remove),
        KeepJobsConfig::Count(n) => packed_sint(n as int),
        KeepJobsConfig::Spec { age, count } => map_head(present(age) + present(count)) + entry(
            "age"@,
            optional_sint(age),
        ) + entry("count"@, optional_sint(count)),
    }
}

fn pack_uint_entry(buf: &mut Vec<u8>, key: &str, value: Option<u64>)
    ensures
        final(buf)@ == old(buf)@ + entry(key@, optional_uint(value)),
{
    if let Some(n) = value {
        write_str(buf, key);
        write_uint(buf, n);
    }
}

fn pack_small_uint_entry(buf: &mut Vec<u8>, key: &str, value: Option<u32>)
    ensures
        final(buf)@ == old(buf)@ + entry(key@, optional_small_uint(value)),
{
    if let Some(n) = value {
        write_str(buf, key);
        write_uint(buf, n as u64);
    }
}

fn pack_sint_entry(buf: &mut Vec<u8>, key: &str, value: Option<i32>)
    ensures
        final(buf)@ == old(buf)@ + entry(key@, optional_sint(value)),
{
    if let Some(n) = value {
        write_str(buf, key);
        write_sint(buf, n as i64);
    }
}

fn pack_keep(buf: &mut Vec<u8>, keep: &KeepJobsConfig)
    ensures
        final(buf)@ == old(buf)@ + packed_keep(*keep),
{
    match keep {
        KeepJobsConfig::Bool(remove) => write_bool(buf, *remove),
        KeepJobsConfig::Count(n) => write_sint(buf, *n as i64),
        KeepJobsConfig::Spec { age, count } => {
            let mut len: u32 = 0;
            if age.is_some() {
                len = len + 1;
            }
            if count.is_some() {
                len = len + 1;
            }
            write_map_len(buf, len);
            pack_sint_entry(buf, "age", *age);
            pack_sint_entry(buf, "count", *count);
        },
    }
}

fn pack_keep_entry(buf: &mut Vec<u8>, key: &str, value: &Option<KeepJobsConfig>)
    ensures
        final(buf)@ == old(buf)@ + entry(key@, optional_keep(*value)),
{
    if let Some(keep) = value {
        write_str(buf, key);
        pack_keep(buf, keep);
    }
}

impl AddStandardJobOpts {
    /// How many options are set.
    pub open spec fn set_count(self) -> nat {
        present(self.delay) + present(self.priority) + present(self.attempts) + present(
            self.backoff,
        ) + present(self.lifo) + present(self.remove_on_complete) + present(self.remove_on_fail)
    }

    /// The options as a MessagePack map with named keys.
    pub open spec fn packed(self) -> Seq<u8> {
        map_head(self.set_count()) + entry("delay"@, optional_uint(self.delay)) + entry(
            "priority"@,
            optional_small_uint(self.priority),
        ) + entry("attempts"@, optional_small_uint(self.attempts)) + entry(
            "backoff"@,
            optional_backoff(self.backoff),
        ) + entry("lifo"@, optional_bool(self.lifo)) + entry(
            "removeOnComplete"@,
            optional_keep(self.remove_on_complete),
        ) + entry("removeOnFail"@, optional_keep(self.remove_on_fail))
    }

    fn count(&self) -> (n: u32)
        ensures
            n == self.set_count(),
    {
        let mut n: u32 = 0;
        if self.delay.is_some() {
            n = n + 1;
        }
        if self.priority.is_some() {
            n = n + 1;
        }
        if self.attempts.is_some() {
            n = n + 1;
        }
        if self.backoff.is_some() {
            n = n + 1;
        }
        if self.lifo.is_some() {
            n = n + 1;
        }
        if self.remove_on_complete.is_some() {
            n = n + 1;
        }
        if self.remove_on_fail.is_some() {
            n = n + 1;
        }
        n
    }

    /// Packs the options for the script, which reads them by name.
    pub fn to_msgpack(&self) -> (bytes: Vec<u8>)
        ensures
            bytes@ == self.packed(),
    {
        let mut buf: Vec<u8> = Vec::new();
        write_map_len(&mut buf, self.count());
        pack_uint_entry(&mut buf, "delay", self.delay);
        pack_small_uint_entry(&mut buf, "priority", self.priority);
        pack_small_uint_entry(&mut buf, "attempts", self.attempts);
        if let Some(backoff) = &self.backoff {
            write_str(&mut buf, "backoff");
            backoff.pack(&mut buf);
        }
        if let Some(lifo) = self.lifo {
            write_str(&mut buf, "lifo");
            write_bool(&mut buf, lifo);
        }
        pack_keep_entry(&mut buf, "removeOnComplete", &self.remove_on_complete);
        pack_keep_entry(&mut buf, "removeOnFail", &self.remove_on_fail);
        buf
    }
}

/// The first argument: an array of prefix, custom id, name and timestamp, and nil for the five
/// things that only jobs with parents or repetition have.
pub open spec fn packed_args(
    prefix: Seq<char>,
    job_name: Seq<char>,
    timestamp: int,
    custom_id: Seq<char>,
) -> Seq<u8> {
    array_head(9) + packed_str(prefix) + packed_str(custom_id) + packed_str(job_name) + packed_sint(
        timestamp,
    ) + packed_nil() + packed_nil() + packed_nil() + packed_nil() + packed_nil()
}

/// Builds the first argument. The timestamp is a 64-bit integer in decimal notation.
pub fn build_argv1(prefix: &str, job_name: &str, timestamp: &str, custom_id: &str) -> (bytes: Vec<
    u8,
>)
    requires
        as_signed(timestamp@) is Some,
    ensures
        bytes@ == packed_args(prefix@, job_name@, as_signed(timestamp@)->0, custom_id@),
{
    let mut buf: Vec<u8> = Vec::new();
    write_array_len(&mut buf, 9);
    write_str(&mut buf, prefix);
    // An empty custom id lets the script generate one.
    write_str(&mut buf, custom_id);
    write_str(&mut buf, job_name);
    let ts: i64 = match parse_signed(&chars_of(timestamp)) {
        Some(ts) => ts,
        None => 0,
    };
    write_sint(&mut buf, ts);
    // Parent key, wait-children key, parent dependencies key, parent, repeat key.
    write_nil(&mut buf);
    write_nil(&mut buf);
    write_nil(&mut buf);
    write_nil(&mut buf);
    write_nil(&mut buf);
    buf
}

/// The names of the keys that the script takes, in order.
pub open spec fn key_names() -> Seq<Seq<char>> {
    seq!["wait"@, "paused"@, "meta"@, "id"@, "completed"@, "events"@, "marker"@]
}

/// The call that adds a job.
pub open spec fn call_for(
    prefix: Seq<char>,
    job_name: Seq<char>,
    data: Seq<char>,
    opts: AddStandardJobOpts,
    custom_id: Seq<char>,
    now: u64,
) -> ScriptCallView {
    ScriptCallView {
        keys: keys_under(prefix, key_names()),
        args: seq![
            packed_args(prefix, job_name, now as int, custom_id),
            encode_utf8(data),
            opts.packed(),
        ],
    }
}

/// The script that adds a job.
#[derive(Debug, Clone, Copy)]
pub struct AddStandardJob;

impl AddStandardJob {
    /// The call that adds a job at the time `now`, in milliseconds since the Unix epoch. The
    /// script replies with the job's id.
    pub fn run(
        &self,
        prefix: &str,
        job_name: &str,
        data: &str,
        opts: &AddStandardJobOpts,
        custom_id: &str,
        now: u64,
    ) -> (call: ScriptCall)
        requires
            now <= i64::MAX,
        ensures
            call@ == call_for(prefix@, job_name@, data@, *opts, custom_id@, now),
    {
        let names: Vec<QueueKeys> = vec![
            QueueKeys::Wait,
            QueueKeys::Paused,
            QueueKeys::Meta,
            QueueKeys::Custom("id".to_string()),
            QueueKeys::Custom("completed".to_string()),
            QueueKeys::Events,
            QueueKeys::Marker,
        ];
        let keys = prefixed(&names, prefix);
        let timestamp = decimal_text(now);
        proof {
            assert(crate::queue_keys::names_of(names@) =~= key_names());
            lemma_now_as_signed(now);
        }
        let argv1 = build_argv1(prefix, job_name, timestamp.as_str(), custom_id);
        let args: Vec<Vec<u8>> = vec![argv1, bytes_of(data), opts.to_msgpack()];
        ScriptCall { keys, args }
    }
}

/// A time in decimal notation reads as that time.
pub(crate) proof fn lemma_now_as_signed(now: u64)
    requires
        now <= i64::MAX,
    ensures
        as_signed(decimal(now as nat)) == Some(now as int),
{
    law_decimal_reads_back(now as nat, i64::MAX as nat);
    lemma_decimal_digits(now as nat);
    assert(crate::text::is_digit(decimal(now as nat)[0]));
}

/// Grouping from the right instead of from the left.
proof fn lemma_regroup(h: Seq<u8>, p: Seq<u8>, c: Seq<u8>, n: Seq<u8>, t: Seq<u8>, z: Seq<u8>)
    ensures
        h + p + c + n + t + z + z + z + z + z == h + (p + (c + (n + (t + (z + z + z + z + z))))),
{
    assert(h + p + c + n + t + z + z + z + z + z =~= h + (p + (c + (n + (t + (z + z + z + z
        + z))))));
}

/// The first argument tells the script everything that went into it: two calls with the same
/// bytes have the same prefix, name, timestamp and id.
pub proof fn law_first_argument_unambiguous(
    prefix: Seq<char>,
    job_name: Seq<char>,
    timestamp: int,
    custom_id: Seq<char>,
    other_prefix: Seq<char>,
    other_job_name: Seq<char>,
    other_timestamp: int,
    other_custom_id: Seq<char>,
)
    requires
        encode_utf8(prefix).len() < 0x1_0000_0000,
        encode_utf8(job_name).len() < 0x1_0000_0000,
        encode_utf8(custom_id).len() < 0x1_0000_0000,
        encode_utf8(other_prefix).len() < 0x1_0000_0000,
        encode_utf8(other_job_name).len() < 0x1_0000_0000,
        encode_utf8(other_custom_id).len() < 0x1_0000_0000,
        i64::MIN <= timestamp <= i64::MAX,
        i64::MIN <= other_timestamp <= i64::MAX,
        packed_args(prefix, job_name, timestamp, custom_id) == packed_args(
            other_prefix,
            other_job_name,
            other_timestamp,
            other_custom_id,
        ),
    ensures
        prefix == other_prefix,
        job_name == other_job_name,
        timestamp == other_timestamp,
        custom_id == other_custom_id,
{
    let nils = packed_nil() + packed_nil() + packed_nil() + packed_nil() + packed_nil();
    let a3 = packed_sint(timestamp) + nils;
    let a2 = packed_str(job_name) + a3;
    let a1 = packed_str(custom_id) + a2;
    let a0 = packed_str(prefix) + a1;
    let b3 = packed_sint(other_timestamp) + nils;
    let b2 = packed_str(other_job_name) + b3;
    let b1 = packed_str(other_custom_id) + b2;
    let b0 = packed_str(other_prefix) + b1;
    lemma_regroup(
        array_head(9),
        packed_str(prefix),
        packed_str(custom_id),
        packed_str(job_name),
        packed_sint(timestamp),
        packed_nil(),
    );
    lemma_regroup(
        array_head(9),
        packed_str(other_prefix),
        packed_str(other_custom_id),
        packed_str(other_job_name),
        packed_sint(other_timestamp),
        packed_nil(),
    );
    assert(array_head(9) + a0 == array_head(9) + b0);
    lemma_same_rest(array_head(9), a0, b0);
    law_str_unambiguous(prefix, other_prefix, a1, b1);
    law_str_unambiguous(custom_id, other_custom_id, a2, b2);
    law_str_unambiguous(job_name, other_job_name, a3, b3);
    law_sint_unambiguous(timestamp, other_timestamp, nils, nils);
}

/// The names of the options are short, and all different.
proof fn lemma_option_names()
    ensures
        encode_utf8("delay"@).len() == 5 && "delay"@[0] == 'd',
        encode_utf8("priority"@).len() == 8 && "priority"@[0] == 'p',
        encode_utf8("attempts"@).len() == 8 && "attempts"@[0] == 'a',
        encode_utf8("backoff"@).len() == 7 && "backoff"@[0] == 'b',
        encode_utf8("lifo"@).len() == 4 && "lifo"@[0] == 'l',
        encode_utf8("removeOnComplete"@).len() == 16 && "removeOnComplete"@[0] == 'r',
        encode_utf8("removeOnFail"@).len() == 12 && "removeOnFail"@[0] == 'r',
        "removeOnComplete"@.len() == 16 && "removeOnFail"@.len() == 12,
        encode_utf8("age"@).len() == 3 && "age"@[0] == 'a',
        encode_utf8("count"@).len() == 5 && "count"@[0] == 'c',
{
    broadcast use vstd::utf8::is_ascii_chars_encode_utf8;
    reveal_strlit("delay");
    reveal_strlit("priority");
    reveal_strlit("attempts");
    reveal_strlit("backoff");
    reveal_strlit("lifo");
    reveal_strlit("removeOnComplete");
    reveal_strlit("removeOnFail");
    reveal_strlit("age");
    reveal_strlit("count");
    assert(vstd::utf8::is_ascii_chars("delay"@));
    assert(vstd::utf8::is_ascii_chars("priority"@));
    assert(vstd::utf8::is_ascii_chars("attempts"@));
    assert(vstd::utf8::is_ascii_chars("backoff"@));
    assert(vstd::utf8::is_ascii_chars("lifo"@));
    assert(vstd::utf8::is_ascii_chars("removeOnComplete"@));
    assert(vstd::utf8::is_ascii_chars("removeOnFail"@));
    assert(vstd::utf8::is_ascii_chars("age"@));
    assert(vstd::utf8::is_ascii_chars("count"@));
}

/// The first byte says which form a choice of finished jobs has.
proof fn lemma_keep_first(k: KeepJobsConfig)
    ensures
        packed_keep(k).len() > 0,
        match k {
            KeepJobsConfig::Bool(remove) => packed_keep(k) == packed_bool(remove) && packed_keep(
                k,
            )[0] == if remove {
                0xc3u8
            } else {
                0xc2u8
            },
            KeepJobsConfig::Count(n) => packed_keep(k) == packed_sint(n as int) && (packed_keep(
                k,
            )[0] < 0x80 || packed_keep(k)[0] >= 0xcc),
            KeepJobsConfig::Spec { age, count } => packed_keep(k)[0] == 0x80 + present(age)
                + present(count),
        },
{
    if let KeepJobsConfig::Count(n) = k {
        lemma_sint_first(n as int);
    }
}

/// Different choices of finished jobs are packed differently, and end where they end.
pub proof fn law_keep_unambiguous(a: KeepJobsConfig, b: KeepJobsConfig, x: Seq<u8>, y: Seq<u8>)
    requires
        packed_keep(a) + x == packed_keep(b) + y,
    ensures
        a == b,
        x == y,
{
    lemma_keep_first(a);
    lemma_keep_first(b);
    assert(packed_keep(a)[0] == (packed_keep(a) + x)[0]);
    assert(packed_keep(b)[0] == (packed_keep(b) + y)[0]);
    match (a, b) {
        (KeepJobsConfig::Bool(m), KeepJobsConfig::Bool(n)) => {
            law_bool_unambiguous(m, n, x, y);
        },
        (KeepJobsConfig::Count(m), KeepJobsConfig::Count(n)) => {
            law_sint_unambiguous(m as int, n as int, x, y);
        },
        (
            KeepJobsConfig::Spec { age: a_age, count: a_count },
            KeepJobsConfig::Spec { age: b_age, count: b_count },
        ) => {
            lemma_keep_spec(a_age, a_count, b_age, b_count, x, y);
        },
        _ => {},
    }
}

/// The same for choices by age and count.
proof fn lemma_keep_spec(
    a_age: Option<i32>,
    a_count: Option<i32>,
    b_age: Option<i32>,
    b_count: Option<i32>,
    x: Seq<u8>,
    y: Seq<u8>,
)
    requires
        packed_keep(KeepJobsConfig::Spec { age: a_age, count: a_count }) + x == packed_keep(
            KeepJobsConfig::Spec { age: b_age, count: b_count },
        ) + y,
        present(a_age) + present(a_count) == present(b_age) + present(b_count),
    ensures
        a_age == b_age,
        a_count == b_count,
        x == y,
{
    lemma_option_names();
    let head = map_head(present(a_age) + present(a_count));
    let (p, q) = (entry("age"@, optional_sint(a_age)), entry("age"@, optional_sint(b_age)));
    let (r, s) = (entry("count"@, optional_sint(a_count)), entry("count"@, optional_sint(b_count)));
    assert(head + p + r + x =~= head + (p + (r + x)));
    assert(head + q + s + y =~= head + (q + (s + y)));
    lemma_same_rest(head, p + (r + x), q + (s + y));
    if a_age is Some && b_age is Some {
        let (m, n) = (a_age->0 as int, b_age->0 as int);
        let (u, v) = (packed_sint(m), packed_sint(n));
        let key = packed_str("age"@);
        assert(p + (r + x) =~= key + (u + (r + x)));
        assert(q + (s + y) =~= key + (v + (s + y)));
        lemma_same_rest(key, u + (r + x), v + (s + y));
        law_sint_unambiguous(m, n, r + x, s + y);
    } else if a_age is Some {
        let u = packed_sint(a_age->0 as int);
        let v = packed_sint(b_count->0 as int);
        assert(p + (r + x) =~= packed_str("age"@) + (u + (r + x)));
        assert(q + (s + y) =~= packed_str("count"@) + (v + y));
        law_str_unambiguous("age"@, "count"@, u + (r + x), v + y);
    } else if b_age is Some {
        let u = packed_sint(a_count->0 as int);
        let v = packed_sint(b_age->0 as int);
        assert(p + (r + x) =~= packed_str("count"@) + (u + x));
        assert(q + (s + y) =~= packed_str("age"@) + (v + (s + y)));
        law_str_unambiguous("count"@, "age"@, u + x, v + (s + y));
    } else {
        assert(p + (r + x) =~= r + x);
        assert(q + (s + y) =~= s + y);
    }
    assert(r + x == s + y);
    if a_count is Some {
        let (m, n) = (a_count->0 as int, b_count->0 as int);
        let (u, v) = (packed_sint(m), packed_sint(n));
        let key = packed_str("count"@);
        assert(r + x =~= key + (u + x));
        assert(s + y =~= key + (v + y));
        lemma_same_rest(key, u + x, v + y);
        law_sint_unambiguous(m, n, x, y);
    } else {
        assert(r + x =~= x);
        assert(s + y =~= y);
    }
}

/// Grouping entries from the right instead of from the left.
proof fn lemma_regroup_entries(
    h: Seq<u8>,
    a: Seq<u8>,
    b: Seq<u8>,
    c: Seq<u8>,
    d: Seq<u8>,
    e: Seq<u8>,
    f: Seq<u8>,
    g: Seq<u8>,
)
    ensures
        h + a + b + c + d + e + f + g == h + (a + (b + (c + (d + (e + (f + (g + Seq::empty()))))))),
{
    assert(h + a + b + c + d + e + f + g =~= h + (a + (b + (c + (d + (e + (f + (g
        + Seq::empty()))))))));
}

/// The entries of an option map from a certain one on.
spec fn entries_from(o: AddStandardJobOpts, n: nat) -> Seq<u8>
    decreases 7 - n,
{
    if n >= 7 {
        Seq::empty()
    } else {
        option_entry(o, n) + entries_from(o, n + 1)
    }
}

/// The name of an option, by its place.
spec fn option_name(n: nat) -> Seq<char> {
    if n == 0 {
        "delay"@
    } else if n == 1 {
        "priority"@
    } else if n == 2 {
        "attempts"@
    } else if n == 3 {
        "backoff"@
    } else if n == 4 {
        "lifo"@
    } else if n == 5 {
        "removeOnComplete"@
    } else {
        "removeOnFail"@
    }
}

/// The packed value of an option, by its place.
spec fn option_value(o: AddStandardJobOpts, n: nat) -> Option<Seq<u8>> {
    if n == 0 {
        optional_uint(o.delay)
    } else if n == 1 {
        optional_small_uint(o.priority)
    } else if n == 2 {
        optional_small_uint(o.attempts)
    } else if n == 3 {
        optional_backoff(o.backoff)
    } else if n == 4 {
        optional_bool(o.lifo)
    } else if n == 5 {
        optional_keep(o.remove_on_complete)
    } else {
        optional_keep(o.remove_on_fail)
    }
}

spec fn option_entry(o: AddStandardJobOpts, n: nat) -> Seq<u8> {
    entry(option_name(n), option_value(o, n))
}

/// No option comes again after its place.
proof fn lemma_not_again(o: AddStandardJobOpts, key: nat, from: nat)
    requires
        key < from <= 7,
    ensures
        without_key(entries_from(o, from), option_name(key)),
    decreases 7 - from,
{
    if from == 7 {
        lemma_no_key_at_end(option_name(key));
    } else {
        lemma_option_names();
        lemma_not_again(o, key, from + 1);
        lemma_entry_without(
            option_name(key),
            option_name(from),
            option_value(o, from),
            entries_from(o, from + 1),
        );
    }
}

/// Options with the same entries from a place on agree from there on.
proof fn lemma_entries_agree(o: AddStandardJobOpts, p: AddStandardJobOpts, n: nat)
    requires
        n < 7,
        entries_from(o, n) == entries_from(p, n),
    ensures
        entries_from(o, n + 1) == entries_from(p, n + 1),
        n == 0 ==> o.delay == p.delay,
        n == 1 ==> o.priority == p.priority,
        n == 2 ==> o.attempts == p.attempts,
        n == 3 ==> o.backoff == p.backoff,
        n == 4 ==> o.lifo == p.lifo,
        n == 5 ==> o.remove_on_complete == p.remove_on_complete,
        n == 6 ==> o.remove_on_fail == p.remove_on_fail,
{
    let (x, y) = (entries_from(o, n + 1), entries_from(p, n + 1));
    let (a, b) = (option_value(o, n), option_value(p, n));
    lemma_not_again(o, n, n + 1);
    lemma_not_again(p, n, n + 1);
    lemma_entry(option_name(n), a, b, x, y);
    if a is Some {
        if n == 0 {
            law_uint_unambiguous(o.delay->0 as nat, p.delay->0 as nat, x, y);
        } else if n == 1 {
            law_uint_unambiguous(o.priority->0 as nat, p.priority->0 as nat, x, y);
        } else if n == 2 {
            law_uint_unambiguous(o.attempts->0 as nat, p.attempts->0 as nat, x, y);
        } else if n == 3 {
            law_packed_unambiguous(o.backoff->0, p.backoff->0, x, y);
        } else if n == 4 {
            law_bool_unambiguous(o.lifo->0, p.lifo->0, x, y);
        } else if n == 5 {
            law_keep_unambiguous(o.remove_on_complete->0, p.remove_on_complete->0, x, y);
        } else {
            law_keep_unambiguous(o.remove_on_fail->0, p.remove_on_fail->0, x, y);
        }
    }
}

/// The entries of an option map are those from the first on.
proof fn lemma_entries_whole(o: AddStandardJobOpts)
    ensures
        o.packed() == map_head(o.set_count()) + entries_from(o, 0),
{
    reveal_with_fuel(entries_from, 8);
    lemma_regroup_entries(
        map_head(o.set_count()),
        option_entry(o, 0),
        option_entry(o, 1),
        option_entry(o, 2),
        option_entry(o, 3),
        option_entry(o, 4),
        option_entry(o, 5),
        option_entry(o, 6),
    );
}

/// The packed options tell the script every option, and whether it is set: different options are
/// packed differently.
pub proof fn law_options_unambiguous(o: AddStandardJobOpts, p: AddStandardJobOpts)
    requires
        o.packed() == p.packed(),
    ensures
        o == p,
{
    lemma_entries_whole(o);
    lemma_entries_whole(p);
    lemma_cut(
        map_head(o.set_count()),
        map_head(p.set_count()),
        entries_from(o, 0),
        entries_from(p, 0),
    );
    lemma_entries_agree(o, p, 0);
    lemma_entries_agree(o, p, 1);
    lemma_entries_agree(o, p, 2);
    lemma_entries_agree(o, p, 3);
    lemma_entries_agree(o, p, 4);
    lemma_entries_agree(o, p, 5);
    lemma_entries_agree(o, p, 6);
}

/// How many finished jobs to keep is packed in the form in which it was given: a truth value, a
/// count, or the map of the limits that are set, each under its name.
pub proof fn law_keep_by_name(k: KeepJobsConfig) -> (limits: Seq<(Seq<char>, Seq<u8>)>)
    ensures
        match k {
            KeepJobsConfig::Bool(remove) => packed_keep(k) == packed_bool(remove),
            KeepJobsConfig::Count(n) => packed_keep(k) == packed_sint(n as int),
            KeepJobsConfig::Spec { age, count } => {
                &&& packed_keep(k) == packed_map(limits)
                &&& forall|name: Seq<char>, value: Seq<u8>| #[trigger]
                    limits.contains((name, value)) <==> {
                        ||| (name == "age"@ && age is Some && value == packed_sint(age->0 as int))
                        ||| (name == "count"@ && count is Some && value == packed_sint(
                            count->0 as int,
                        ))
                    }
            },
        },
{
    let none = Seq::<(Seq<char>, Seq<u8>)>::empty();
    if let KeepJobsConfig::Spec { age, count } = k {
        let head = map_head(present(age) + present(count));
        let one = with_entry(none, "age"@, optional_sint(age));
        let two = with_entry(one, "count"@, optional_sint(count));
        lemma_no_entries(head);
        lemma_with_entry(head, none, "age"@, optional_sint(age));
        lemma_with_entry(head, one, "count"@, optional_sint(count));
        two
    } else {
        none
    }
}

/// The packed options are a map that holds, under the name of each option that is set, the value
/// that was given for it, and nothing else.
pub proof fn law_options_by_name(o: AddStandardJobOpts) -> (entries: Seq<(Seq<char>, Seq<u8>)>)
    ensures
        o.packed() == packed_map(entries),
        forall|name: Seq<char>, value: Seq<u8>| #[trigger]
            entries.contains((name, value)) <==> {
                ||| (name == "delay"@ && o.delay is Some && value == packed_uint(o.delay->0 as nat))
                ||| (name == "priority"@ && o.priority is Some && value == packed_uint(
                    o.priority->0 as nat,
                ))
                ||| (name == "attempts"@ && o.attempts is Some && value == packed_uint(
                    o.attempts->0 as nat,
                ))
                ||| (name == "backoff"@ && o.backoff is Some && value == o.backoff->0.packed())
                ||| (name == "lifo"@ && o.lifo is Some && value == packed_bool(o.lifo->0))
                ||| (name == "removeOnComplete"@ && o.remove_on_complete is Some && value
                    == packed_keep(o.remove_on_complete->0))
                ||| (name == "removeOnFail"@ && o.remove_on_fail is Some && value == packed_keep(
                    o.remove_on_fail->0,
                ))
            },
{
    let head = map_head(o.set_count());
    let none = Seq::<(Seq<char>, Seq<u8>)>::empty();
    let e1 = with_entry(none, "delay"@, optional_uint(o.delay));
    let e2 = with_entry(e1, "priority"@, optional_small_uint(o.priority));
    let e3 = with_entry(e2, "attempts"@, optional_small_uint(o.attempts));
    let e4 = with_entry(e3, "backoff"@, optional_backoff(o.backoff));
    let e5 = with_entry(e4, "lifo"@, optional_bool(o.lifo));
    let e6 = with_entry(e5, "removeOnComplete"@, optional_keep(o.remove_on_complete));
    let e7 = with_entry(e6, "removeOnFail"@, optional_keep(o.remove_on_fail));
    lemma_no_entries(head);
    lemma_with_entry(head, none, "delay"@, optional_uint(o.delay));
    lemma_with_entry(head, e1, "priority"@, optional_small_uint(o.priority));
    lemma_with_entry(head, e2, "attempts"@, optional_small_uint(o.attempts));
    lemma_with_entry(head, e3, "backoff"@, optional_backoff(o.backoff));
    lemma_with_entry(head, e4, "lifo"@, optional_bool(o.lifo));
    lemma_with_entry(head, e5, "removeOnComplete"@, optional_keep(o.remove_on_complete));
    lemma_with_entry(head, e6, "removeOnFail"@, optional_keep(o.remove_on_fail));
    e7
}

} // verus!
