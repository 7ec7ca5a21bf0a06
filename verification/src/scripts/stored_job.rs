//! What is read of a stored job: the fields of its hash, in whatever order they come.

use vstd::prelude::*;
use vstd::utf8::{decode_utf8, encode_utf8, valid_utf8};
use crate::kernel::job::{JobFields, JobOptions, JobView};
use crate::reply::{law_number_field_reads_back, law_text_field_reads_back, number_field, text_field, RedisValue, ReplyErrorView};
use crate::scripts::move_to_active::{field_read, fields_read, four_items, reply_read, FoundView};
use crate::text::decimal;

verus! {

/// The fields of a job's hash that are read.
pub enum Field {
    Name,
    Data,
    Opts,
    Timestamp,
    Delay,
    Priority,
    ProcessedOn,
    Started,
    Made,
    Unknown,
}

/// The field with a name.
pub open spec fn field_named(name: Seq<char>) -> Field {
    if name == "name"@ {
        Field::Name
    } else if name == "data"@ {
        Field::Data
    } else if name == "opts"@ {
        Field::Opts
    } else if name == "timestamp"@ {
        Field::Timestamp
    } else if name == "delay"@ {
        Field::Delay
    } else if name == "priority"@ {
        Field::Priority
    } else if name == "processedOn"@ {
        Field::ProcessedOn
    } else if name == "ats"@ {
        Field::Started
    } else if name == "atm"@ {
        Field::Made
    } else {
        Field::Unknown
    }
}

/// The field that the bytes of a key name.
pub open spec fn field_of(key: Seq<u8>) -> Field {
    match text_field(key) {
        Ok(name) => field_named(name),
        Err(_) => Field::Unknown,
    }
}

/// Whether a list holds keys and values in turn, all of them strings.
pub open spec fn is_pairs(raw: Seq<RedisValue>) -> bool {
    raw.len() % 2 == 0 && forall|i: int| 0 <= i < raw.len() ==> #[trigger] raw[i] is Data
}

/// How many pairs a list holds.
pub open spec fn pair_count(raw: Seq<RedisValue>) -> nat {
    raw.len() / 2
}

/// A key of the list.
pub open spec fn key(raw: Seq<RedisValue>, i: int) -> Vec<u8> {
    raw[2 * i]->Data_0
}

/// The value of a key.
pub open spec fn value(raw: Seq<RedisValue>, i: int) -> Vec<u8> {
    raw[2 * i + 1]->Data_0
}

/// Whether no key that is read comes twice; the others may.
pub open spec fn read_keys_distinct(raw: Seq<RedisValue>) -> bool {
    forall|i: int, j: int|
        0 <= i < j < pair_count(raw) && field_of((#[trigger] key(raw, i))@) != Field::Unknown
            ==> key(raw, i)@ != (#[trigger] key(raw, j))@
}

/// Whether two sets of fields agree in one field.
pub open spec fn agree_in<D>(field: Field, a: JobFields<D>, b: JobFields<D>) -> bool {
    match field {
        Field::Name => a.name == b.name,
        Field::Data => a.data == b.data,
        Field::Opts => a.opts == b.opts && a.opts_err == b.opts_err,
        Field::Timestamp => a.timestamp == b.timestamp,
        Field::Delay => a.delay == b.delay,
        Field::Priority => a.priority == b.priority,
        Field::ProcessedOn => a.processed_on == b.processed_on,
        Field::Started => a.attempts_started == b.attempts_started,
        Field::Made => a.attempts_made == b.attempts_made,
        Field::Unknown => true,
    }
}

/// `a` with one field as in `b`.
pub open spec fn taking<D>(field: Field, a: JobFields<D>, b: JobFields<D>) -> JobFields<D> {
    match field {
        Field::Name => JobFields { name: b.name, ..a },
        Field::Data => JobFields { data: b.data, ..a },
        Field::Opts => JobFields { opts: b.opts, opts_err: b.opts_err, ..a },
        Field::Timestamp => JobFields { timestamp: b.timestamp, ..a },
        Field::Delay => JobFields { delay: b.delay, ..a },
        Field::Priority => JobFields { priority: b.priority, ..a },
        Field::ProcessedOn => JobFields { processed_on: b.processed_on, ..a },
        Field::Started => JobFields { attempts_started: b.attempts_started, ..a },
        Field::Made => JobFields { attempts_made: b.attempts_made, ..a },
        Field::Unknown => a,
    }
}

/// The fields without one of them.
pub open spec fn without<D>(field: Field, a: JobFields<D>) -> JobFields<D> {
    taking(field, a, JobFields::none())
}

/// Whether a pair is readable and `result` has what it says.
pub open spec fn says<
    D,
    DecodeData: Fn(&Vec<u8>) -> Result<D, String>,
    DecodeOpts: Fn(&Vec<u8>) -> Result<JobOptions, String>,
>(
    decode_data: DecodeData,
    decode_opts: DecodeOpts,
    key: Vec<u8>,
    value: Vec<u8>,
    result: JobFields<D>,
) -> bool {
    field_read(
        decode_data,
        decode_opts,
        key,
        value,
        without(field_of(key@), result),
        Ok::<JobFields<D>, ReplyErrorView>(result),
    )
}

/// Whether a pair from `from` on names a field.
pub open spec fn named_from(raw: Seq<RedisValue>, from: nat, field: Field) -> bool {
    exists|i: int| from <= i < pair_count(raw) && field_of((#[trigger] key(raw, i))@) == field
}

/// A pair that is read sets its field, and no other, to what the pair says.
proof fn lemma_read_says<
    D,
    DecodeData: Fn(&Vec<u8>) -> Result<D, String>,
    DecodeOpts: Fn(&Vec<u8>) -> Result<JobOptions, String>,
>(
    decode_data: DecodeData,
    decode_opts: DecodeOpts,
    key: Vec<u8>,
    value: Vec<u8>,
    before: JobFields<D>,
    next: JobFields<D>,
    result: JobFields<D>,
)
    requires
        before == without(field_of(key@), before),
        field_read(
            decode_data,
            decode_opts,
            key,
            value,
            before,
            Ok::<JobFields<D>, ReplyErrorView>(next),
        ),
        agree_in(field_of(key@), next, result),
    ensures
        next == taking(field_of(key@), before, next),
        says(decode_data, decode_opts, key, value, result),
{
}

/// A pair that says what the result has is read so.
proof fn lemma_says_read<
    D,
    DecodeData: Fn(&Vec<u8>) -> Result<D, String>,
    DecodeOpts: Fn(&Vec<u8>) -> Result<JobOptions, String>,
>(
    decode_data: DecodeData,
    decode_opts: DecodeOpts,
    key: Vec<u8>,
    value: Vec<u8>,
    before: JobFields<D>,
    result: JobFields<D>,
)
    requires
        before == without(field_of(key@), before),
        says(decode_data, decode_opts, key, value, result),
    ensures
        field_read(
            decode_data,
            decode_opts,
            key,
            value,
            before,
            Ok::<JobFields<D>, ReplyErrorView>(taking(field_of(key@), before, result)),
        ),
{
}

/// Two keys that name the same field are the same key.
proof fn lemma_same_field_same_key(a: Seq<u8>, b: Seq<u8>)
    requires
        field_of(a) == field_of(b),
        field_of(a) != Field::Unknown,
    ensures
        a == b,
{
    assert(text_field(a) == text_field(b));
    vstd::utf8::decode_utf8_encode_utf8(a);
    vstd::utf8::decode_utf8_encode_utf8(b);
}

/// Whether the pairs from `from` on say what the result has, and everything else is as before.
spec fn results_in<
    D,
    DecodeData: Fn(&Vec<u8>) -> Result<D, String>,
    DecodeOpts: Fn(&Vec<u8>) -> Result<JobOptions, String>,
>(
    decode_data: DecodeData,
    decode_opts: DecodeOpts,
    raw: Seq<RedisValue>,
    from: nat,
    before: JobFields<D>,
    result: JobFields<D>,
) -> bool {
    &&& forall|i: int|
        from <= i < pair_count(raw) ==> says(
            decode_data,
            decode_opts,
            #[trigger] key(raw, i),
            value(raw, i),
            result,
        )
    &&& forall|field: Field|
        !named_from(raw, from, field) ==> #[trigger] agree_in(field, before, result)
    &&& before.id == result.id
}

/// Whether none of the fields that the pairs from `from` on name is set.
spec fn fresh<D>(raw: Seq<RedisValue>, from: nat, before: JobFields<D>) -> bool {
    forall|i: int|
        from <= i < pair_count(raw) ==> before == without(
            field_of((#[trigger] key(raw, i))@),
            before,
        )
}

/// A pair further on names another field, or none that is read.
proof fn lemma_not_named_again(raw: Seq<RedisValue>, at: nat)
    requires
        read_keys_distinct(raw),
        at < pair_count(raw),
    ensures
        field_of(key(raw, at as int)@) == Field::Unknown || !named_from(
            raw,
            at + 1,
            field_of(key(raw, at as int)@),
        ),
        named_from(raw, at, field_of(key(raw, at as int)@)),
        forall|field: Field|
            named_from(raw, at, field) <==> field == field_of(key(raw, at as int)@) || named_from(
                raw,
                at + 1,
                field,
            ),
{
    let tag = field_of(key(raw, at as int)@);
    assert(named_from(raw, at, tag));
    if tag != Field::Unknown && named_from(raw, at + 1, tag) {
        let i = choose|i: int|
            at + 1 <= i < pair_count(raw) && field_of((#[trigger] key(raw, i))@) == tag;
        lemma_same_field_same_key(key(raw, at as int)@, key(raw, i)@);
    }
    assert forall|field: Field| named_from(raw, at, field) implies field == tag || named_from(
        raw,
        at + 1,
        field,
    ) by {
        let i = choose|i: int|
            at <= i < pair_count(raw) && field_of((#[trigger] key(raw, i))@) == field;
        if i > at {
            assert(at + 1 <= i && field_of(key(raw, i)@) == field);
        }
    }
    assert forall|field: Field| named_from(raw, at + 1, field) implies named_from(
        raw,
        at,
        field,
    ) by {
        let i = choose|i: int|
            at + 1 <= i < pair_count(raw) && field_of((#[trigger] key(raw, i))@) == field;
        assert(at <= i && field_of(key(raw, i)@) == field);
    }
}

/// Setting the field of one pair leaves the fields of the later ones unset.
proof fn lemma_still_fresh<D>(
    raw: Seq<RedisValue>,
    at: nat,
    before: JobFields<D>,
    next: JobFields<D>,
)
    requires
        read_keys_distinct(raw),
        at < pair_count(raw),
        fresh(raw, at, before),
        next == taking(field_of(key(raw, at as int)@), before, next),
    ensures
        fresh(raw, at + 1, next),
{
    lemma_not_named_again(raw, at);
    let tag = field_of(key(raw, at as int)@);
    assert forall|i: int| at + 1 <= i < pair_count(raw) implies next == without(
        field_of((#[trigger] key(raw, i))@),
        next,
    ) by {
        let other = field_of(key(raw, i)@);
        assert(before == without(other, before));
        assert(named_from(raw, at + 1, other));
    }
}

/// Reading the pairs from one on succeeds with a result exactly if they say what it has.
proof fn lemma_fields_read<
    D,
    DecodeData: Fn(&Vec<u8>) -> Result<D, String>,
    DecodeOpts: Fn(&Vec<u8>) -> Result<JobOptions, String>,
>(
    decode_data: DecodeData,
    decode_opts: DecodeOpts,
    raw: Seq<RedisValue>,
    at: nat,
    before: JobFields<D>,
    result: JobFields<D>,
)
    requires
        is_pairs(raw),
        read_keys_distinct(raw),
        at <= pair_count(raw),
        fresh(raw, at, before),
    ensures
        fields_read(
            decode_data,
            decode_opts,
            raw.skip(2 * at as int),
            before,
            Ok::<JobFields<D>, ReplyErrorView>(result),
        ) <==> results_in(decode_data, decode_opts, raw, at, before, result),
    decreases pair_count(raw) - at,
{
    let rest = raw.skip(2 * at as int);
    let done = Ok::<JobFields<D>, ReplyErrorView>(result);
    if at == pair_count(raw) {
        if results_in(decode_data, decode_opts, raw, at, before, result) {
            assert(agree_in(Field::Name, before, result));
            assert(agree_in(Field::Data, before, result));
            assert(agree_in(Field::Opts, before, result));
            assert(agree_in(Field::Timestamp, before, result));
            assert(agree_in(Field::Delay, before, result));
            assert(agree_in(Field::Priority, before, result));
            assert(agree_in(Field::ProcessedOn, before, result));
            assert(agree_in(Field::Started, before, result));
            assert(agree_in(Field::Made, before, result));
            assert(before =~= result);
        }
    } else {
        let (k, v) = (key(raw, at as int), value(raw, at as int));
        let tag = field_of(k@);
        assert(raw[2 * at as int] is Data && raw[(2 * at + 1) as int] is Data);
        assert(rest[0] == raw[2 * at as int] && rest[1] == raw[(2 * at + 1) as int]);
        assert(rest.skip(2) =~= raw.skip(2 * (at + 1) as int));
        lemma_not_named_again(raw, at);
        if fields_read(decode_data, decode_opts, rest, before, done) {
            let step = choose|step: Result<JobFields<D>, ReplyErrorView>| #[trigger]
                field_read(decode_data, decode_opts, k, v, before, step) && match step {
                    Ok(fields) => fields_read(
                        decode_data,
                        decode_opts,
                        rest.skip(2),
                        fields,
                        done,
                    ),
                    Err(e) => done == Err::<JobFields<D>, ReplyErrorView>(e),
                };
            let next = step->Ok_0;
            lemma_read_says(decode_data, decode_opts, k, v, before, next, next);
            lemma_still_fresh(raw, at, before, next);
            lemma_fields_read(decode_data, decode_opts, raw, at + 1, next, result);
            assert(agree_in(tag, next, result));
            lemma_read_says(decode_data, decode_opts, k, v, before, next, result);
            assert forall|field: Field| !named_from(raw, at, field) implies
                #[trigger] agree_in(field, before, result) by {
                assert(agree_in(field, next, result));
            }
        }
        if results_in(decode_data, decode_opts, raw, at, before, result) {
            let next = taking(tag, before, result);
            assert(says(decode_data, decode_opts, key(raw, at as int), v, result));
            lemma_says_read(decode_data, decode_opts, k, v, before, result);
            assert(next =~= taking(tag, before, next));
            lemma_still_fresh(raw, at, before, next);
            assert forall|field: Field| !named_from(raw, at + 1, field) implies
                #[trigger] agree_in(field, next, result) by {
                if field != tag {
                    assert(agree_in(field, before, result));
                }
            }
            lemma_fields_read(decode_data, decode_opts, raw, at + 1, next, result);
        }
    }
}

/// The reply about a job: a list of pairs, the job's id and two integers.
pub open spec fn is_job_reply(v: RedisValue, raw: Seq<RedisValue>, id: Seq<u8>) -> bool {
    four_items(v) matches Some((RedisValue::Bulk(list), RedisValue::Data(bytes), RedisValue::Int(_), RedisValue::Int(_)))
        && list@ == raw && bytes@ == id
}

/// Reading a reply gives a job exactly if its fields are read and make that job.
proof fn lemma_reply<
    D,
    DecodeData: Fn(&Vec<u8>) -> Result<D, String>,
    DecodeOpts: Fn(&Vec<u8>) -> Result<JobOptions, String>,
>(
    decode_data: DecodeData,
    decode_opts: DecodeOpts,
    v: RedisValue,
    raw: Seq<RedisValue>,
    id: Seq<char>,
    job: JobView<D>,
)
    requires
        is_job_reply(v, raw, encode_utf8(id)),
    ensures
        reply_read(
            decode_data,
            decode_opts,
            v,
            Ok::<FoundView<D>, ReplyErrorView>(FoundView::Job(job)),
        ) <==> exists|fields: JobFields<D>|
            #![trigger fields.built()]
            fields_read(
                decode_data,
                decode_opts,
                raw,
                JobFields::of_id(id),
                Ok::<JobFields<D>, ReplyErrorView>(fields),
            ) && fields.built() == Ok::<JobView<D>, Seq<char>>(job),
{
    law_text_field_reads_back(id);
    let start = JobFields::<D>::of_id(id);
    let out = Ok::<FoundView<D>, ReplyErrorView>(FoundView::Job(job));
    if reply_read(decode_data, decode_opts, v, out) {
        let fields = choose|fields: Result<JobFields<D>, ReplyErrorView>| #[trigger]
            fields_read(decode_data, decode_opts, raw, start, fields) && out == match fields {
                Ok(fields) => match fields.built() {
                    Ok(job) => Ok(FoundView::Job(job)),
                    Err(e) => Err(ReplyErrorView::JobBuild(e)),
                },
                Err(e) => Err(e),
            };
        assert(fields->Ok_0.built() == Ok::<JobView<D>, Seq<char>>(job));
    }
    if exists|fields: JobFields<D>|
        #![trigger fields.built()]
        fields_read(
            decode_data,
            decode_opts,
            raw,
            start,
            Ok::<JobFields<D>, ReplyErrorView>(fields),
        ) && fields.built() == Ok::<JobView<D>, Seq<char>>(job) {
        let fields = choose|fields: JobFields<D>|
            #![trigger fields.built()]
            fields_read(
                decode_data,
                decode_opts,
                raw,
                start,
                Ok::<JobFields<D>, ReplyErrorView>(fields),
            ) && fields.built() == Ok::<JobView<D>, Seq<char>>(job);
        let read = Ok::<JobFields<D>, ReplyErrorView>(fields);
        assert(fields_read(decode_data, decode_opts, raw, start, read));
    }
}

/// Whether a pair of one list is in another.
pub open spec fn has_pair(raw: Seq<RedisValue>, k: Vec<u8>, v: Vec<u8>) -> bool {
    exists|i: int| 0 <= i < pair_count(raw) && #[trigger] key(raw, i) == k && value(raw, i) == v
}

/// Whether one list has the pairs of another and otherwise only pairs whose keys are not read.
pub open spec fn extends(raw: Seq<RedisValue>, base: Seq<RedisValue>) -> bool {
    &&& forall|i: int|
        0 <= i < pair_count(base) ==> has_pair(raw, #[trigger] key(base, i), value(base, i))
    &&& forall|i: int|
        0 <= i < pair_count(raw) ==> has_pair(base, #[trigger] key(raw, i), value(raw, i)) || (
        valid_utf8(key(raw, i)@) && field_of(key(raw, i)@) == Field::Unknown)
}

/// The order of the pairs does not matter, nor do the two integers or pairs under keys that are
/// not read: the replies are read as the same job, or neither is read as a job.
pub proof fn law_field_order<
    D,
    DecodeData: Fn(&Vec<u8>) -> Result<D, String>,
    DecodeOpts: Fn(&Vec<u8>) -> Result<JobOptions, String>,
>(
    decode_data: DecodeData,
    decode_opts: DecodeOpts,
    v: RedisValue,
    raw: Seq<RedisValue>,
    other_v: RedisValue,
    other_raw: Seq<RedisValue>,
    id: Seq<u8>,
    job: JobView<D>,
)
    requires
        is_job_reply(v, raw, id),
        is_job_reply(other_v, other_raw, id),
        is_pairs(raw),
        is_pairs(other_raw),
        read_keys_distinct(raw),
        read_keys_distinct(other_raw),
        extends(other_raw, raw),
    ensures
        reply_read(
            decode_data,
            decode_opts,
            v,
            Ok::<FoundView<D>, ReplyErrorView>(FoundView::Job(job)),
        ) <==> reply_read(
            decode_data,
            decode_opts,
            other_v,
            Ok::<FoundView<D>, ReplyErrorView>(FoundView::Job(job)),
        ),
{
    if valid_utf8(id) {
        vstd::utf8::decode_utf8_encode_utf8(id);
        lemma_order_of_fields(
            decode_data,
            decode_opts,
            v,
            raw,
            other_v,
            other_raw,
            decode_utf8(id),
            job,
        );
    }
}

/// The same for an id that is a text.
proof fn lemma_order_of_fields<
    D,
    DecodeData: Fn(&Vec<u8>) -> Result<D, String>,
    DecodeOpts: Fn(&Vec<u8>) -> Result<JobOptions, String>,
>(
    decode_data: DecodeData,
    decode_opts: DecodeOpts,
    v: RedisValue,
    raw: Seq<RedisValue>,
    other_v: RedisValue,
    other_raw: Seq<RedisValue>,
    id: Seq<char>,
    job: JobView<D>,
)
    requires
        is_job_reply(v, raw, encode_utf8(id)),
        is_job_reply(other_v, other_raw, encode_utf8(id)),
        is_pairs(raw),
        is_pairs(other_raw),
        read_keys_distinct(raw),
        read_keys_distinct(other_raw),
        extends(other_raw, raw),
    ensures
        reply_read(
            decode_data,
            decode_opts,
            v,
            Ok::<FoundView<D>, ReplyErrorView>(FoundView::Job(job)),
        ) <==> reply_read(
            decode_data,
            decode_opts,
            other_v,
            Ok::<FoundView<D>, ReplyErrorView>(FoundView::Job(job)),
        ),
{
    lemma_reply(decode_data, decode_opts, v, raw, id, job);
    lemma_reply(decode_data, decode_opts, other_v, other_raw, id, job);
    let start = JobFields::<D>::of_id(id);
    assert forall|fields: JobFields<D>|
        #![trigger fields.built()]
        fields_read(
            decode_data,
            decode_opts,
            raw,
            start,
            Ok::<JobFields<D>, ReplyErrorView>(fields),
        ) <==> fields_read(
            decode_data,
            decode_opts,
            other_raw,
            start,
            Ok::<JobFields<D>, ReplyErrorView>(fields),
        ) by {
        assert(raw.skip(0) =~= raw && other_raw.skip(0) =~= other_raw);
        lemma_start_fresh(raw, id, start);
        lemma_start_fresh(other_raw, id, start);
        lemma_fields_read(decode_data, decode_opts, raw, 0, start, fields);
        lemma_fields_read(decode_data, decode_opts, other_raw, 0, start, fields);
        lemma_results_extend(decode_data, decode_opts, raw, other_raw, start, fields);
    }
}

/// At the start no field of the hash is set.
proof fn lemma_start_fresh<D>(raw: Seq<RedisValue>, id: Seq<char>, start: JobFields<D>)
    requires
        start == JobFields::<D>::of_id(id),
    ensures
        fresh(raw, 0, start),
{
    assert forall|i: int| 0 <= i < pair_count(raw) implies start == without(
        field_of((#[trigger] key(raw, i))@),
        start,
    ) by {
        assert(start =~= without(field_of(key(raw, i)@), start));
    }
}

/// A list and one that extends it say the same.
proof fn lemma_results_extend<
    D,
    DecodeData: Fn(&Vec<u8>) -> Result<D, String>,
    DecodeOpts: Fn(&Vec<u8>) -> Result<JobOptions, String>,
>(
    decode_data: DecodeData,
    decode_opts: DecodeOpts,
    raw: Seq<RedisValue>,
    other: Seq<RedisValue>,
    before: JobFields<D>,
    result: JobFields<D>,
)
    requires
        extends(other, raw),
    ensures
        results_in(decode_data, decode_opts, raw, 0, before, result) <==> results_in(
            decode_data,
            decode_opts,
            other,
            0,
            before,
            result,
        ),
{
    assert forall|field: Field| field != Field::Unknown implies (named_from(raw, 0, field)
        <==> named_from(other, 0, field)) by {
        if named_from(raw, 0, field) {
            let i = choose|i: int|
                0 <= i < pair_count(raw) && field_of((#[trigger] key(raw, i))@) == field;
            assert(has_pair(other, key(raw, i), value(raw, i)));
            let j = choose|j: int|
                0 <= j < pair_count(other) && #[trigger] key(other, j) == key(raw, i) && value(
                    other,
                    j,
                ) == value(raw, i);
            assert(field_of(key(other, j)@) == field);
        }
        if named_from(other, 0, field) {
            let i = choose|i: int|
                0 <= i < pair_count(other) && field_of((#[trigger] key(other, i))@) == field;
            assert(has_pair(raw, key(other, i), value(other, i)));
            let j = choose|j: int|
                0 <= j < pair_count(raw) && #[trigger] key(raw, j) == key(other, i) && value(
                    raw,
                    j,
                ) == value(other, i);
            assert(field_of(key(raw, j)@) == field);
        }
    }
    if results_in(decode_data, decode_opts, raw, 0, before, result) {
        assert forall|i: int| 0 <= i < pair_count(other) implies says(
            decode_data,
            decode_opts,
            #[trigger] key(other, i),
            value(other, i),
            result,
        ) by {
            if has_pair(raw, key(other, i), value(other, i)) {
                let j = choose|j: int|
                    0 <= j < pair_count(raw) && #[trigger] key(raw, j) == key(other, i) && value(
                        raw,
                        j,
                    ) == value(other, i);
                assert(says(decode_data, decode_opts, key(raw, j), value(raw, j), result));
            }
        }
    }
    if results_in(decode_data, decode_opts, other, 0, before, result) {
        assert forall|i: int| 0 <= i < pair_count(raw) implies says(
            decode_data,
            decode_opts,
            #[trigger] key(raw, i),
            value(raw, i),
            result,
        ) by {
            assert(has_pair(other, key(raw, i), value(raw, i)));
            let j = choose|j: int|
                0 <= j < pair_count(other) && #[trigger] key(other, j) == key(raw, i) && value(
                    other,
                    j,
                ) == value(raw, i);
            assert(says(decode_data, decode_opts, key(other, j), value(other, j), result));
        }
    }
}

/// Whether a pair has the given name and, as a text, the given value.
pub open spec fn is_text_pair(k: Vec<u8>, v: Vec<u8>, name: Seq<char>, text: Seq<char>) -> bool {
    k@ == encode_utf8(name) && v@ == encode_utf8(text)
}

/// Whether some pair has the given name and, as a text, the given value.
pub open spec fn has_text(raw: Seq<RedisValue>, name: Seq<char>, text: Seq<char>) -> bool {
    exists|i: int|
        0 <= i < pair_count(raw) && is_text_pair(#[trigger] key(raw, i), value(raw, i), name, text)
}

/// Whether a pair holds data that the reader takes for the given data.
pub open spec fn is_data_pair<D, DecodeData: Fn(&Vec<u8>) -> Result<D, String>>(
    decode_data: DecodeData,
    k: Vec<u8>,
    v: Vec<u8>,
    data: D,
) -> bool {
    k@ == encode_utf8("data"@) && forall|decoded: Result<D, String>| #[trigger]
        call_ensures(decode_data, (&v,), decoded) ==> decoded == Ok::<D, String>(data)
}

/// Whether a pair holds options that the reader takes for the given options.
pub open spec fn is_opts_pair<DecodeOpts: Fn(&Vec<u8>) -> Result<JobOptions, String>>(
    decode_opts: DecodeOpts,
    k: Vec<u8>,
    v: Vec<u8>,
    opts: JobOptions,
) -> bool {
    k@ == encode_utf8("opts"@) && valid_utf8(v@) && forall|decoded: Result<JobOptions, String>|
     #[trigger]
        call_ensures(decode_opts, (&v,), decoded) ==> decoded == Ok::<JobOptions, String>(opts)
}

/// Whether a list is the hash of a job: pairs in any order, every field of the job among them,
/// numbers in decimal notation, data and options that their readers accept. The count of
/// attempts is there only if an attempt was made; other keys are ignored.
pub open spec fn is_hash_of<
    D,
    DecodeData: Fn(&Vec<u8>) -> Result<D, String>,
    DecodeOpts: Fn(&Vec<u8>) -> Result<JobOptions, String>,
>(
    decode_data: DecodeData,
    decode_opts: DecodeOpts,
    raw: Seq<RedisValue>,
    job: JobView<D>,
) -> bool {
    &&& is_pairs(raw)
    &&& read_keys_distinct(raw)
    &&& forall|i: int| 0 <= i < pair_count(raw) ==> valid_utf8((#[trigger] key(raw, i))@)
    &&& has_text(raw, "name"@, job.name)
    &&& exists|i: int|
        0 <= i < pair_count(raw) && is_data_pair(
            decode_data,
            #[trigger] key(raw, i),
            value(raw, i),
            job.data,
        )
    &&& exists|i: int|
        0 <= i < pair_count(raw) && is_opts_pair(
            decode_opts,
            #[trigger] key(raw, i),
            value(raw, i),
            job.opts,
        )
    &&& has_text(raw, "timestamp"@, decimal(job.timestamp as nat))
    &&& has_text(raw, "delay"@, decimal(job.delay as nat))
    &&& has_text(raw, "priority"@, decimal(job.priority as nat))
    &&& has_text(raw, "processedOn"@, decimal(job.processed_on as nat))
    &&& has_text(raw, "ats"@, decimal(job.attempts_started as nat))
    &&& match job.attempts_made {
        Some(n) => has_text(raw, "atm"@, decimal(n as nat)),
        None => forall|i: int|
            0 <= i < pair_count(raw) ==> (#[trigger] key(raw, i))@ != encode_utf8("atm"@),
    }
}

/// The names of the fields are read as the fields.
pub(crate) proof fn lemma_names()
    ensures
        field_of(encode_utf8("name"@)) == Field::Name,
        field_of(encode_utf8("data"@)) == Field::Data,
        field_of(encode_utf8("opts"@)) == Field::Opts,
        field_of(encode_utf8("timestamp"@)) == Field::Timestamp,
        field_of(encode_utf8("delay"@)) == Field::Delay,
        field_of(encode_utf8("priority"@)) == Field::Priority,
        field_of(encode_utf8("processedOn"@)) == Field::ProcessedOn,
        field_of(encode_utf8("ats"@)) == Field::Started,
        field_of(encode_utf8("atm"@)) == Field::Made,
{
    reveal_strlit("name");
    reveal_strlit("data");
    reveal_strlit("opts");
    reveal_strlit("timestamp");
    reveal_strlit("delay");
    reveal_strlit("priority");
    reveal_strlit("processedOn");
    reveal_strlit("ats");
    reveal_strlit("atm");
    assert("name"@.len() == 4 && "data"@.len() == 4 && "opts"@.len() == 4);
    assert("name"@[0] == 'n' && "data"@[0] == 'd' && "opts"@[0] == 'o');
    assert("timestamp"@.len() == 9 && "delay"@.len() == 5 && "priority"@.len() == 8);
    assert("processedOn"@.len() == 11 && "ats"@.len() == 3 && "atm"@.len() == 3);
    assert("ats"@[2] == 's' && "atm"@[2] == 'm');
    law_text_field_reads_back("name"@);
    law_text_field_reads_back("data"@);
    law_text_field_reads_back("opts"@);
    law_text_field_reads_back("timestamp"@);
    law_text_field_reads_back("delay"@);
    law_text_field_reads_back("priority"@);
    law_text_field_reads_back("processedOn"@);
    law_text_field_reads_back("ats"@);
    law_text_field_reads_back("atm"@);
}

/// Whether a pair says what the job has, and nothing else can be read from it.
spec fn is_pair_of<
    D,
    DecodeData: Fn(&Vec<u8>) -> Result<D, String>,
    DecodeOpts: Fn(&Vec<u8>) -> Result<JobOptions, String>,
>(
    decode_data: DecodeData,
    decode_opts: DecodeOpts,
    k: Vec<u8>,
    v: Vec<u8>,
    job: JobView<D>,
) -> bool {
    match field_of(k@) {
        Field::Name => is_text_pair(k, v, "name"@, job.name),
        Field::Data => is_data_pair(decode_data, k, v, job.data),
        Field::Opts => is_opts_pair(decode_opts, k, v, job.opts),
        Field::Timestamp => is_text_pair(k, v, "timestamp"@, decimal(job.timestamp as nat)),
        Field::Delay => is_text_pair(k, v, "delay"@, decimal(job.delay as nat)),
        Field::Priority => is_text_pair(k, v, "priority"@, decimal(job.priority as nat)),
        Field::ProcessedOn => is_text_pair(k, v, "processedOn"@, decimal(job.processed_on as nat)),
        Field::Started => is_text_pair(k, v, "ats"@, decimal(job.attempts_started as nat)),
        Field::Made => job.attempts_made matches Some(n) && is_text_pair(
            k,
            v,
            "atm"@,
            decimal(n as nat),
        ),
        Field::Unknown => valid_utf8(k@),
    }
}

/// Every pair of a job's hash says what the job has.
proof fn lemma_pairs_of<
    D,
    DecodeData: Fn(&Vec<u8>) -> Result<D, String>,
    DecodeOpts: Fn(&Vec<u8>) -> Result<JobOptions, String>,
>(
    decode_data: DecodeData,
    decode_opts: DecodeOpts,
    raw: Seq<RedisValue>,
    job: JobView<D>,
    at: int,
)
    requires
        is_hash_of(decode_data, decode_opts, raw, job),
        0 <= at < pair_count(raw),
    ensures
        is_pair_of(decode_data, decode_opts, key(raw, at), value(raw, at), job),
{
    lemma_names();
    let k = key(raw, at);
    assert forall|i: int| 0 <= i < pair_count(raw) && field_of((#[trigger] key(raw, i))@)
        == field_of(k@) && field_of(k@) != Field::Unknown implies i == at by {
        lemma_same_field_same_key(key(raw, i)@, k@);
    }
    if field_of(k@) == Field::Made {
        lemma_same_field_same_key(k@, encode_utf8("atm"@));
    }
}

/// Such a pair is read without an error.
proof fn lemma_pair_readable<
    D,
    DecodeData: Fn(&Vec<u8>) -> Result<D, String>,
    DecodeOpts: Fn(&Vec<u8>) -> Result<JobOptions, String>,
>(
    decode_data: DecodeData,
    decode_opts: DecodeOpts,
    k: Vec<u8>,
    v: Vec<u8>,
    job: JobView<D>,
    before: JobFields<D>,
    step: Result<JobFields<D>, ReplyErrorView>,
)
    requires
        is_pair_of(decode_data, decode_opts, k, v, job),
        field_read(decode_data, decode_opts, k, v, before, step),
    ensures
        step is Ok,
{
    lemma_numbers_read(job);
    law_text_field_reads_back(job.name);
}

/// The numbers of a job are read back.
proof fn lemma_numbers_read<D>(job: JobView<D>)
    ensures
        crate::reply::number_field(
            encode_utf8(decimal(job.timestamp as nat)),
            "timestamp"@,
            u64::MAX as nat,
        ) == Ok::<nat, ReplyErrorView>(job.timestamp as nat),
        crate::reply::number_field(
            encode_utf8(decimal(job.delay as nat)),
            "delay"@,
            u64::MAX as nat,
        ) == Ok::<nat, ReplyErrorView>(job.delay as nat),
        crate::reply::number_field(
            encode_utf8(decimal(job.priority as nat)),
            "priority"@,
            u32::MAX as nat,
        ) == Ok::<nat, ReplyErrorView>(job.priority as nat),
        crate::reply::number_field(
            encode_utf8(decimal(job.processed_on as nat)),
            "processedOn"@,
            u64::MAX as nat,
        ) == Ok::<nat, ReplyErrorView>(job.processed_on as nat),
        crate::reply::number_field(
            encode_utf8(decimal(job.attempts_started as nat)),
            "ats"@,
            u32::MAX as nat,
        ) == Ok::<nat, ReplyErrorView>(job.attempts_started as nat),
        job.attempts_made matches Some(n) ==> crate::reply::number_field(
            encode_utf8(decimal(n as nat)),
            "atm"@,
            u32::MAX as nat,
        ) == Ok::<nat, ReplyErrorView>(n as nat),
{
    law_number_field_reads_back(job.timestamp as nat, "timestamp"@, u64::MAX as nat);
    law_number_field_reads_back(job.delay as nat, "delay"@, u64::MAX as nat);
    law_number_field_reads_back(job.priority as nat, "priority"@, u32::MAX as nat);
    law_number_field_reads_back(job.processed_on as nat, "processedOn"@, u64::MAX as nat);
    law_number_field_reads_back(job.attempts_started as nat, "ats"@, u32::MAX as nat);
    if let Some(n) = job.attempts_made {
        law_number_field_reads_back(n as nat, "atm"@, u32::MAX as nat);
    }
}

/// The fields of a job's hash are read without an error.
proof fn lemma_hash_readable<
    D,
    DecodeData: Fn(&Vec<u8>) -> Result<D, String>,
    DecodeOpts: Fn(&Vec<u8>) -> Result<JobOptions, String>,
>(
    decode_data: DecodeData,
    decode_opts: DecodeOpts,
    raw: Seq<RedisValue>,
    job: JobView<D>,
    at: nat,
    before: JobFields<D>,
    after: Result<JobFields<D>, ReplyErrorView>,
)
    requires
        is_hash_of(decode_data, decode_opts, raw, job),
        at <= pair_count(raw),
        fields_read(decode_data, decode_opts, raw.skip(2 * at as int), before, after),
    ensures
        after is Ok,
    decreases pair_count(raw) - at,
{
    if at < pair_count(raw) {
        let rest = raw.skip(2 * at as int);
        let (k, v) = (key(raw, at as int), value(raw, at as int));
        assert(raw[2 * at as int] is Data && raw[(2 * at + 1) as int] is Data);
        assert(rest[0] == raw[2 * at as int] && rest[1] == raw[(2 * at + 1) as int]);
        assert(rest.skip(2) =~= raw.skip(2 * (at + 1) as int));
        let step = choose|step: Result<JobFields<D>, ReplyErrorView>| #[trigger]
            field_read(decode_data, decode_opts, k, v, before, step) && match step {
                Ok(fields) => fields_read(decode_data, decode_opts, rest.skip(2), fields, after),
                Err(e) => after == Err::<JobFields<D>, ReplyErrorView>(e),
            };
        lemma_pairs_of(decode_data, decode_opts, raw, job, at as int);
        lemma_pair_readable(decode_data, decode_opts, k, v, job, before, step);
        lemma_hash_readable(decode_data, decode_opts, raw, job, at + 1, step->Ok_0, after);
    }
}

/// What a pair of the job's hash says is what the job has.
proof fn lemma_pair_says<
    D,
    DecodeData: Fn(&Vec<u8>) -> Result<D, String>,
    DecodeOpts: Fn(&Vec<u8>) -> Result<JobOptions, String>,
>(
    decode_data: DecodeData,
    decode_opts: DecodeOpts,
    k: Vec<u8>,
    v: Vec<u8>,
    job: JobView<D>,
    result: JobFields<D>,
)
    requires
        is_pair_of(decode_data, decode_opts, k, v, job),
        says(decode_data, decode_opts, k, v, result),
    ensures
        match field_of(k@) {
            Field::Name => result.name == Some(job.name),
            Field::Data => result.data == Some(job.data),
            Field::Opts => result.opts == Some(job.opts) && result.opts_err is None,
            Field::Timestamp => result.timestamp == Some(job.timestamp),
            Field::Delay => result.delay == Some(job.delay),
            Field::Priority => result.priority == Some(job.priority),
            Field::ProcessedOn => result.processed_on == Some(job.processed_on),
            Field::Started => result.attempts_started == Some(job.attempts_started),
            Field::Made => result.attempts_made == job.attempts_made,
            Field::Unknown => true,
        },
{
    lemma_numbers_read(job);
    law_text_field_reads_back(job.name);
}

/// A job is read back as it was stored: whatever the order of the fields in its hash, and
/// whatever else the hash holds, the reply is read as that job.
pub proof fn law_stored_job_reads_back<
    D,
    DecodeData: Fn(&Vec<u8>) -> Result<D, String>,
    DecodeOpts: Fn(&Vec<u8>) -> Result<JobOptions, String>,
>(
    decode_data: DecodeData,
    decode_opts: DecodeOpts,
    v: RedisValue,
    raw: Seq<RedisValue>,
    job: JobView<D>,
    out: Result<FoundView<D>, ReplyErrorView>,
)
    requires
        is_job_reply(v, raw, encode_utf8(job.id)),
        is_hash_of(decode_data, decode_opts, raw, job),
        reply_read(decode_data, decode_opts, v, out),
    ensures
        out == Ok::<FoundView<D>, ReplyErrorView>(FoundView::Job(job)),
{
    law_text_field_reads_back(job.id);
    let start = JobFields::<D>::of_id(job.id);
    let read = choose|fields: Result<JobFields<D>, ReplyErrorView>| #[trigger]
        fields_read(decode_data, decode_opts, raw, start, fields) && out == match fields {
            Ok(fields) => match fields.built() {
                Ok(job) => Ok(FoundView::Job(job)),
                Err(e) => Err(ReplyErrorView::JobBuild(e)),
            },
            Err(e) => Err(e),
        };
    assert(raw.skip(0) =~= raw);
    lemma_hash_readable(decode_data, decode_opts, raw, job, 0, start, read);
    let result = read->Ok_0;
    lemma_start_fresh(raw, job.id, start);
    lemma_fields_read(decode_data, decode_opts, raw, 0, start, result);
    lemma_result_is_job(decode_data, decode_opts, raw, job, start, result);
}

/// The fields that a job's hash results in make that job.
proof fn lemma_result_is_job<
    D,
    DecodeData: Fn(&Vec<u8>) -> Result<D, String>,
    DecodeOpts: Fn(&Vec<u8>) -> Result<JobOptions, String>,
>(
    decode_data: DecodeData,
    decode_opts: DecodeOpts,
    raw: Seq<RedisValue>,
    job: JobView<D>,
    start: JobFields<D>,
    result: JobFields<D>,
)
    requires
        start == JobFields::<D>::of_id(job.id),
        is_hash_of(decode_data, decode_opts, raw, job),
        results_in(decode_data, decode_opts, raw, 0, start, result),
    ensures
        result.built() == Ok::<JobView<D>, Seq<char>>(job),
{
    lemma_names();
    assert forall|i: int| 0 <= i < pair_count(raw) implies match field_of(
        (#[trigger] key(raw, i))@,
    ) {
        Field::Name => result.name == Some(job.name),
        Field::Data => result.data == Some(job.data),
        Field::Opts => result.opts == Some(job.opts) && result.opts_err is None,
        Field::Timestamp => result.timestamp == Some(job.timestamp),
        Field::Delay => result.delay == Some(job.delay),
        Field::Priority => result.priority == Some(job.priority),
        Field::ProcessedOn => result.processed_on == Some(job.processed_on),
        Field::Started => result.attempts_started == Some(job.attempts_started),
        Field::Made => result.attempts_made == job.attempts_made,
        Field::Unknown => true,
    } by {
        lemma_pairs_of(decode_data, decode_opts, raw, job, i);
        assert(says(decode_data, decode_opts, key(raw, i), value(raw, i), result));
        lemma_pair_says(decode_data, decode_opts, key(raw, i), value(raw, i), job, result);
    }
    if job.attempts_made is None {
        if named_from(raw, 0, Field::Made) {
            let i = choose|i: int|
                0 <= i < pair_count(raw) && field_of((#[trigger] key(raw, i))@) == Field::Made;
            lemma_same_field_same_key(key(raw, i)@, encode_utf8("atm"@));
        }
        assert(agree_in(Field::Made, start, result));
    }
}

/// A job is read from what its hash says and from nothing else: its id is that of the reply, each
/// field has the value that stands under the field's name, and every field that a job needs is
/// there. The count of attempts is that of the hash, or none where it has none.
pub proof fn law_job_read_from_hash<
    D,
    DecodeData: Fn(&Vec<u8>) -> Result<D, String>,
    DecodeOpts: Fn(&Vec<u8>) -> Result<JobOptions, String>,
>(
    decode_data: DecodeData,
    decode_opts: DecodeOpts,
    v: RedisValue,
    raw: Seq<RedisValue>,
    id: Seq<u8>,
    job: JobView<D>,
    i: int,
)
    requires
        is_job_reply(v, raw, id),
        is_pairs(raw),
        read_keys_distinct(raw),
        reply_read(
            decode_data,
            decode_opts,
            v,
            Ok::<FoundView<D>, ReplyErrorView>(FoundView::Job(job)),
        ),
        0 <= i < pair_count(raw),
    ensures
        text_field(id) == Ok::<Seq<char>, ReplyErrorView>(job.id),
        ({
            let (k, val) = (key(raw, i)@, value(raw, i)@);
            &&& k == encode_utf8("name"@) ==> text_field(val) == Ok::<Seq<char>, ReplyErrorView>(
                job.name,
            )
            &&& k == encode_utf8("data"@) ==> call_ensures(
                decode_data,
                (&value(raw, i),),
                Ok::<D, String>(job.data),
            )
            &&& k == encode_utf8("opts"@) ==> call_ensures(
                decode_opts,
                (&value(raw, i),),
                Ok::<JobOptions, String>(job.opts),
            )
            &&& k == encode_utf8("timestamp"@) ==> number_field(val, "timestamp"@, u64::MAX as nat)
                == Ok::<nat, ReplyErrorView>(job.timestamp as nat)
            &&& k == encode_utf8("delay"@) ==> number_field(val, "delay"@, u64::MAX as nat) == Ok::<
                nat,
                ReplyErrorView,
            >(job.delay as nat)
            &&& k == encode_utf8("priority"@) ==> number_field(val, "priority"@, u32::MAX as nat)
                == Ok::<nat, ReplyErrorView>(job.priority as nat)
            &&& k == encode_utf8("processedOn"@) ==> number_field(
                val,
                "processedOn"@,
                u64::MAX as nat,
            ) == Ok::<nat, ReplyErrorView>(job.processed_on as nat)
            &&& k == encode_utf8("ats"@) ==> number_field(val, "ats"@, u32::MAX as nat) == Ok::<
                nat,
                ReplyErrorView,
            >(job.attempts_started as nat)
            &&& k == encode_utf8("atm"@) ==> job.attempts_made is Some && number_field(
                val,
                "atm"@,
                u32::MAX as nat,
            ) == Ok::<nat, ReplyErrorView>(job.attempts_made->0 as nat)
        }),
        named_from(raw, 0, Field::Name) && named_from(raw, 0, Field::Data),
        named_from(raw, 0, Field::Opts) && named_from(raw, 0, Field::Timestamp),
        named_from(raw, 0, Field::Delay) && named_from(raw, 0, Field::Priority),
        named_from(raw, 0, Field::ProcessedOn) && named_from(raw, 0, Field::Started),
        !named_from(raw, 0, Field::Made) ==> job.attempts_made is None,
{
    lemma_names();
    let text = decode_utf8(id);
    vstd::utf8::decode_utf8_encode_utf8(id);
    assert(valid_utf8(id));
    lemma_reply(decode_data, decode_opts, v, raw, text, job);
    let start = JobFields::<D>::of_id(text);
    let fields = choose|fields: JobFields<D>|
        #![trigger fields.built()]
        fields_read(
            decode_data,
            decode_opts,
            raw,
            start,
            Ok::<JobFields<D>, ReplyErrorView>(fields),
        ) && fields.built() == Ok::<JobView<D>, Seq<char>>(job);
    assert(raw.skip(0) =~= raw);
    lemma_start_fresh(raw, text, start);
    lemma_fields_read(decode_data, decode_opts, raw, 0, start, fields);
    lemma_all_fields_named(decode_data, decode_opts, raw, start, fields, text, job);
    assert(says(decode_data, decode_opts, key(raw, i), value(raw, i), fields));
    lemma_what_a_pair_says(decode_data, decode_opts, key(raw, i), value(raw, i), fields, job);
}

/// What fields result in a job are named, and the count of attempts comes from a named field.
proof fn lemma_all_fields_named<
    D,
    DecodeData: Fn(&Vec<u8>) -> Result<D, String>,
    DecodeOpts: Fn(&Vec<u8>) -> Result<JobOptions, String>,
>(
    decode_data: DecodeData,
    decode_opts: DecodeOpts,
    raw: Seq<RedisValue>,
    start: JobFields<D>,
    fields: JobFields<D>,
    id: Seq<char>,
    job: JobView<D>,
)
    requires
        start == JobFields::<D>::of_id(id),
        results_in(decode_data, decode_opts, raw, 0, start, fields),
        fields.built() == Ok::<JobView<D>, Seq<char>>(job),
    ensures
        job.id == id,
        named_from(raw, 0, Field::Name) && named_from(raw, 0, Field::Data),
        named_from(raw, 0, Field::Opts) && named_from(raw, 0, Field::Timestamp),
        named_from(raw, 0, Field::Delay) && named_from(raw, 0, Field::Priority),
        named_from(raw, 0, Field::ProcessedOn) && named_from(raw, 0, Field::Started),
        !named_from(raw, 0, Field::Made) ==> job.attempts_made is None,
{
    assert(!named_from(raw, 0, Field::Name) ==> agree_in(Field::Name, start, fields));
    assert(!named_from(raw, 0, Field::Data) ==> agree_in(Field::Data, start, fields));
    assert(!named_from(raw, 0, Field::Opts) ==> agree_in(Field::Opts, start, fields));
    assert(!named_from(raw, 0, Field::Timestamp) ==> agree_in(Field::Timestamp, start, fields));
    assert(!named_from(raw, 0, Field::Delay) ==> agree_in(Field::Delay, start, fields));
    assert(!named_from(raw, 0, Field::Priority) ==> agree_in(Field::Priority, start, fields));
    assert(!named_from(raw, 0, Field::ProcessedOn) ==> agree_in(Field::ProcessedOn, start, fields));
    assert(!named_from(raw, 0, Field::Started) ==> agree_in(Field::Started, start, fields));
    assert(!named_from(raw, 0, Field::Made) ==> agree_in(Field::Made, start, fields));
}

/// What a pair says is what the job has.
proof fn lemma_what_a_pair_says<
    D,
    DecodeData: Fn(&Vec<u8>) -> Result<D, String>,
    DecodeOpts: Fn(&Vec<u8>) -> Result<JobOptions, String>,
>(
    decode_data: DecodeData,
    decode_opts: DecodeOpts,
    k: Vec<u8>,
    val: Vec<u8>,
    fields: JobFields<D>,
    job: JobView<D>,
)
    requires
        says(decode_data, decode_opts, k, val, fields),
        fields.built() == Ok::<JobView<D>, Seq<char>>(job),
    ensures
        match field_of(k@) {
            Field::Name => text_field(val@) == Ok::<Seq<char>, ReplyErrorView>(job.name),
            Field::Data => call_ensures(decode_data, (&val,), Ok::<D, String>(job.data)),
            Field::Opts => call_ensures(decode_opts, (&val,), Ok::<JobOptions, String>(job.opts)),
            Field::Timestamp => number_field(val@, "timestamp"@, u64::MAX as nat) == Ok::<
                nat,
                ReplyErrorView,
            >(job.timestamp as nat),
            Field::Delay => number_field(val@, "delay"@, u64::MAX as nat) == Ok::<
                nat,
                ReplyErrorView,
            >(job.delay as nat),
            Field::Priority => number_field(val@, "priority"@, u32::MAX as nat) == Ok::<
                nat,
                ReplyErrorView,
            >(job.priority as nat),
            Field::ProcessedOn => number_field(val@, "processedOn"@, u64::MAX as nat) == Ok::<
                nat,
                ReplyErrorView,
            >(job.processed_on as nat),
            Field::Started => number_field(val@, "ats"@, u32::MAX as nat) == Ok::<
                nat,
                ReplyErrorView,
            >(job.attempts_started as nat),
            Field::Made => job.attempts_made is Some && number_field(
                val@,
                "atm"@,
                u32::MAX as nat,
            ) == Ok::<nat, ReplyErrorView>(job.attempts_made->0 as nat),
            Field::Unknown => true,
        },
{
    lemma_number_bound(val@, "timestamp"@, u64::MAX as nat);
    lemma_number_bound(val@, "delay"@, u64::MAX as nat);
    lemma_number_bound(val@, "priority"@, u32::MAX as nat);
    lemma_number_bound(val@, "processedOn"@, u64::MAX as nat);
    lemma_number_bound(val@, "ats"@, u32::MAX as nat);
    lemma_number_bound(val@, "atm"@, u32::MAX as nat);
}

/// A number that is read is within the limit.
proof fn lemma_number_bound(bytes: Seq<u8>, field: Seq<char>, max: nat)
    ensures
        number_field(bytes, field, max) matches Ok(n) ==> n <= max,
{
}

/// Reading a list and then one more pair.
proof fn lemma_one_more_pair<
    D,
    DecodeData: Fn(&Vec<u8>) -> Result<D, String>,
    DecodeOpts: Fn(&Vec<u8>) -> Result<JobOptions, String>,
>(
    decode_data: DecodeData,
    decode_opts: DecodeOpts,
    raw: Seq<RedisValue>,
    k: Vec<u8>,
    val: Vec<u8>,
    before: JobFields<D>,
    out: JobFields<D>,
) -> (mid: JobFields<D>)
    requires
        raw.len() % 2 == 0,
        fields_read(
            decode_data,
            decode_opts,
            raw.push(RedisValue::Data(k)).push(RedisValue::Data(val)),
            before,
            Ok::<JobFields<D>, ReplyErrorView>(out),
        ),
    ensures
        fields_read(
            decode_data,
            decode_opts,
            raw,
            before,
            Ok::<JobFields<D>, ReplyErrorView>(mid),
        ),
        field_read(decode_data, decode_opts, k, val, mid, Ok::<JobFields<D>, ReplyErrorView>(out)),
    decreases raw.len(),
{
    let whole = raw.push(RedisValue::Data(k)).push(RedisValue::Data(val));
    let done = Ok::<JobFields<D>, ReplyErrorView>(out);
    if raw.len() == 0 {
        let step = choose|step: Result<JobFields<D>, ReplyErrorView>| #[trigger]
            field_read(decode_data, decode_opts, k, val, before, step) && match step {
                Ok(fields) => fields_read(decode_data, decode_opts, whole.skip(2), fields, done),
                Err(e) => done == Err::<JobFields<D>, ReplyErrorView>(e),
            };
        assert(whole[0] == RedisValue::Data(k) && whole[1] == RedisValue::Data(val));
        before
    } else {
        assert(whole[0] == raw[0] && whole[1] == raw[1]);
        assert(whole.skip(2) =~= raw.skip(2).push(RedisValue::Data(k)).push(RedisValue::Data(val)));
        match (raw[0], raw[1]) {
            (RedisValue::Data(first), RedisValue::Data(value)) => {
                let step = choose|step: Result<JobFields<D>, ReplyErrorView>| #[trigger]
                    field_read(decode_data, decode_opts, first, value, before, step) && match step {
                        Ok(fields) => fields_read(
                            decode_data,
                            decode_opts,
                            whole.skip(2),
                            fields,
                            done,
                        ),
                        Err(e) => done == Err::<JobFields<D>, ReplyErrorView>(e),
                    };
                let mid = lemma_one_more_pair(
                    decode_data,
                    decode_opts,
                    raw.skip(2),
                    k,
                    val,
                    step->Ok_0,
                    out,
                );
                assert(field_read(decode_data, decode_opts, first, value, before, step));
                mid
            },
            _ => lemma_one_more_pair(decode_data, decode_opts, raw.skip(2), k, val, before, out),
        }
    }
}

/// The last value of a field counts: whatever stands before it, also under the same key, a hash
/// that is read has the value of its last pair, and a last pair under a key that is not read
/// changes nothing.
pub proof fn law_last_value_counts<
    D,
    DecodeData: Fn(&Vec<u8>) -> Result<D, String>,
    DecodeOpts: Fn(&Vec<u8>) -> Result<JobOptions, String>,
>(
    decode_data: DecodeData,
    decode_opts: DecodeOpts,
    raw: Seq<RedisValue>,
    k: Vec<u8>,
    val: Vec<u8>,
    before: JobFields<D>,
    out: JobFields<D>,
)
    requires
        raw.len() % 2 == 0,
        fields_read(
            decode_data,
            decode_opts,
            raw.push(RedisValue::Data(k)).push(RedisValue::Data(val)),
            before,
            Ok::<JobFields<D>, ReplyErrorView>(out),
        ),
    ensures
        k@ == encode_utf8("name"@) ==> out.name is Some && text_field(val@) == Ok::<
            Seq<char>,
            ReplyErrorView,
        >(out.name->0),
        k@ == encode_utf8("data"@) ==> out.data is Some && call_ensures(
            decode_data,
            (&val,),
            Ok::<D, String>(out.data->0),
        ),
        k@ == encode_utf8("timestamp"@) ==> out.timestamp is Some && number_field(
            val@,
            "timestamp"@,
            u64::MAX as nat,
        ) == Ok::<nat, ReplyErrorView>(out.timestamp->0 as nat),
        k@ == encode_utf8("delay"@) ==> out.delay is Some && number_field(
            val@,
            "delay"@,
            u64::MAX as nat,
        ) == Ok::<nat, ReplyErrorView>(out.delay->0 as nat),
        k@ == encode_utf8("priority"@) ==> out.priority is Some && number_field(
            val@,
            "priority"@,
            u32::MAX as nat,
        ) == Ok::<nat, ReplyErrorView>(out.priority->0 as nat),
        k@ == encode_utf8("processedOn"@) ==> out.processed_on is Some && number_field(
            val@,
            "processedOn"@,
            u64::MAX as nat,
        ) == Ok::<nat, ReplyErrorView>(out.processed_on->0 as nat),
        k@ == encode_utf8("ats"@) ==> out.attempts_started is Some && number_field(
            val@,
            "ats"@,
            u32::MAX as nat,
        ) == Ok::<nat, ReplyErrorView>(out.attempts_started->0 as nat),
        k@ == encode_utf8("atm"@) ==> out.attempts_made is Some && number_field(
            val@,
            "atm"@,
            u32::MAX as nat,
        ) == Ok::<nat, ReplyErrorView>(out.attempts_made->0 as nat),
        field_of(k@) == Field::Unknown ==> fields_read(
            decode_data,
            decode_opts,
            raw,
            before,
            Ok::<JobFields<D>, ReplyErrorView>(out),
        ),
{
    lemma_names();
    let mid = lemma_one_more_pair(decode_data, decode_opts, raw, k, val, before, out);
    lemma_number_bound(val@, "timestamp"@, u64::MAX as nat);
    lemma_number_bound(val@, "delay"@, u64::MAX as nat);
    lemma_number_bound(val@, "priority"@, u32::MAX as nat);
    lemma_number_bound(val@, "processedOn"@, u64::MAX as nat);
    lemma_number_bound(val@, "ats"@, u32::MAX as nat);
    lemma_number_bound(val@, "atm"@, u32::MAX as nat);
}

} // verus!
