use hornetmq::kernel::backoff::BackoffStrategy;
use hornetmq::kernel::job::{JobOptions, KeepJobs, KeepJobsConfig};
use hornetmq::queue::{AddCall, AddJobOptions, Queue};
use hornetmq::queue_keys::{prefix_of, prefixed, QueueKeys};
use hornetmq::reply::{parse_redis_field, parse_redis_str, RedisValue, ReplyError};
use hornetmq::scripts::add_standard_job::{build_argv1, AddStandardJob, AddStandardJobOpts};
use hornetmq::scripts::add_delayed_job::AddDelayedJob;
use hornetmq::scripts::{bytes_of, ScriptCall};
use hornetmq::scripts::move_to_active::{Limiter, MoveToActive, MoveToActiveArgs, MoveToActiveReturn};
use hornetmq::scripts::move_to_finished::{
    MoveToFinished, MoveToFinishedArgs, MoveToFinishedReturn, MoveToFinishedTarget,
};
use hornetmq::scripts::retry_job::{RetryJob, RetryJobReturn};
use serde_json::Value;

fn no_options() -> AddStandardJobOpts {
    AddStandardJobOpts {
        delay: None,
        priority: None,
        attempts: None,
        backoff: None,
        lifo: None,
        remove_on_complete: None,
        remove_on_fail: None,
    }
}

fn unpack(bytes: &[u8]) -> Value {
    rmp_serde::from_slice(bytes).unwrap()
}

fn json(s: &str) -> Value {
    serde_json::from_str(s).unwrap()
}

fn data(s: &str) -> RedisValue {
    RedisValue::Data(s.as_bytes().to_vec())
}

fn read_data(bytes: &Vec<u8>) -> Result<u32, String> {
    serde_json::from_slice::<u32>(bytes).map_err(|e| e.to_string())
}

fn read_opts(bytes: &Vec<u8>) -> Result<JobOptions, String> {
    let value: Value = serde_json::from_slice(bytes).map_err(|e| e.to_string())?;
    Ok(JobOptions {
        attempts: value["attempts"].as_u64().unwrap_or(0) as u32,
        backoff: None,
        delay: 0,
        remove_on_complete: None,
        remove_on_fail: None,
        lifo: false,
    })
}

fn read(v: &RedisValue) -> Result<MoveToActiveReturn<u32>, ReplyError> {
    MoveToActiveReturn::from_redis_value(v, &read_data, &read_opts)
}

fn job_reply(fields: Vec<RedisValue>) -> RedisValue {
    RedisValue::Bulk(vec![
        RedisValue::Bulk(fields),
        data("42"),
        RedisValue::Int(0),
        RedisValue::Int(0),
    ])
}

fn full_hash() -> Vec<RedisValue> {
    let mut list = Vec::new();
    for (key, value) in [
        ("name", "send"),
        ("data", "7"),
        ("opts", r#"{"attempts":3}"#),
        ("timestamp", "1700000000000"),
        ("delay", "5"),
        ("priority", "6"),
        ("processedOn", "1700000000001"),
        ("ats", "2"),
        ("atm", "1"),
    ] {
        list.push(data(key));
        list.push(data(value));
    }
    list
}

fn parse_error(fields: Vec<RedisValue>) -> (String, Option<String>) {
    let e = read(&job_reply(fields)).unwrap_err();
    (e.description().to_string(), e.detail())
}

#[test]
fn keys_are_prefixed_with_the_queue() {
    assert_eq!(prefix_of("emails"), "bull:emails:");
    let keys = vec![
        QueueKeys::Wait,
        QueueKeys::Active,
        QueueKeys::Prioritized,
        QueueKeys::Events,
        QueueKeys::Stalled,
        QueueKeys::Limiter,
        QueueKeys::Delayed,
        QueueKeys::Paused,
        QueueKeys::Meta,
        QueueKeys::Pc,
        QueueKeys::Marker,
        QueueKeys::Custom("17".to_string()),
    ];
    assert_eq!(
        prefixed(&keys, "bull:q:"),
        vec![
            "bull:q:wait", "bull:q:active", "bull:q:prioritized", "bull:q:events",
            "bull:q:stalled", "bull:q:limiter", "bull:q:delayed", "bull:q:paused", "bull:q:meta",
            "bull:q:pc", "bull:q:marker", "bull:q:17",
        ]
    );
}

#[test]
fn argv1_is_an_array_of_nine() {
    let bytes = build_argv1("bull:q:", "send", "1700000000000", "my-id");
    assert_eq!(
        unpack(&bytes),
        json(r#"["bull:q:","my-id","send",1700000000000,null,null,null,null,null]"#)
    );
    let mut expected = vec![0x99, 0xa7];
    expected.extend_from_slice(b"bull:q:");
    expected.push(0xa0);
    expected.push(0xa1);
    expected.extend_from_slice(b"n");
    expected.extend_from_slice(&[0x05, 0xc0, 0xc0, 0xc0, 0xc0, 0xc0]);
    assert_eq!(build_argv1("bull:q:", "n", "5", ""), expected);
}

#[test]
fn argv1_packs_every_size_of_timestamp() {
    for n in [
        0i64, 127, 128, 255, 256, 65535, 65536, 4294967295, 4294967296, i64::MAX, -1, -32, -33,
        -128, -129, -32768, -32769, -2147483648, -2147483649, i64::MIN,
    ] {
        let bytes = build_argv1("p", "n", &n.to_string(), "");
        let mut expected = vec![0x99, 0xa1, b'p', 0xa0, 0xa1, b'n'];
        expected.extend_from_slice(&rmp_serde::to_vec(&n).unwrap());
        expected.extend_from_slice(&[0xc0; 5]);
        assert_eq!(bytes, expected, "{n}");
    }
}

#[test]
fn argv1_packs_every_size_of_text() {
    for len in [0usize, 1, 31, 32, 255, 256, 65535, 65536] {
        let name = "x".repeat(len);
        let bytes = build_argv1("p", &name, "0", "");
        let mut expected = vec![0x99, 0xa1, b'p', 0xa0];
        expected.extend_from_slice(&rmp_serde::to_vec(&name).unwrap());
        expected.extend_from_slice(&[0x00, 0xc0, 0xc0, 0xc0, 0xc0, 0xc0]);
        assert_eq!(bytes, expected, "{len}");
    }
    let accents = build_argv1("p", "é€😀", "0", "");
    assert_eq!(unpack(&accents)[2], json(r#""é€😀""#));
}

#[test]
fn options_pack_only_what_is_set() {
    assert_eq!(no_options().to_msgpack(), vec![0x80]);
    let some = AddStandardJobOpts { attempts: Some(3), lifo: Some(true), ..no_options() };
    assert_eq!(unpack(&some.to_msgpack()), json(r#"{"attempts":3,"lifo":true}"#));
    let all = AddStandardJobOpts {
        delay: Some(u64::MAX),
        priority: Some(u32::MAX),
        attempts: Some(128),
        backoff: Some(BackoffStrategy::Exponential { base: 1000, max: 30000 }),
        lifo: Some(false),
        remove_on_complete: Some(KeepJobsConfig::Spec { age: Some(-5), count: Some(100) }),
        remove_on_fail: Some(KeepJobsConfig::Bool(true)),
    };
    assert_eq!(
        unpack(&all.to_msgpack()),
        json(
            r#"{"delay":18446744073709551615,"priority":4294967295,"attempts":128,
                "backoff":{"type":"exponential","delay":1000,"max":30000},"lifo":false,
                "removeOnComplete":{"age":-5,"count":100},"removeOnFail":true}"#
        )
    );
    let count = AddStandardJobOpts {
        remove_on_complete: Some(KeepJobsConfig::Count(-300)),
        remove_on_fail: Some(KeepJobsConfig::Spec { age: None, count: None }),
        ..no_options()
    };
    assert_eq!(
        unpack(&count.to_msgpack()),
        json(r#"{"removeOnComplete":-300,"removeOnFail":{}}"#)
    );
}

#[test]
fn options_pack_delays_as_serde_does() {
    for delay in [0u64, 127, 128, 255, 256, 65535, 65536, 4294967295, 4294967296, u64::MAX] {
        let opts = AddStandardJobOpts { delay: Some(delay), ..no_options() };
        let mut object = serde_json::Map::new();
        object.insert("delay".to_string(), Value::from(delay));
        let expected = rmp_serde::to_vec_named(&Value::Object(object)).unwrap();
        assert_eq!(opts.to_msgpack(), expected, "{delay}");
    }
}

#[test]
fn add_standard_job_call() {
    let opts = AddStandardJobOpts { delay: Some(60_000), ..no_options() };
    let call = AddStandardJob.run("bull:q:", "send", r#"{"x":1}"#, &opts, "", 1700000000000);
    assert_eq!(
        call.keys,
        vec![
            "bull:q:wait", "bull:q:paused", "bull:q:meta", "bull:q:id", "bull:q:completed",
            "bull:q:events", "bull:q:marker",
        ]
    );
    assert_eq!(call.args.len(), 3);
    assert_eq!(call.args[0], build_argv1("bull:q:", "send", "1700000000000", ""));
    assert_eq!(call.args[1], br#"{"x":1}"#.to_vec());
    assert_eq!(call.args[2], opts.to_msgpack());
}

fn standard(call: AddCall) -> ScriptCall {
    match call {
        AddCall::Standard(call) => call,
        other => panic!("{other:?}"),
    }
}

#[test]
fn delayed_add_goes_to_the_delayed_set() {
    let queue = Queue::new("q".to_string());
    for priority in [None, Some(5)] {
        let opts = AddJobOptions { delay: Some(60_000), priority, ..AddJobOptions::default() };
        match queue.add("combo", r#"{"x":1}"#, opts, 1700000000000) {
            AddCall::Delayed(call) => {
                assert_eq!(
                    call.keys,
                    vec![
                        "bull:q:marker", "bull:q:meta", "bull:q:id", "bull:q:delayed",
                        "bull:q:completed", "bull:q:events",
                    ]
                );
                assert!(!call.keys.contains(&"bull:q:wait".to_string()));
                assert_eq!(call.args[0], build_argv1("bull:q:", "combo", "1700000000000", ""));
                assert_eq!(call.args[1], br#"{"x":1}"#.to_vec());
                assert_eq!(unpack(&call.args[2])["delay"], json("60000"));
            }
            other => panic!("{other:?}"),
        }
    }
}

#[test]
fn add_without_delay_goes_to_wait() {
    let queue = Queue::new("q".to_string());
    for delay in [None, Some(0)] {
        let opts = AddJobOptions { delay, ..AddJobOptions::default() };
        let call = standard(queue.add("now", "null", opts, 1));
        assert_eq!(call.keys[0], "bull:q:wait");
        assert!(!call.keys.contains(&"bull:q:delayed".to_string()));
    }
}

#[test]
fn delayed_add_tells_time_and_delay() {
    let args = |delay, now| {
        let opts = AddStandardJobOpts { delay: Some(delay), ..no_options() };
        AddDelayedJob.run("p", "n", "d", &opts, "", now).args
    };
    assert_eq!(args(5, 7), args(5, 7));
    assert_ne!(args(5, 7), args(7, 5));
    assert_ne!(args(5, 7), args(6, 7));
}

#[test]
fn queue_adds_with_its_prefix_and_id() {
    let queue = Queue::new("emails".to_string());
    let opts = AddJobOptions {
        priority: Some(1),
        job_id: Some("user:123".to_string()),
        ..AddJobOptions::default()
    };
    let call = standard(queue.add("send-email", "null", opts, 1));
    assert_eq!(call.keys[0], "bull:emails:wait");
    assert_eq!(
        unpack(&call.args[0]),
        json(r#"["bull:emails:","user:123","send-email",1,null,null,null,null,null]"#)
    );
    assert_eq!(unpack(&call.args[2]), json(r#"{"priority":1}"#));
    let plain = standard(queue.add("send-email", "null", AddJobOptions::default(), 1));
    assert_eq!(unpack(&plain.args[0])[1], json(r#""""#));
    assert_eq!(plain.args[2], vec![0x80]);
}

#[test]
fn move_to_active_call() {
    let args = MoveToActiveArgs {
        token: "t:1".to_string(),
        lock_duration: 30_000,
        limiter: None,
    };
    let call = MoveToActive.run("bull:q:", &args, 99);
    assert_eq!(
        call.keys,
        vec![
            "bull:q:wait", "bull:q:active", "bull:q:prioritized", "bull:q:events",
            "bull:q:stalled", "bull:q:limiter", "bull:q:delayed", "bull:q:paused", "bull:q:meta",
            "bull:q:pc", "bull:q:marker",
        ]
    );
    assert_eq!(call.args[0], bytes_of("bull:q:"));
    assert_eq!(call.args[1], bytes_of("99"));
    assert_eq!(unpack(&call.args[2]), json(r#"{"token":"t:1","lockDuration":30000}"#));
    let limited = MoveToActiveArgs {
        limiter: Some(Limiter { max: 10, duration: 1000 }),
        ..args
    };
    assert_eq!(
        unpack(&limited.to_msgpack()),
        json(r#"{"token":"t:1","lockDuration":30000,"limiter":{"max":10,"duration":1000}}"#)
    );
}

#[test]
fn retry_job_call() {
    let call = RetryJob.run("bull:q:", "7", "t:1", false, 5);
    assert_eq!(
        call.keys,
        vec![
            "bull:q:active", "bull:q:wait", "bull:q:paused", "bull:q:7", "bull:q:meta",
            "bull:q:events", "bull:q:delayed", "bull:q:prioritized", "bull:q:pc", "bull:q:marker",
        ]
    );
    let text: Vec<String> =
        call.args.iter().map(|a| String::from_utf8(a.clone()).unwrap()).collect();
    assert_eq!(text, vec!["bull:q:", "5", "LPUSH", "7", "t:1"]);
    assert_eq!(RetryJob.run("p", "7", "t", true, 5).args[2], b"RPUSH".to_vec());
}

#[test]
fn retry_job_replies() {
    let of = |v| RetryJobReturn::from_redis_value(&v);
    assert_eq!(of(RedisValue::Int(0)).unwrap(), RetryJobReturn::Done);
    assert_eq!(of(RedisValue::Int(-1)).unwrap(), RetryJobReturn::MissingKey);
    assert_eq!(of(RedisValue::Int(-2)).unwrap(), RetryJobReturn::MissingLock);
    assert!(RetryJobReturn::Done.is_recorded());
    assert!(!RetryJobReturn::MissingKey.is_recorded());
    assert!(!RetryJobReturn::MissingLock.is_recorded());
    for v in [RedisValue::Int(1), RedisValue::Int(-3), RedisValue::Nil, RedisValue::Okay] {
        let e = of(v).unwrap_err();
        assert_eq!(e.description(), "Unknown return value");
        assert_eq!(e.detail(), None);
    }
}

fn finish_args(keep_jobs: KeepJobs) -> MoveToFinishedArgs {
    MoveToFinishedArgs {
        token: "t:1".to_string(),
        keep_jobs,
        lock_duration: 30_000,
        max_attempts: 3,
        max_metrics_size: 100,
        fail_parent_on_fail: false,
        remove_dependency_on_fail: true,
    }
}

#[test]
fn move_to_finished_call() {
    let args = finish_args(KeepJobs { count: -1, age: Some(60) });
    let call =
        MoveToFinished.run("bull:q:", "7", "\"ok\"", MoveToFinishedTarget::Completed, &args, 99);
    assert_eq!(
        call.keys,
        vec![
            "bull:q:wait", "bull:q:active", "bull:q:prioritized", "bull:q:events",
            "bull:q:stalled", "bull:q:limiter", "bull:q:delayed", "bull:q:paused", "bull:q:meta",
            "bull:q:pc", "bull:q:completed", "bull:q:7", "bull:q:metrics:completed",
            "bull:q:marker",
        ]
    );
    let text: Vec<String> =
        call.args[..7].iter().map(|a| String::from_utf8(a.clone()).unwrap()).collect();
    assert_eq!(text, vec!["7", "99", "returnvalue", "\"ok\"", "completed", "", "bull:q:"]);
    assert_eq!(
        unpack(&call.args[7]),
        json(
            r#"{"token":"t:1","keepJobs":{"count":-1,"age":60},"lockDuration":30000,"attempts":3,
                "maxMetricsSize":100,"fpof":false,"rdof":true}"#
        )
    );
    let failed = MoveToFinished.run("p:", "7", "boom", MoveToFinishedTarget::Failed, &args, 1);
    assert_eq!(failed.keys[10], "p:failed");
    assert_eq!(failed.keys[12], "p:metrics:failed");
    assert_eq!(failed.args[2], b"failedReason".to_vec());
    assert_eq!(failed.args[3], b"boom".to_vec());
    assert_eq!(failed.args[4], b"failed".to_vec());
    let counted = finish_args(KeepJobs { count: 0, age: None });
    assert_eq!(unpack(&counted.to_msgpack())["keepJobs"], json(r#"{"count":0}"#));
}

#[test]
fn move_to_finished_replies() {
    let of = |v| MoveToFinishedReturn::from_redis_value(&v);
    assert_eq!(of(RedisValue::Int(0)).unwrap(), MoveToFinishedReturn::Done);
    assert_eq!(of(RedisValue::Int(-1)).unwrap(), MoveToFinishedReturn::MissingKey);
    assert_eq!(of(RedisValue::Int(-2)).unwrap(), MoveToFinishedReturn::MissingLock);
    assert!(MoveToFinishedReturn::Done.is_recorded());
    assert!(!MoveToFinishedReturn::MissingKey.is_recorded());
    assert!(!MoveToFinishedReturn::MissingLock.is_recorded());
    for v in [RedisValue::Int(5), RedisValue::Nil] {
        assert_eq!(of(v).unwrap_err().description(), "Unknown return value");
    }
}

#[test]
fn move_to_active_order_of_fields_does_not_matter() {
    let hash = full_hash();
    let pairs = hash.len() / 2;
    for shift in 0..pairs {
        let source = full_hash();
        let mut moved: Vec<Option<RedisValue>> = source.into_iter().map(Some).collect();
        let mut fields = vec![data("other"), data("x"), data("other"), data("y")];
        for i in 0..pairs {
            let at = (i * 2 + shift) % pairs;
            fields.push(moved[2 * at].take().unwrap());
            fields.push(moved[2 * at + 1].take().unwrap());
        }
        let v = RedisValue::Bulk(vec![
            RedisValue::Bulk(fields),
            data("42"),
            RedisValue::Int(8),
            RedisValue::Int(-9),
        ]);
        match read(&v).unwrap() {
            MoveToActiveReturn::Job(job) => {
                assert_eq!((job.name.as_str(), job.data, job.delay), ("send", 7, 5));
                assert_eq!((job.timestamp, job.priority), (1700000000000, 6));
                assert_eq!((job.processed_on, job.attempts_started), (1700000000001, 2));
                assert_eq!((job.opts.attempts, job.attempts_made), (3, Some(1)));
            }
            other => panic!("{other:?}"),
        }
    }
}

#[test]
fn finished_targets_have_names() {
    assert_eq!(MoveToFinishedTarget::Completed.as_str(), "completed");
    assert_eq!(MoveToFinishedTarget::Failed.as_str(), "failed");
}

#[test]
fn move_to_active_empty_and_limited() {
    let ints = |list: [i64; 4]| RedisValue::Bulk(list.map(RedisValue::Int).into_iter().collect());
    assert!(matches!(read(&ints([0, 0, 0, 0])), Ok(MoveToActiveReturn::Empty)));
    assert!(matches!(read(&ints([0, 0, 250, 0])), Ok(MoveToActiveReturn::RateLimited(250))));
    for bad in [[0, 0, -1, 0], [1, 0, 0, 0], [0, 1, 0, 0], [0, 0, 0, 1], [0, 0, 5, 1]] {
        assert!(matches!(read(&ints(bad)), Err(ReplyError::InvalidResponse)));
    }
}

#[test]
fn move_to_active_reads_a_stored_job() {
    let found = read(&job_reply(full_hash())).unwrap();
    match found {
        MoveToActiveReturn::Job(job) => {
            assert_eq!(job.id, "42");
            assert_eq!(job.name, "send");
            assert_eq!(job.data, 7);
            assert_eq!(job.opts.attempts, 3);
            assert_eq!(job.timestamp, 1700000000000);
            assert_eq!(job.delay, 5);
            assert_eq!(job.priority, 6);
            assert_eq!(job.processed_on, 1700000000001);
            assert_eq!(job.attempts_started, 2);
            assert_eq!(job.attempts_made, Some(1));
        }
        other => panic!("{other:?}"),
    }
    let mut without_atm = full_hash();
    without_atm.truncate(16);
    match read(&job_reply(without_atm)).unwrap() {
        MoveToActiveReturn::Job(job) => assert_eq!(job.attempts_made, None),
        other => panic!("{other:?}"),
    }
}

#[test]
fn move_to_active_ignores_what_it_does_not_know() {
    let mut fields = vec![
        data("unknown"),
        data("x"),
        RedisValue::Int(1),
        data("name"),
        data("name"),
        RedisValue::Nil,
    ];
    fields.extend(full_hash());
    fields.push(data("name"));
    match read(&job_reply(fields)).unwrap() {
        MoveToActiveReturn::Job(job) => assert_eq!(job.name, "send"),
        other => panic!("{other:?}"),
    }
}

#[test]
fn move_to_active_last_of_two_values_counts() {
    let mut fields = full_hash();
    fields.push(data("delay"));
    fields.push(data("77"));
    match read(&job_reply(fields)).unwrap() {
        MoveToActiveReturn::Job(job) => assert_eq!(job.delay, 77),
        other => panic!("{other:?}"),
    }
}

#[test]
fn move_to_active_reports_bad_fields() {
    let with = |key: &str, value: &str| {
        let mut fields = vec![data(key), data(value)];
        fields.extend(full_hash());
        parse_error(fields)
    };
    let parse = |detail: &str| ("Job parse error".to_string(), Some(detail.to_string()));
    assert_eq!(with("timestamp", ""), parse("invalid timestamp: cannot parse integer from empty string"));
    assert_eq!(with("delay", "x"), parse("invalid delay: invalid digit found in string"));
    assert_eq!(
        with("priority", "4294967296"),
        parse("invalid priority: number too large to fit in target type")
    );
    assert_eq!(with("processedOn", "-1"), parse("invalid processedOn: invalid digit found in string"));
    assert_eq!(with("ats", " 1"), parse("invalid ats: invalid digit found in string"));
    assert_eq!(with("atm", "1.0"), parse("invalid atm: invalid digit found in string"));
    let (description, detail) = with("data", "x");
    assert_eq!(description, "Job parse error");
    assert!(detail.unwrap().starts_with("invalid data: "));
}

#[test]
fn move_to_active_first_error_counts() {
    let fields = vec![data("delay"), data("x"), data("data"), data("x")];
    assert_eq!(parse_error(fields).1.unwrap(), "invalid delay: invalid digit found in string");
}

#[test]
fn move_to_active_defers_bad_options() {
    let mut fields = full_hash();
    fields.push(data("opts"));
    fields.push(data("{"));
    let (description, detail) = parse_error(fields);
    assert_eq!(description, "Failed to build job from Redis data");
    assert!(detail.unwrap().starts_with("invalid opts JSON: "));
}

#[test]
fn move_to_active_names_a_missing_field() {
    let (description, detail) = parse_error(vec![]);
    assert_eq!(description, "Failed to build job from Redis data");
    assert_eq!(detail.unwrap(), "missing field: name");
}

#[test]
fn bytes_that_are_not_utf8_are_reported() {
    let bad = vec![b'a', 0xff];
    let expected = String::from_utf8(bad.clone()).unwrap_err().to_string();
    assert_eq!(parse_redis_str(&bad).unwrap_err().detail(), Some(expected.clone()));
    assert_eq!(parse_redis_field(&bad, "delay", 9).unwrap_err().detail(), Some(expected.clone()));
    for i in [0usize, 1] {
        let mut fields = full_hash();
        fields[i] = RedisValue::Data(bad.clone());
        assert_eq!(parse_error(fields).1, Some(expected.clone()));
    }
    let mut fields = full_hash();
    fields[5] = RedisValue::Data(bad.clone());
    assert_eq!(parse_error(fields), ("Job parse error".to_string(), Some(expected.clone())));
    let bad_id = RedisValue::Bulk(vec![
        RedisValue::Bulk(full_hash()),
        RedisValue::Data(bad),
        RedisValue::Int(0),
        RedisValue::Int(0),
    ]);
    assert_eq!(read(&bad_id).unwrap_err().detail(), Some(expected));
    assert_eq!(parse_redis_str(&"é€".as_bytes().to_vec()).unwrap(), "é€");
}

#[test]
fn other_replies_are_invalid() {
    let shapes = vec![
        RedisValue::Nil,
        RedisValue::Okay,
        RedisValue::Int(0),
        data("x"),
        RedisValue::Status("OK".to_string()),
        RedisValue::Bulk(vec![]),
        RedisValue::Bulk(vec![RedisValue::Int(0), RedisValue::Int(0), RedisValue::Int(0)]),
        RedisValue::Bulk(vec![
            RedisValue::Bulk(full_hash()),
            RedisValue::Int(1),
            RedisValue::Int(0),
            RedisValue::Int(0),
        ]),
        RedisValue::Bulk(vec![RedisValue::Bulk(full_hash()), data("1"), data("0"), RedisValue::Int(0)]),
    ];
    for v in shapes {
        let e = read(&v).unwrap_err();
        assert_eq!(e.description(), "Invalid response type");
        assert_eq!(e.detail(), None);
    }
}

#[test]
fn first_arguments_tell_their_parts_apart() {
    let a = build_argv1("ab", "c", "1", "");
    let b = build_argv1("a", "bc", "1", "");
    let c = build_argv1("ab", "", "1", "c");
    assert_ne!(a, b);
    assert_ne!(a, c);
    assert_ne!(b, c);
}

#[test]
fn queues_do_not_share_keys() {
    assert_ne!(prefix_of("a"), prefix_of("b"));
    assert_ne!(prefix_of(""), prefix_of(":"));
    let wait = QueueKeys::Wait.with_prefix("bull:q:");
    assert_ne!(wait, QueueKeys::Active.with_prefix("bull:q:"));
    assert_eq!(wait, QueueKeys::Custom("wait".to_string()).with_prefix("bull:q:"));
}

#[test]
fn packed_options_tell_their_parts_apart() {
    let keep = |k| AddStandardJobOpts { remove_on_complete: Some(k), ..no_options() };
    let list = vec![
        no_options(),
        AddStandardJobOpts { delay: Some(5), ..no_options() },
        AddStandardJobOpts { priority: Some(5), ..no_options() },
        AddStandardJobOpts { attempts: Some(5), ..no_options() },
        AddStandardJobOpts { backoff: Some(BackoffStrategy::Fixed(5)), ..no_options() },
        AddStandardJobOpts { lifo: Some(true), ..no_options() },
        AddStandardJobOpts { lifo: Some(false), ..no_options() },
        AddStandardJobOpts { remove_on_fail: Some(KeepJobsConfig::Count(5)), ..no_options() },
        keep(KeepJobsConfig::Count(5)),
        keep(KeepJobsConfig::Bool(true)),
        keep(KeepJobsConfig::Spec { age: Some(5), count: None }),
        keep(KeepJobsConfig::Spec { age: None, count: Some(5) }),
        keep(KeepJobsConfig::Spec { age: None, count: None }),
    ];
    for (i, a) in list.iter().enumerate() {
        for (j, b) in list.iter().enumerate() {
            assert_eq!(i == j, a.to_msgpack() == b.to_msgpack());
        }
    }
}

#[test]
fn packed_requests_tell_their_parts_apart() {
    let args = |token: &str, lock_duration, limiter| {
        MoveToActiveArgs { token: token.to_string(), lock_duration, limiter }.to_msgpack()
    };
    let plain = args("t", 1, None);
    assert_ne!(plain, args("u", 1, None));
    assert_ne!(plain, args("t", 2, None));
    let limited = args("t", 1, Some(Limiter { max: 1, duration: 2 }));
    assert_ne!(plain, limited);
    assert_ne!(limited, args("t", 1, Some(Limiter { max: 2, duration: 1 })));
}
