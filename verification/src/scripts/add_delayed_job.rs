//! Adding a job that is not to run before some time has passed: `addDelayedJob-6.lua`.

use vstd::prelude::*;
use vstd::utf8::encode_utf8;
use crate::commands::delayed_score;
use crate::queue_keys::{keys_under, prefixed, QueueKeys};
use crate::scripts::add_standard_job::{build_argv1, lemma_now_as_signed, packed_args, AddStandardJobOpts};
use crate::scripts::add_standard_job::{law_first_argument_unambiguous, law_options_unambiguous};
use crate::scripts::{bytes_of, ScriptCall, ScriptCallView};
use crate::text::decimal_text;

verus! {

/// The names of the keys that the script takes, in order.
pub open spec fn key_names() -> Seq<Seq<char>> {
    seq!["marker"@, "meta"@, "id"@, "delayed"@, "completed"@, "events"@]
}

/// The call that adds a delayed job. Its arguments are those of a job without delay: the first
/// holds the time, and the options hold the delay that counts from it.
pub open spec fn call_for(
    prefix: Seq<char>,
    job_name: Seq<char>,
    data: Seq<char>,
    opts: AddStandardJobOpts,
    custom_id: Seq<char>,
    now: u64,
) -> ScriptCallView {
    ScriptCallView {
        keys: keys_under(prefix, key_names()),
        args: seq![
            packed_args(prefix, job_name, now as int, custom_id),
            encode_utf8(data),
            opts.packed(),
        ],
    }
}

/// The script that adds a delayed job. It puts the job into the delayed set and not onto the
/// waiting list, with a score for the time that is `opts.delay` after `now`.
#[derive(Debug, Clone, Copy)]
pub struct AddDelayedJob;

impl AddDelayedJob {
    /// The call that adds a delayed job at the time `now`, in milliseconds since the Unix epoch.
    /// The script replies with the job's id.
    pub fn run(
        &self,
        prefix: &str,
        job_name: &str,
        data: &str,
        opts: &AddStandardJobOpts,
        custom_id: &str,
        now: u64,
    ) -> (call: ScriptCall)
        requires
            now <= i64::MAX,
        ensures
            call@ == call_for(prefix@, job_name@, data@, *opts, custom_id@, now),
    {
        let names: Vec<QueueKeys> = vec![
            QueueKeys::Marker,
            QueueKeys::Meta,
            QueueKeys::Custom("id".to_string()),
            QueueKeys::Delayed,
            QueueKeys::Custom("completed".to_string()),
            QueueKeys::Events,
        ];
        let keys = prefixed(&names, prefix);
        let timestamp = decimal_text(now);
        proof {
            assert(crate::queue_keys::names_of(names@) =~= key_names());
            lemma_now_as_signed(now);
        }
        let argv1 = build_argv1(prefix, job_name, timestamp.as_str(), custom_id);
        let args: Vec<Vec<u8>> = vec![argv1, bytes_of(data), opts.to_msgpack()];
        ScriptCall { keys, args }
    }
}

/// The script works on the delayed set and sets the marker, and it is not given the waiting list.
pub proof fn law_delayed_keys(prefix: Seq<char>)
    ensures
        keys_under(prefix, key_names()).contains(prefix + "delayed"@),
        keys_under(prefix, key_names()).contains(prefix + "marker"@),
        !keys_under(prefix, key_names()).contains(prefix + "wait"@),
        !keys_under(prefix, key_names()).contains(prefix + "paused"@),
{
    let names = key_names();
    let keys = keys_under(prefix, names);
    assert(keys[0] == prefix + "marker"@);
    assert(keys[3] == prefix + "delayed"@);
    lemma_names_differ();
    assert forall|i: int| 0 <= i < keys.len() implies keys[i] != prefix + "wait"@ && keys[i]
        != prefix + "paused"@ by {
        let k = keys[i];
        assert(k == prefix + names[i]);
        assert(names[i] =~= k.skip(prefix.len() as int));
        assert("wait"@ =~= (prefix + "wait"@).skip(prefix.len() as int));
        assert("paused"@ =~= (prefix + "paused"@).skip(prefix.len() as int));
    }
}

/// None of the names is that of the waiting or the paused list.
proof fn lemma_names_differ()
    ensures
        forall|i: int|
            0 <= i < key_names().len() ==> #[trigger] key_names()[i] != "wait"@ && key_names()[i]
                != "paused"@,
{
    reveal_strlit("wait");
    reveal_strlit("paused");
    reveal_strlit("marker");
    reveal_strlit("meta");
    reveal_strlit("id");
    reveal_strlit("delayed");
    reveal_strlit("completed");
    reveal_strlit("events");
    assert("wait"@.len() == 4 && "wait"@[0] == 'w');
    assert("paused"@.len() == 6 && "paused"@[0] == 'p');
    assert("marker"@.len() == 6 && "marker"@[0] == 'm');
    assert("meta"@.len() == 4 && "meta"@[0] == 'm');
    assert("id"@.len() == 2);
    assert("delayed"@.len() == 7);
    assert("completed"@.len() == 9);
    assert("events"@.len() == 6 && "events"@[0] == 'e');
}

/// The arguments fix when the job is due: two calls with the same arguments were made at the same
/// time with the same delay, so that the score of the due time is the same.
pub proof fn law_delayed_call_fixes_due_time(
    prefix: Seq<char>,
    job_name: Seq<char>,
    data: Seq<char>,
    opts: AddStandardJobOpts,
    custom_id: Seq<char>,
    now: u64,
    other_job_name: Seq<char>,
    other_data: Seq<char>,
    other_opts: AddStandardJobOpts,
    other_custom_id: Seq<char>,
    other_now: u64,
)
    requires
        encode_utf8(prefix).len() < 0x1_0000_0000,
        encode_utf8(job_name).len() < 0x1_0000_0000,
        encode_utf8(custom_id).len() < 0x1_0000_0000,
        encode_utf8(other_job_name).len() < 0x1_0000_0000,
        encode_utf8(other_custom_id).len() < 0x1_0000_0000,
        now <= i64::MAX,
        other_now <= i64::MAX,
        opts.delay is Some,
        call_for(prefix, job_name, data, opts, custom_id, now).args == call_for(
            prefix,
            other_job_name,
            other_data,
            other_opts,
            other_custom_id,
            other_now,
        ).args,
    ensures
        now == other_now,
        opts.delay == other_opts.delay,
        delayed_score((now + opts.delay->0) as nat) == delayed_score(
            (other_now + other_opts.delay->0) as nat,
        ),
{
    let a = call_for(prefix, job_name, data, opts, custom_id, now).args;
    let b = call_for(prefix, other_job_name, other_data, other_opts, other_custom_id, other_now).args;
    assert(a[0] == b[0]);
    assert(a[2] == b[2]);
    law_first_argument_unambiguous(
        prefix,
        job_name,
        now as int,
        custom_id,
        prefix,
        other_job_name,
        other_now as int,
        other_custom_id,
    );
    law_options_unambiguous(opts, other_opts);
}

} // verus!
