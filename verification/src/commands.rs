//! The plain Redis commands that a worker sends.

use vstd::prelude::*;
use crate::kernel::backoff::min_int;
use crate::kernel::events::{law_event_names_distinct, JobEvent};
use crate::queue_keys::QueueKeys;
use crate::text::{all_digits, decimal, decimal_text, join, lemma_decimal_digits, number, same_text, texts};

verus! {

/// A command: its name and its arguments.
#[derive(Debug)]
pub struct Command {
    pub words: Vec<String>,
}

impl View for Command {
    type V = Seq<Seq<char>>;

    open spec fn view(&self) -> Seq<Seq<char>> {
        texts(self.words@)
    }
}

/// The contents of a list of commands.
pub open spec fn commands(list: Seq<Command>) -> Seq<Seq<Seq<char>>> {
    list.map_values(|c: Command| c@)
}

fn words2(a: &str, b: &str) -> (c: Command)
    ensures
        c@ == seq![a@, b@],
{
    let c = Command { words: vec![a.to_string(), b.to_string()] };
    proof {
        assert(c@ =~= seq![a@, b@]);
    }
    c
}

fn words3(a: &str, b: &str, c: &str) -> (r: Command)
    ensures
        r@ == seq![a@, b@, c@],
{
    let r = Command { words: vec![a.to_string(), b.to_string(), c.to_string()] };
    proof {
        assert(r@ =~= seq![a@, b@, c@]);
    }
    r
}

fn words4(a: &str, b: &str, c: &str, d: &str) -> (r: Command)
    ensures
        r@ == seq![a@, b@, c@, d@],
{
    let r = Command { words: vec![a.to_string(), b.to_string(), c.to_string(), d.to_string()] };
    proof {
        assert(r@ =~= seq![a@, b@, c@, d@]);
    }
    r
}

/// The key of a job's hash.
pub open spec fn job_key(prefix: Seq<char>, job_id: Seq<char>) -> Seq<char> {
    prefix + job_id
}

/// The key of a job's lock.
pub open spec fn lock_key(prefix: Seq<char>, job_id: Seq<char>) -> Seq<char> {
    job_key(prefix, job_id) + ":lock"@
}

fn lock_key_text(prefix: &str, job_id: &str) -> (key: String)
    ensures
        key@ == lock_key(prefix@, job_id@),
{
    let mut key = join(prefix, job_id);
    key.append(":lock");
    key
}

/// Announcing an event of a job on the queue's stream.
pub open spec fn announcement(prefix: Seq<char>, event: JobEvent, job_id: Seq<char>) -> Seq<
    Seq<char>,
> {
    seq!["XADD"@, prefix + "events"@, "*"@, "event"@, event.text(), "jobId"@, job_id]
}

/// The command that announces an event of a job.
pub fn emit_event(prefix: &str, event: JobEvent, job_id: &str) -> (c: Command)
    ensures
        c@ == announcement(prefix@, event, job_id@),
{
    let events_key = QueueKeys::Events.with_prefix(prefix);
    let c = Command {
        words: vec![
            "XADD".to_string(),
            events_key,
            "*".to_string(),
            "event".to_string(),
            event.as_str().to_string(),
            "jobId".to_string(),
            job_id.to_string(),
        ],
    };
    proof {
        assert(c@ =~= announcement(prefix@, event, job_id@));
    }
    c
}

/// The command that reads who holds the lock of a job.
pub fn lock_holder(prefix: &str, job_id: &str) -> (c: Command)
    ensures
        c@ == seq!["GET"@, lock_key(prefix@, job_id@)],
{
    words2("GET", lock_key_text(prefix, job_id).as_str())
}

/// The score of a job in the delayed set: the time it is due, in steps of 0x1000, as far as 64
/// bits reach.
pub open spec fn delayed_score(due: nat) -> nat {
    min_int((due * 0x1000) as int, u64::MAX as int) as nat
}

/// The commands that move a running job to the delayed set, due at `due`: release the lock if
/// this worker still holds it, take the job off the active list, count the attempt, schedule the
/// job, and set the marker for whoever promotes delayed jobs.
pub open spec fn delay_plan(
    prefix: Seq<char>,
    job_id: Seq<char>,
    due: nat,
    holds_lock: bool,
) -> Seq<Seq<Seq<char>>> {
    let release = if holds_lock {
        seq![seq!["DEL"@, lock_key(prefix, job_id)]]
    } else {
        seq![]
    };
    release + seq![
        seq!["LREM"@, prefix + "active"@, "0"@, job_id],
        seq!["HINCRBY"@, job_key(prefix, job_id), "atm"@, "1"@],
        seq!["ZADD"@, prefix + "delayed"@, decimal(delayed_score(due)), job_id],
        seq!["ZADD"@, prefix + "marker"@, decimal(due), "0"@],
    ]
}

/// Whether the lock is held by the given token. `None` is an unreadable or absent lock.
pub open spec fn held_by(holder: Option<Seq<char>>, token: Seq<char>) -> bool {
    holder == Some(token)
}

fn score_of(due: u64) -> (score: u64)
    ensures
        score == delayed_score(due as nat),
{
    if due > u64::MAX / 0x1000 {
        u64::MAX
    } else {
        due * 0x1000
    }
}

/// The commands that move a running job to the delayed set for `delay_ms` milliseconds, given
/// what [`lock_holder`] replied. They are sent in order; the first that fails ends the move.
pub fn move_to_delayed(
    prefix: &str,
    job_id: &str,
    token: &str,
    delay_ms: u64,
    now: u64,
    holder: &Option<String>,
) -> (plan: Vec<Command>)
    requires
        now + delay_ms <= u64::MAX,
    ensures
        commands(plan@) == delay_plan(
            prefix@,
            job_id@,
            (now + delay_ms) as nat,
            held_by(crate::kernel::job::optional_text(*holder), token@),
        ),
{
    let due: u64 = now + delay_ms;
    let mut plan: Vec<Command> = Vec::new();
    if let Some(value) = holder {
        if same_text(value.as_str(), token) {
            plan.push(words2("DEL", lock_key_text(prefix, job_id).as_str()));
        }
    }
    let active_key = QueueKeys::Active.with_prefix(prefix);
    let delayed_key = QueueKeys::Delayed.with_prefix(prefix);
    let marker_key = QueueKeys::Marker.with_prefix(prefix);
    let hash_key = join(prefix, job_id);
    let score = decimal_text(score_of(due));
    let due_text = decimal_text(due);
    let ghost release = plan@;
    plan.push(words4("LREM", active_key.as_str(), "0", job_id));
    plan.push(words4("HINCRBY", hash_key.as_str(), "atm", "1"));
    plan.push(words4("ZADD", delayed_key.as_str(), score.as_str(), job_id));
    plan.push(words4("ZADD", marker_key.as_str(), due_text.as_str(), "0"));
    proof {
        let holds = held_by(crate::kernel::job::optional_text(*holder), token@);
        assert(commands(plan@) =~= delay_plan(prefix@, job_id@, due as nat, holds));
    }
    plan
}

/// A job that is due later never gets the lower score, and while the scores are below the limit
/// of 64 bits, jobs with different due times get different scores.
pub proof fn law_scores_follow_due_times(a: nat, b: nat)
    requires
        a < b,
    ensures
        delayed_score(a) <= delayed_score(b),
        b * 0x1000 <= u64::MAX ==> delayed_score(a) < delayed_score(b),
        b * 0x1000 <= u64::MAX ==> delayed_score(b) == b * 0x1000,
{
}

/// Moving a job to the delayed set touches no lock but the job's own, and that one only if the
/// worker holds it.
pub proof fn law_delay_releases_own_lock_only(
    prefix: Seq<char>,
    job_id: Seq<char>,
    due: nat,
    holds_lock: bool,
    i: int,
)
    requires
        0 <= i < delay_plan(prefix, job_id, due, holds_lock).len(),
        delay_plan(prefix, job_id, due, holds_lock)[i][0] == "DEL"@,
    ensures
        holds_lock,
        delay_plan(prefix, job_id, due, holds_lock)[i] == seq!["DEL"@, lock_key(prefix, job_id)],
{
    reveal_strlit("DEL");
    reveal_strlit("LREM");
    reveal_strlit("HINCRBY");
    reveal_strlit("ZADD");
    assert("DEL"@.len() == 3);
    assert("LREM"@.len() == 4);
    assert("HINCRBY"@.len() == 7);
    assert("ZADD"@.len() == 4);
}

// Stalled jobs.

/// The command that lists the running jobs.
pub fn active_jobs(prefix: &str) -> (c: Command)
    ensures
        c@ == seq!["LRANGE"@, prefix@ + "active"@, "0"@, "-1"@],
{
    words4("LRANGE", QueueKeys::Active.with_prefix(prefix).as_str(), "0", "-1")
}

/// The command that asks whether a job is locked.
pub fn lock_exists(prefix: &str, job_id: &str) -> (c: Command)
    ensures
        c@ == seq!["EXISTS"@, lock_key(prefix@, job_id@)],
{
    words2("EXISTS", lock_key_text(prefix, job_id).as_str())
}

/// The command that reads one field of a job's hash.
pub fn job_field(prefix: &str, job_id: &str, field: &str) -> (c: Command)
    ensures
        c@ == seq!["HGET"@, job_key(prefix@, job_id@), field@],
{
    words3("HGET", join(prefix, job_id).as_str(), field)
}

/// The commands that put a stalled job back to wait: off the active list, onto the waiting list,
/// with the attempt counted as made and as started, and the marker set to wake a worker.
pub open spec fn requeue_plan(prefix: Seq<char>, job_id: Seq<char>) -> Seq<Seq<Seq<char>>> {
    seq![
        seq!["LREM"@, prefix + "active"@, "0"@, job_id],
        seq!["LPUSH"@, prefix + "wait"@, job_id],
        seq!["HINCRBY"@, job_key(prefix, job_id), "atm"@, "1"@],
        seq!["HINCRBY"@, job_key(prefix, job_id), "ats"@, "1"@],
        seq!["ZADD"@, prefix + "marker"@, "0.0"@, "1"@],
    ]
}

pub fn requeue_stalled(prefix: &str, job_id: &str) -> (plan: Vec<Command>)
    ensures
        commands(plan@) == requeue_plan(prefix@, job_id@),
{
    let active_key = QueueKeys::Active.with_prefix(prefix);
    let wait_key = QueueKeys::Wait.with_prefix(prefix);
    let marker_key = QueueKeys::Marker.with_prefix(prefix);
    let hash_key = join(prefix, job_id);
    let plan: Vec<Command> = vec![
        words4("LREM", active_key.as_str(), "0", job_id),
        words3("LPUSH", wait_key.as_str(), job_id),
        words4("HINCRBY", hash_key.as_str(), "atm", "1"),
        words4("HINCRBY", hash_key.as_str(), "ats", "1"),
        words4("ZADD", marker_key.as_str(), "0.0", "1"),
    ];
    proof {
        assert(commands(plan@) =~= requeue_plan(prefix@, job_id@));
    }
    plan
}

/// The commands that fail a stalled job for good at the time `now`: off the active list, into the
/// failed set, with the reason and the time noted, and the failure announced.
pub open spec fn fail_plan(prefix: Seq<char>, job_id: Seq<char>, now: nat) -> Seq<Seq<Seq<char>>> {
    seq![
        seq!["LREM"@, prefix + "active"@, "0"@, job_id],
        seq!["ZADD"@, prefix + "failed"@, decimal(now), job_id],
        seq![
            "HMSET"@,
            job_key(prefix, job_id),
            "failedReason"@,
            "job stalled more than allowable limit"@,
            "finishedOn"@,
            decimal(now),
        ],
        announcement(prefix, JobEvent::Failed, job_id),
    ]
}

pub fn fail_stalled(prefix: &str, job_id: &str, now: u64) -> (plan: Vec<Command>)
    ensures
        commands(plan@) == fail_plan(prefix@, job_id@, now as nat),
{
    let active_key = QueueKeys::Active.with_prefix(prefix);
    let failed_key = join(prefix, "failed");
    let hash_key = join(prefix, job_id);
    let now_text = decimal_text(now);
    let note = Command {
        words: vec![
            "HMSET".to_string(),
            hash_key,
            "failedReason".to_string(),
            "job stalled more than allowable limit".to_string(),
            "finishedOn".to_string(),
            decimal_text(now),
        ],
    };
    let ghost note_words = note@;
    proof {
        assert(note_words =~= fail_plan(prefix@, job_id@, now as nat)[2]);
    }
    let plan: Vec<Command> = vec![
        words4("LREM", active_key.as_str(), "0", job_id),
        words4("ZADD", failed_key.as_str(), now_text.as_str(), job_id),
        note,
        emit_event(prefix, JobEvent::Failed, job_id),
    ];
    proof {
        assert(commands(plan@) =~= fail_plan(prefix@, job_id@, now as nat));
    }
    plan
}

// What the commands say, read back from their words.

/// Whether a text is the given number in decimal digits.
pub open spec fn writes(text: Seq<char>, n: nat) -> bool {
    text.len() > 0 && all_digits(text) && number(text) == n
}

/// A stalled job that fails leaves the active list and enters the failed set with the time of
/// its failure as its score. The same time is noted on the job, with the reason, and the failure
/// is announced. Nothing else is done.
pub proof fn law_stalled_failure_recorded(
    prefix: &str,
    job_id: &str,
    now: u64,
    plan: Vec<Command>,
)
    requires
        call_ensures(fail_stalled, (prefix, job_id, now), plan),
    ensures
        ({
            let sent = commands(plan@);
            &&& sent.len() == 4
            &&& sent[0] == seq!["LREM"@, prefix@ + "active"@, "0"@, job_id@]
            &&& sent[1].len() == 4 && sent[1][0] == "ZADD"@ && sent[1][1] == prefix@ + "failed"@
            &&& writes(sent[1][2], now as nat) && sent[1][3] == job_id@
            &&& sent[2].len() == 6 && sent[2][0] == "HMSET"@ && sent[2][1] == prefix@ + job_id@
            &&& sent[2][2] == "failedReason"@
            &&& sent[2][3] == "job stalled more than allowable limit"@
            &&& sent[2][4] == "finishedOn"@ && writes(sent[2][5], now as nat)
            &&& sent[3] == seq![
                "XADD"@,
                prefix@ + "events"@,
                "*"@,
                "event"@,
                "failed"@,
                "jobId"@,
                job_id@,
            ]
        }),
{
    lemma_decimal_digits(now as nat);
}

/// Of two stalled jobs, the one that failed later has the higher score in the failed set, and two
/// that failed at the same time have the same.
pub proof fn law_failed_scores_follow_time(
    prefix: &str,
    a: &str,
    b: &str,
    earlier: u64,
    later: u64,
    first: Vec<Command>,
    second: Vec<Command>,
    score: Seq<char>,
    other_score: Seq<char>,
)
    requires
        call_ensures(fail_stalled, (prefix, a, earlier), first),
        call_ensures(fail_stalled, (prefix, b, later), second),
        commands(first@).contains(seq!["ZADD"@, prefix@ + "failed"@, score, a@]),
        commands(second@).contains(seq!["ZADD"@, prefix@ + "failed"@, other_score, b@]),
    ensures
        earlier < later ==> number(score) < number(other_score),
        earlier == later ==> score == other_score,
{
    lemma_failed_score(prefix, a, earlier, first, score);
    lemma_failed_score(prefix, b, later, second, other_score);
}

/// The score in the failed set is the time of the failure.
proof fn lemma_failed_score(
    prefix: &str,
    job_id: &str,
    now: u64,
    plan: Vec<Command>,
    score: Seq<char>,
)
    requires
        call_ensures(fail_stalled, (prefix, job_id, now), plan),
        commands(plan@).contains(seq!["ZADD"@, prefix@ + "failed"@, score, job_id@]),
    ensures
        score == decimal(now as nat),
        number(score) == now,
{
    reveal_strlit("ZADD");
    reveal_strlit("LREM");
    reveal_strlit("HMSET");
    reveal_strlit("XADD");
    assert("ZADD"@[0] == 'Z' && "LREM"@[0] == 'L' && "HMSET"@[0] == 'H' && "XADD"@[0] == 'X');
    lemma_decimal_digits(now as nat);
    let sent = commands(plan@);
    let words = seq!["ZADD"@, prefix@ + "failed"@, score, job_id@];
    let i = choose|i: int| 0 <= i < sent.len() && sent[i] == words;
    assert(words[0] == "ZADD"@ && words[2] == score);
    assert(sent[0][0] == "LREM"@ && sent[2][0] == "HMSET"@ && sent[3][0] == "XADD"@);
    assert(i == 1);
    assert(sent[1][2] == decimal(now as nat));
}

/// A stalled job that is put back leaves the active list for the end of the waiting list, and
/// the attempt is counted once as made and once as started. A worker is woken by the marker.
pub proof fn law_stalled_job_put_back(prefix: &str, job_id: &str, plan: Vec<Command>)
    requires
        call_ensures(requeue_stalled, (prefix, job_id), plan),
    ensures
        ({
            let sent = commands(plan@);
            &&& sent.len() == 5
            &&& sent[0] == seq!["LREM"@, prefix@ + "active"@, "0"@, job_id@]
            &&& sent[1] == seq!["LPUSH"@, prefix@ + "wait"@, job_id@]
            &&& sent[2] == seq!["HINCRBY"@, prefix@ + job_id@, "atm"@, "1"@]
            &&& sent[3] == seq!["HINCRBY"@, prefix@ + job_id@, "ats"@, "1"@]
            &&& sent[4] == seq!["ZADD"@, prefix@ + "marker"@, "0.0"@, "1"@]
        }),
{
}

/// A job that is retried later leaves the active list for the delayed set, with the attempt
/// counted once, and is due after exactly the delay: its score is 0x1000 times the due time, or
/// the largest one of 64 bits where that is larger, and the marker holds the due time. Its lock
/// is released exactly if the worker still holds it.
pub proof fn law_delayed_retry_scheduled(
    prefix: &str,
    job_id: &str,
    token: &str,
    delay_ms: u64,
    now: u64,
    holder: Option<String>,
    plan: Vec<Command>,
)
    requires
        call_ensures(move_to_delayed, (prefix, job_id, token, delay_ms, now, &holder), plan),
    ensures
        ({
            let sent = commands(plan@);
            let due = (now + delay_ms) as nat;
            let n = sent.len() as int;
            &&& (holder matches Some(text) && text@ == token@) ==> n == 5 && sent[0] == seq![
                "DEL"@,
                prefix@ + job_id@ + ":lock"@,
            ]
            &&& !(holder matches Some(text) && text@ == token@) ==> n == 4
            &&& sent[n - 4] == seq!["LREM"@, prefix@ + "active"@, "0"@, job_id@]
            &&& sent[n - 3] == seq!["HINCRBY"@, prefix@ + job_id@, "atm"@, "1"@]
            &&& sent[n - 2].len() == 4 && sent[n - 2][0] == "ZADD"@
            &&& sent[n - 2][1] == prefix@ + "delayed"@ && sent[n - 2][3] == job_id@
            &&& due * 0x1000 <= u64::MAX ==> writes(sent[n - 2][2], due * 0x1000)
            &&& due * 0x1000 > u64::MAX ==> writes(sent[n - 2][2], u64::MAX as nat)
            &&& sent[n - 1].len() == 4 && sent[n - 1][0] == "ZADD"@
            &&& sent[n - 1][1] == prefix@ + "marker"@ && sent[n - 1][3] == "0"@
            &&& writes(sent[n - 1][2], due)
        }),
{
    let due = (now + delay_ms) as nat;
    lemma_decimal_digits(due);
    lemma_decimal_digits(delayed_score(due));
}

/// An announcement goes to the stream of the queue, and says which event it is and which job it
/// is about: two announcements on one stream are the same only if both agree.
pub proof fn law_announcement_tells_event_and_job(
    prefix: &str,
    event: JobEvent,
    job_id: &str,
    c: Command,
    other_event: JobEvent,
    other_job_id: &str,
    other: Command,
)
    requires
        call_ensures(emit_event, (prefix, event, job_id), c),
        call_ensures(emit_event, (prefix, other_event, other_job_id), other),
    ensures
        c@.len() == 7,
        c@[0] == "XADD"@ && c@[1] == prefix@ + "events"@ && c@[2] == "*"@,
        c@[3] == "event"@ && c@[5] == "jobId"@ && c@[6] == job_id@,
        c@ == other@ ==> event == other_event && job_id@ == other_job_id@,
{
    if c@ == other@ {
        assert(c@[4] == event.text() && other@[4] == other_event.text());
        law_event_names_distinct(event, other_event);
    }
}

/// Who holds a lock, and whether there is one, is asked of the job's own lock, and its fields are
/// asked of its own hash.
pub proof fn law_queries_are_about_the_job(
    prefix: &str,
    job_id: &str,
    field: &str,
    holder: Command,
    exists: Command,
    read: Command,
    jobs: Command,
)
    requires
        call_ensures(lock_holder, (prefix, job_id), holder),
        call_ensures(lock_exists, (prefix, job_id), exists),
        call_ensures(job_field, (prefix, job_id, field), read),
        call_ensures(active_jobs, (prefix,), jobs),
    ensures
        holder@ == seq!["GET"@, prefix@ + job_id@ + ":lock"@],
        exists@ == seq!["EXISTS"@, prefix@ + job_id@ + ":lock"@],
        read@ == seq!["HGET"@, prefix@ + job_id@, field@],
        jobs@ == seq!["LRANGE"@, prefix@ + "active"@, "0"@, "-1"@],
{
}

} // verus!
