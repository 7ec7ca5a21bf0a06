//! The state changes of a job that are announced on the event stream.

use vstd::prelude::*;

verus! {

#[derive(Debug, Clone, Copy, PartialEq, Eq, Structural)]
pub enum JobEvent {
    Added,
    Active,
    Completed,
    Failed,
    Retrying,
    Stalled,
}

impl JobEvent {
    /// The name of the event on the stream.
    pub open spec fn text(self) -> Seq<char> {
        match self {
            JobEvent::Added => "added"@,
            JobEvent::Active => "active"@,
            JobEvent::Completed => "completed"@,
            JobEvent::Failed => "failed"@,
            JobEvent::Retrying => "retrying"@,
            JobEvent::Stalled => "stalled"@,
        }
    }

    pub fn as_str(&self) -> (name: &'static str)
        ensures
            name@ == self.text(),
    {
        match self {
            JobEvent::Added => "added",
            JobEvent::Active => "active",
            JobEvent::Completed => "completed",
            JobEvent::Failed => "failed",
            JobEvent::Retrying => "retrying",
            JobEvent::Stalled => "stalled",
        }
    }
}

/// Different events have different names, so a reader of the stream can tell them apart.
pub proof fn law_event_names_distinct(a: JobEvent, b: JobEvent)
    requires
        a.text() == b.text(),
    ensures
        a == b,
{
    reveal_strlit("added");
    reveal_strlit("active");
    reveal_strlit("completed");
    reveal_strlit("failed");
    reveal_strlit("retrying");
    reveal_strlit("stalled");
    assert("added"@.len() == 5);
    assert("active"@.len() == 6 && "active"@[0] == 'a');
    assert("failed"@.len() == 6 && "failed"@[0] == 'f');
    assert("stalled"@.len() == 7);
    assert("retrying"@.len() == 8);
    assert("completed"@.len() == 9);
}

} // verus!
