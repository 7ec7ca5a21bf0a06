//! The Redis keys of a queue. Each is the queue's prefix and a name: `bull:{queue}:{name}`.

use vstd::prelude::*;
use crate::text::{join, texts};

verus! {

/// The key names of a queue. A job's own key is `Custom` with the job's id.
#[derive(Debug)]
pub enum QueueKeys {
    Wait,
    Active,
    Prioritized,
    Events,
    Stalled,
    Limiter,
    Delayed,
    Paused,
    Meta,
    Pc,
    Marker,
    Custom(String),
}

impl QueueKeys {
    /// The name without the prefix.
    pub open spec fn name(self) -> Seq<char> {
        match self {
            QueueKeys::Wait => "wait"@,
            QueueKeys::Active => "active"@,
            QueueKeys::Prioritized => "prioritized"@,
            QueueKeys::Events => "events"@,
            QueueKeys::Stalled => "stalled"@,
            QueueKeys::Limiter => "limiter"@,
            QueueKeys::Delayed => "delayed"@,
            QueueKeys::Paused => "paused"@,
            QueueKeys::Meta => "meta"@,
            QueueKeys::Pc => "pc"@,
            QueueKeys::Marker => "marker"@,
            QueueKeys::Custom(name) => name@,
        }
    }

    /// The whole key, under the prefix of a queue.
    pub fn with_prefix(&self, prefix: &str) -> (key: String)
        ensures
            key@ == prefix@ + self.name(),
    {
        match self {
            QueueKeys::Wait => join(prefix, "wait"),
            QueueKeys::Active => join(prefix, "active"),
            QueueKeys::Prioritized => join(prefix, "prioritized"),
            QueueKeys::Events => join(prefix, "events"),
            QueueKeys::Stalled => join(prefix, "stalled"),
            QueueKeys::Limiter => join(prefix, "limiter"),
            QueueKeys::Delayed => join(prefix, "delayed"),
            QueueKeys::Paused => join(prefix, "paused"),
            QueueKeys::Meta => join(prefix, "meta"),
            QueueKeys::Pc => join(prefix, "pc"),
            QueueKeys::Marker => join(prefix, "marker"),
            QueueKeys::Custom(name) => join(prefix, name.as_str()),
        }
    }
}

/// The keys with the given names under one prefix.
pub open spec fn keys_under(prefix: Seq<char>, names: Seq<Seq<char>>) -> Seq<Seq<char>> {
    names.map_values(|name: Seq<char>| prefix + name)
}

/// The names of a list of keys.
pub open spec fn names_of(keys: Seq<QueueKeys>) -> Seq<Seq<char>> {
    keys.map_values(|key: QueueKeys| key.name())
}

/// Puts every key under the prefix.
pub fn prefixed(keys: &Vec<QueueKeys>, prefix: &str) -> (list: Vec<String>)
    ensures
        texts(list@) == keys_under(prefix@, names_of(keys@)),
{
    let mut list: Vec<String> = Vec::new();
    let mut i: usize = 0;
    while i < keys.len()
        invariant
            i <= keys.len(),
            list.len() == i,
            forall|j: int| 0 <= j < i ==> (#[trigger] list@[j])@ == prefix@ + keys@[j].name(),
        decreases keys.len() - i,
    {
        list.push(keys[i].with_prefix(prefix));
        i = i + 1;
    }
    proof {
        assert(texts(list@) =~= keys_under(prefix@, names_of(keys@)));
    }
    list
}

/// The prefix of a queue's keys.
pub open spec fn queue_prefix(name: Seq<char>) -> Seq<char> {
    "bull:"@ + name + ":"@
}

/// Builds the prefix of a queue's keys, `bull:{name}:`.
pub fn prefix_of(name: &str) -> (prefix: String)
    ensures
        prefix@ == queue_prefix(name@),
{
    let mut prefix = join("bull:", name);
    prefix.append(":");
    prefix
}

/// Queues with different names have different prefixes.
pub proof fn law_prefix_injective(a: Seq<char>, b: Seq<char>)
    requires
        queue_prefix(a) == queue_prefix(b),
    ensures
        a == b,
{
    reveal_strlit("bull:");
    reveal_strlit(":");
    let (p, q) = (queue_prefix(a), queue_prefix(b));
    assert(p.len() == a.len() + 6);
    assert(q.len() == b.len() + 6);
    assert(a =~= p.subrange(5, 5 + a.len() as int));
    assert(b =~= q.subrange(5, 5 + b.len() as int));
}

/// Within one queue, two keys are the same key only if they have the same name.
pub proof fn law_key_names_injective(prefix: Seq<char>, a: QueueKeys, b: QueueKeys)
    requires
        prefix + a.name() == prefix + b.name(),
    ensures
        a.name() == b.name(),
{
    let (k, l) = (prefix + a.name(), prefix + b.name());
    assert(a.name() =~= k.skip(prefix.len() as int));
    assert(b.name() =~= l.skip(prefix.len() as int));
}

/// The prefix of a queue's keys is `bull:`, the name of the queue as it is, and a colon; a key is
/// the prefix and then the name of the key.
pub proof fn law_prefix_holds_name(
    name: &str,
    prefix: String,
    start: &str,
    key: QueueKeys,
    whole: String,
)
    requires
        call_ensures(prefix_of, (name,), prefix),
        start@ == prefix@,
        call_ensures(QueueKeys::with_prefix, (&key, start), whole),
    ensures
        prefix@.len() == name@.len() + 6,
        prefix@.take(5) == "bull:"@,
        prefix@.subrange(5, prefix@.len() - 1) == name@,
        prefix@.last() == ':',
        whole@.take(prefix@.len() as int) == prefix@,
        key matches QueueKeys::Custom(own) ==> whole@.skip(prefix@.len() as int) == own@,
{
    reveal_strlit("bull:");
    reveal_strlit(":");
    assert(prefix@.take(5) =~= "bull:"@);
    assert(prefix@.subrange(5, prefix@.len() - 1) =~= name@);
    assert(whole@.take(prefix@.len() as int) =~= prefix@);
    assert(whole@.skip(prefix@.len() as int) =~= key.name());
}

/// A list of keys is put under the prefix one by one, in the same order.
pub proof fn law_prefixed_in_order(keys: Vec<QueueKeys>, prefix: &str, list: Vec<String>, i: int)
    requires
        call_ensures(prefixed, (&keys, prefix), list),
        0 <= i < keys@.len(),
    ensures
        list@.len() == keys@.len(),
        list@[i]@ == prefix@ + keys@[i].name(),
{
    assert(texts(list@).len() == list@.len());
    assert(texts(list@)[i] == list@[i]@);
}

} // verus!
