//! The fixed rotation of topics over which batches are spread.

use vstd::prelude::*;

verus! {

/// Number of topics in the rotation.
pub const TOPIC_COUNT: usize = 4;

/// Name of the topic in a given slot of the rotation.
pub open spec fn topic_name(slot: int) -> Seq<char> {
    if slot == 0 {
        "persistent://example/delivery/notifications"@
    } else if slot == 1 {
        "persistent://example/delivery/notifications-retries"@
    } else if slot == 2 {
        "persistent://example/delivery/notifications-enterprise"@
    } else {
        "persistent://example/delivery/notifications-enterprise-retries"@
    }
}

/// Topic of the batch with a given sequence number: the rotation is walked
/// in order and starts over after its last slot.
pub open spec fn topic_for(batch_set: nat) -> Seq<char> {
    topic_name((batch_set % 4) as int)
}

/// Topic to which every item of batch number `batch_set` is addressed.
pub fn get_topic(batch_set: usize) -> (topic: &'static str)
    ensures
        topic@ == topic_for(batch_set as nat),
{
    let slot: usize = batch_set % TOPIC_COUNT;
    if slot == 0 {
        "persistent://example/delivery/notifications"
    } else if slot == 1 {
        "persistent://example/delivery/notifications-retries"
    } else if slot == 2 {
        "persistent://example/delivery/notifications-enterprise"
    } else {
        "persistent://example/delivery/notifications-enterprise-retries"
    }
}

/// The whole rotation, in slot order, for a subscriber that drains all of it.
pub fn topics() -> (all: Vec<&'static str>)
    ensures
        all@.len() == TOPIC_COUNT,
        forall|slot: int| 0 <= slot < 4 ==> (#[trigger] all@[slot])@ == topic_name(slot),
{
    let mut all: Vec<&'static str> = Vec::new();
    let mut slot: usize = 0;
    while slot < TOPIC_COUNT
        invariant
            slot <= TOPIC_COUNT,
            all@.len() == slot,
            forall|k: int| 0 <= k < slot ==> (#[trigger] all@[k])@ == topic_name(k),
        decreases TOPIC_COUNT - slot,
    {
        all.push(get_topic(slot));
        slot = slot + 1;
    }
    all
}

/// The four slots of the rotation carry four different names.
pub proof fn lemma_topics_distinct(a: int, b: int)
    requires
        0 <= a < 4,
        0 <= b < 4,
        a != b,
    ensures
        topic_name(a) != topic_name(b),
{
    reveal_strlit("persistent://example/delivery/notifications");
    reveal_strlit("persistent://example/delivery/notifications-retries");
    reveal_strlit("persistent://example/delivery/notifications-enterprise");
    reveal_strlit("persistent://example/delivery/notifications-enterprise-retries");
    assert(topic_name(0).len() == 43);
    assert(topic_name(1).len() == 51);
    assert(topic_name(2).len() == 54);
    assert(topic_name(3).len() == 62);
}

/// Topics are assigned cyclically with period four: batches whose sequence
/// numbers differ by four share a topic, and batches closer than that do not.
pub proof fn lemma_topic_rotation(batch_set: nat, later: nat)
    ensures
        topic_for(batch_set + 4) == topic_for(batch_set),
        topic_for(0) == topic_for(4),
        (later % 4 == batch_set % 4) <==> topic_for(later) == topic_for(batch_set),
{
    if later % 4 != batch_set % 4 {
        lemma_topics_distinct((later % 4) as int, (batch_set % 4) as int);
    }
}

} // verus!
