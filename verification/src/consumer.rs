//! The consumer's side: which batch a message counts for, and when the
//! consumer stops.

use vstd::prelude::*;
use vstd::string::*;
use crate::payload::{
    batch_key, batch_key_of, has_separator, lemma_separator_gives_key, lemma_tag_round_trip,
    tagged,
};

verus! {

/// Name of the subscription that all consumers share.
pub const SUBSCRIPTION: &'static str = "delivery-subscription";

/// Name under which a consumer registers with the broker.
pub const CONSUMER_NAME: &'static str = "delivery-consumer";

/// Seconds after which the broker hands out an unacknowledged message again.
pub const REDELIVERY_DELAY_SECS: u64 = 1800;

/// What the subscription yielded.
pub enum Inbound {
    /// The stream of messages has ended.
    Closed,
    /// The stream yielded an error in place of a message.
    Broken,
    /// A message came whose body is not text.
    Undecodable,
    /// A message came with this text as its body.
    Text(String),
}

/// What the consumer does about it.
pub enum Handling {
    /// Stop consuming. The message, if there was one, is not counted and
    /// not acknowledged.
    Halt,
    /// Add one to the counter under `key`, then acknowledge the message.
    Count { key: String },
}

/// The counter key that a yield of the subscription counts for, if any.
pub open spec fn counted_key(inbound: Inbound) -> Option<Seq<char>> {
    match inbound {
        Inbound::Text(body) => batch_key_of(body@),
        _ => None,
    }
}

/// Decides what to do with what the subscription yielded. Only a text with
/// a separator is counted, under what stands before its first separator;
/// everything else halts the consumer.
pub fn handle(inbound: &Inbound) -> (handling: Handling)
    ensures
        match handling {
            Handling::Count { key } => counted_key(*inbound) == Some(key@),
            Handling::Halt => counted_key(*inbound) is None,
        },
{
    match inbound {
        Inbound::Text(body) => match batch_key(body.as_str()) {
            Some(key) => Handling::Count { key },
            None => Handling::Halt,
        },
        _ => Handling::Halt,
    }
}

/// The count that stands under `key` after the consumer has gone through
/// `deliveries` on a counter that started at zero. The consumer halts at the
/// first payload without a separator, so nothing after it is counted.
pub open spec fn tally(deliveries: Seq<Seq<char>>, key: Seq<char>) -> nat
    decreases deliveries.len(),
{
    if deliveries.len() == 0 {
        0
    } else {
        match batch_key_of(deliveries[0]) {
            None => 0,
            Some(k) => (if k == key {
                1nat
            } else {
                0nat
            }) + tally(deliveries.drop_first(), key),
        }
    }
}

/// The payloads of a batch: one for each of its items, in order.
pub open spec fn payloads(batch: Seq<char>, items: Seq<Seq<char>>) -> Seq<Seq<char>> {
    Seq::new(items.len(), |i: int| tagged(batch, items[i]))
}

/// Whether every payload of a run would be counted.
pub open spec fn all_counted(deliveries: Seq<Seq<char>>) -> bool {
    forall|i: int| 0 <= i < deliveries.len() ==> has_separator(#[trigger] deliveries[i])
}

/// Deliveries after a run in which everything was counted add their own
/// count to the run's.
pub proof fn lemma_tally_append(first: Seq<Seq<char>>, more: Seq<Seq<char>>, key: Seq<char>)
    requires
        all_counted(first),
    ensures
        tally(first + more, key) == tally(first, key) + tally(more, key),
    decreases first.len(),
{
    if first.len() == 0 {
        assert(first + more =~= more);
    } else {
        let whole = first + more;
        assert(whole[0] == first[0]);
        assert(whole.drop_first() =~= first.drop_first() + more);
        assert(has_separator(first[0]));
        lemma_separator_gives_key(first[0]);
        assert forall|i: int| 0 <= i < first.drop_first().len() implies has_separator(
            #[trigger] first.drop_first()[i],
        ) by {
            assert(first.drop_first()[i] == first[i + 1]);
        }
        lemma_tally_append(first.drop_first(), more, key);
    }
}

/// A batch whose payloads are each delivered once is counted at the number
/// of its items.
pub proof fn lemma_batch_tally(batch: Seq<char>, items: Seq<Seq<char>>)
    requires
        !has_separator(batch),
    ensures
        tally(payloads(batch, items), batch) == items.len(),
        all_counted(payloads(batch, items)),
    decreases items.len(),
{
    let sent = payloads(batch, items);
    assert forall|i: int| 0 <= i < sent.len() implies has_separator(#[trigger] sent[i]) by {
        lemma_tag_round_trip(batch, items[i]);
    }
    if items.len() > 0 {
        lemma_tag_round_trip(batch, items[0]);
        assert(sent.drop_first() =~= payloads(batch, items.drop_first()));
        lemma_batch_tally(batch, items.drop_first());
    }
}

/// The texts of a run of message bodies.
pub open spec fn texts(bodies: Seq<String>) -> Seq<Seq<char>> {
    Seq::new(bodies.len(), |i: int| bodies[i]@)
}

/// What a consumer did over a recorded run of message bodies.
#[derive(Clone, Copy, Debug, PartialEq, Eq, Structural)]
pub struct ConsumeTrace {
    /// Messages counted and acknowledged before the consumer halted or the
    /// record ran out.
    pub handled: usize,
    /// How many of them counted for the key that was asked about.
    pub counted: usize,
}

/// Runs a consumer over recorded message bodies, as the consuming loop
/// would over live ones, and keeps the count under `key`: it stops at the
/// first body without a separator, or when the record runs out.
pub fn replay(bodies: &Vec<String>, key: &str) -> (trace: ConsumeTrace)
    ensures
        trace.counted == tally(texts(bodies@), key@),
        trace.handled <= bodies@.len(),
        all_counted(texts(bodies@).take(trace.handled as int)),
        trace.handled < bodies@.len() ==> !has_separator(bodies@[trace.handled as int]@),
{
    let wanted = String::from_str(key);
    let mut handled: usize = 0;
    let mut counted: usize = 0;
    let ghost all = texts(bodies@);
    proof {
        assert(all.take(0) =~= Seq::<Seq<char>>::empty());
    }
    while handled < bodies.len()
        invariant
            handled <= bodies@.len(),
            all == texts(bodies@),
            wanted@ == key@,
            counted <= handled,
            counted == tally(all.take(handled as int), key@),
            all_counted(all.take(handled as int)),
        decreases bodies@.len() - handled,
    {
        let ghost one = seq![all[handled as int]];
        proof {
            assert(all.take(handled + 1) =~= all.take(handled as int) + one);
            assert(one.drop_first() =~= Seq::<Seq<char>>::empty());
            assert(tally(one.drop_first(), key@) == 0);
            lemma_tally_append(all.take(handled as int), one, key@);
        }
        match batch_key(bodies[handled].as_str()) {
            Some(found) => {
                if found == wanted {
                    counted = counted + 1;
                }
                assert forall|i: int| 0 <= i < handled + 1 implies has_separator(
                    #[trigger] all.take(handled + 1)[i],
                ) by {
                    if i < handled {
                        assert(all.take(handled as int)[i] == all.take(handled + 1)[i]);
                    }
                }
            },
            None => {
                proof {
                    let rest = all.skip(handled as int);
                    assert(rest[0] == all[handled as int]);
                    assert(tally(rest, key@) == 0);
                    assert(all.take(handled as int) + rest =~= all);
                    lemma_tally_append(all.take(handled as int), rest, key@);
                }
                return ConsumeTrace { handled, counted };
            },
        }
        handled = handled + 1;
    }
    proof {
        assert(all.take(handled as int) =~= all);
    }
    ConsumeTrace { handled, counted }
}

/// A payload that is delivered once more, at whatever place in a run in which
/// everything is counted, adds one to the count of its own batch and leaves
/// every other count as it was: redelivery never lowers a count.
pub proof fn lemma_redelivery_never_lowers(
    deliveries: Seq<Seq<char>>,
    at: int,
    payload: Seq<char>,
    key: Seq<char>,
)
    requires
        all_counted(deliveries),
        has_separator(payload),
        0 <= at <= deliveries.len(),
    ensures
        tally(deliveries.insert(at, payload), key) == tally(deliveries, key) + (if batch_key_of(
            payload,
        ) == Some(key) {
            1nat
        } else {
            0nat
        }),
        tally(deliveries.insert(at, payload), key) >= tally(deliveries, key),
    decreases at,
{
    let longer = deliveries.insert(at, payload);
    lemma_separator_gives_key(payload);
    if at == 0 {
        assert(longer[0] == payload);
        assert(longer.drop_first() =~= deliveries);
    } else {
        let rest = deliveries.drop_first();
        assert(longer[0] == deliveries[0]);
        assert(longer.drop_first() =~= rest.insert(at - 1, payload));
        assert(has_separator(deliveries[0]));
        lemma_separator_gives_key(deliveries[0]);
        assert forall|i: int| 0 <= i < rest.len() implies has_separator(#[trigger] rest[i]) by {
            assert(rest[i] == deliveries[i + 1]);
        }
        lemma_redelivery_never_lowers(rest, at - 1, payload, key);
    }
}

/// Sending some items a second time never lowers the count: after the `N`
/// payloads of a batch and `M` repeats the counter stands at `N + M`, which
/// is at least `N`.
pub proof fn lemma_duplicate_tolerance(
    batch: Seq<char>,
    items: Seq<Seq<char>>,
    resent: Seq<Seq<char>>,
)
    requires
        !has_separator(batch),
    ensures
        tally(payloads(batch, items) + payloads(batch, resent), batch) == items.len()
            + resent.len(),
        tally(payloads(batch, items) + payloads(batch, resent), batch) >= items.len(),
{
    lemma_batch_tally(batch, items);
    lemma_batch_tally(batch, resent);
    lemma_tally_append(payloads(batch, items), payloads(batch, resent), batch);
}

} // verus!
