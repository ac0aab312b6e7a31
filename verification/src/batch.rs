//! Batches of work items: every item of a batch carries the batch's
//! identifier and goes to the batch's topic.

use vstd::prelude::*;
use crate::ident::{hyphenated, is_random_v4, BatchId, ItemId};
use crate::payload::{tag, tagged};
use crate::topic::{get_topic, topic_for};

verus! {

/// One item on its way to the broker.
#[derive(Clone, Copy, Debug)]
pub struct WorkItem {
    /// The batch the item belongs to.
    pub batch: BatchId,
    /// The item's own identifier.
    pub item: ItemId,
    /// The topic the item is sent to.
    pub topic: &'static str,
}

impl WorkItem {
    /// Whether this is item `item` of batch `batch`, which has sequence
    /// number `batch_set`.
    pub open spec fn is_item_of(&self, batch_set: usize, batch: BatchId, item: ItemId) -> bool {
        self.batch == batch && self.item == item && self.topic@ == topic_for(batch_set as nat)
    }

    /// The item `item` of batch `batch`, addressed to the topic that the
    /// batch's sequence number selects.
    pub fn new(batch_set: usize, batch: BatchId, item: ItemId) -> (work: WorkItem)
        ensures
            work.is_item_of(batch_set, batch, item),
    {
        WorkItem { batch, item, topic: get_topic(batch_set) }
    }

    /// The item's payload: the batch's text, the separator, the item's text.
    pub fn payload(&self) -> (payload: String)
        ensures
            payload@ == tagged(hyphenated(self.batch.bits), hyphenated(self.item.bits)),
    {
        let batch_text = self.batch.text();
        let item_text = self.item.text();
        tag(batch_text.as_str(), item_text.as_str())
    }
}

/// The items of batch `batch` for the given item identifiers, in order.
pub fn generate_with(batch_set: usize, batch: BatchId, items: &Vec<ItemId>) -> (works: Vec<
    WorkItem,
>)
    ensures
        works@.len() == items@.len(),
        forall|i: int|
            0 <= i < works@.len() ==> (#[trigger] works@[i]).is_item_of(batch_set, batch, items@[i]),
{
    let mut works: Vec<WorkItem> = Vec::new();
    let mut at: usize = 0;
    while at < items.len()
        invariant
            at <= items@.len(),
            works@.len() == at,
            forall|i: int|
                0 <= i < at ==> (#[trigger] works@[i]).is_item_of(batch_set, batch, items@[i]),
        decreases items@.len() - at,
    {
        works.push(WorkItem::new(batch_set, batch, items[at]));
        at = at + 1;
    }
    works
}

/// One batch: its identifier, its topic and its items.
pub struct Batch {
    /// The identifier that all items of the batch carry.
    pub id: BatchId,
    /// The topic that all items of the batch go to.
    pub topic: &'static str,
    /// The items, in the order in which they are sent.
    pub items: Vec<WorkItem>,
}

/// A new batch of `count` items, all under random identifiers and all
/// addressed to the topic that the sequence number selects.
pub fn generate(batch_set: usize, count: usize) -> (batch: Batch)
    ensures
        is_random_v4(batch.id.bits),
        batch.topic@ == topic_for(batch_set as nat),
        batch.items@.len() == count,
        forall|i: int|
            0 <= i < count ==> {
                let work = #[trigger] batch.items@[i];
                work.is_item_of(batch_set, batch.id, work.item) && is_random_v4(work.item.bits)
            },
{
    let id = BatchId::fresh();
    let mut drawn: Vec<ItemId> = Vec::new();
    while drawn.len() < count
        invariant
            drawn@.len() <= count,
            forall|i: int| 0 <= i < drawn@.len() ==> is_random_v4((#[trigger] drawn@[i]).bits),
        decreases count - drawn@.len(),
    {
        drawn.push(ItemId::fresh());
    }
    let items = generate_with(batch_set, id, &drawn);
    Batch { id, topic: get_topic(batch_set), items }
}

} // verus!
