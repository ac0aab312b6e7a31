//! One producer worker: it sends the items of a batch one after another,
//! then watches the batch's counter, and moves on to the next batch once the
//! counter is full.

use vstd::prelude::*;
use vstd::string::*;
use crate::batch::WorkItem;
use crate::ident::{hyphenated, is_random_v4, BatchId, ItemId};
use crate::payload::tagged;
use crate::poller::{
    is_complete, next_streak, reading_value, verdict_for, PollVerdict, Poller, POLL_INTERVAL_MS,
};
use crate::topic::{topic_for, topic_name};

verus! {

/// Items in a batch.
pub const SEND_COUNT: u64 = 400;

/// Workers that run side by side.
pub const WORKER_COUNT: u64 = 25;

/// Pause between the starts of two workers, in milliseconds.
pub const SPAWN_STAGGER_MS: u64 = 50;

/// Connections to the counter store that the workers share.
pub const POOL_CAPACITY: u32 = 100;

/// Seconds a worker waits for a connection from the pool.
pub const POOL_TIMEOUT_SECS: u64 = 10;

/// The sequence number after `batch_set`. Past the largest number it starts
/// again at zero, which keeps the rotation of topics unbroken.
pub open spec fn next_sequence(batch_set: usize) -> usize {
    if batch_set == usize::MAX {
        0
    } else {
        (batch_set + 1) as usize
    }
}

/// Name under which a worker's producer registers with the broker, made
/// from an identifier's text.
pub open spec fn producer_name_of(id: Seq<char>) -> Seq<char> {
    "producer: "@ + id
}

/// Builds the name of a worker's producer from an identifier.
pub fn producer_name(id: ItemId) -> (name: String)
    ensures
        name@ == producer_name_of(hyphenated(id.bits)),
{
    let text = id.text();
    String::from_str("producer: ").concat(text.as_str())
}

/// What the worker asks its surroundings to do next.
pub enum WorkerAction {
    /// Send `payload` to `topic` until the broker has acknowledged it.
    Send { topic: &'static str, payload: String },
    /// Wait `pause_ms` milliseconds, then read the counter under `key`.
    Poll { key: String, pause_ms: u64 },
}

/// State of one worker.
#[derive(Clone, Copy, Debug, PartialEq, Eq, Structural)]
pub struct Worker {
    /// Sequence number of the current batch.
    pub batch_set: usize,
    /// Identifier of the current batch.
    pub batch: BatchId,
    /// Items in every batch of this worker.
    pub send_count: u64,
    /// Items of the current batch that the broker has acknowledged.
    pub sent: u64,
    /// Watches the current batch's counter.
    pub poller: Poller,
}

impl Worker {
    /// A worker never counts more items as sent than a batch has, and its
    /// poller expects the whole batch.
    pub open spec fn wf(&self) -> bool {
        self.sent <= self.send_count && self.poller.expected == self.send_count
    }

    /// Whether items of the current batch are still to be sent.
    pub open spec fn is_sending(&self) -> bool {
        self.sent < self.send_count
    }

    /// The worker at the start of batch number `batch_set`.
    pub open spec fn at_batch(batch_set: usize, batch: BatchId, send_count: u64) -> Worker {
        Worker {
            batch_set,
            batch,
            send_count,
            sent: 0,
            poller: Poller { expected: send_count, missed: 0 },
        }
    }

    /// The worker after the broker has acknowledged one more item. Once the
    /// whole batch is sent, further acknowledgments change nothing.
    pub open spec fn after_sent(self) -> Worker {
        Worker {
            sent: if self.is_sending() {
                (self.sent + 1) as u64
            } else {
                self.sent
            },
            ..self
        }
    }

    /// The worker after `n` acknowledgments.
    pub open spec fn after_sends(self, n: nat) -> Worker
        decreases n,
    {
        if n == 0 {
            self
        } else {
            self.after_sends((n - 1) as nat).after_sent()
        }
    }

    /// The worker after a reading of its batch's counter, where `next` is
    /// the identifier that the following batch would get. While items are
    /// still to be sent the reading is ignored; a complete reading starts
    /// the following batch; any other lengthens the streak of misses.
    pub open spec fn after_reading(self, reading: Option<u64>, next: BatchId) -> Worker {
        if self.is_sending() {
            self
        } else if is_complete(reading_value(reading), self.send_count) {
            Worker::at_batch(next_sequence(self.batch_set), next, self.send_count)
        } else {
            Worker {
                poller: Poller {
                    expected: self.send_count,
                    missed: next_streak(self.poller.missed),
                },
                ..self
            }
        }
    }

    /// A worker at the start of its first batch, which has the given
    /// identifier.
    pub fn begin(send_count: u64, batch: BatchId) -> (worker: Worker)
        ensures
            worker == Worker::at_batch(0, batch, send_count),
            worker.wf(),
    {
        Worker { batch_set: 0, batch, send_count, sent: 0, poller: Poller::new(send_count) }
    }

    /// A worker at the start of its first batch, under a new random
    /// identifier.
    pub fn start(send_count: u64) -> (worker: Worker)
        ensures
            worker == Worker::at_batch(0, worker.batch, send_count),
            is_random_v4(worker.batch.bits),
            worker.wf(),
    {
        Worker::begin(send_count, BatchId::fresh())
    }

    /// The send of `item` as part of the current batch: to the batch's topic,
    /// with the batch's text before the separator.
    pub fn send_action(&self, item: ItemId) -> (action: WorkerAction)
        ensures
            match action {
                WorkerAction::Send { topic, payload } => topic@ == topic_for(self.batch_set as nat)
                    && payload@ == tagged(hyphenated(self.batch.bits), hyphenated(item.bits)),
                WorkerAction::Poll { .. } => false,
            },
    {
        let work = WorkItem::new(self.batch_set, self.batch, item);
        WorkerAction::Send { topic: work.topic, payload: work.payload() }
    }

    /// The next look at the current batch's counter.
    pub fn poll_action(&self) -> (action: WorkerAction)
        ensures
            match action {
                WorkerAction::Poll { key, pause_ms } => key@ == hyphenated(self.batch.bits)
                    && pause_ms == POLL_INTERVAL_MS,
                WorkerAction::Send { .. } => false,
            },
    {
        WorkerAction::Poll { key: self.batch.text(), pause_ms: POLL_INTERVAL_MS }
    }

    /// What to do next: send one more item, under a new random identifier,
    /// while the batch is not fully sent, and look at the counter after that.
    pub fn next_action(&self) -> (action: WorkerAction)
        ensures
            match action {
                WorkerAction::Send { topic, payload } => self.is_sending() && topic@ == topic_for(
                    self.batch_set as nat,
                ) && exists|item: u128|
                    is_random_v4(item) && payload@ == tagged(
                        hyphenated(self.batch.bits),
                        #[trigger] hyphenated(item),
                    ),
                WorkerAction::Poll { key, pause_ms } => !self.is_sending() && key@ == hyphenated(
                    self.batch.bits,
                ) && pause_ms == POLL_INTERVAL_MS,
            },
    {
        if self.sent < self.send_count {
            let item = ItemId::fresh();
            self.send_action(item)
        } else {
            self.poll_action()
        }
    }

    /// Records that the broker has acknowledged one more item of the batch.
    /// Once the whole batch is sent, further acknowledgments change nothing.
    pub fn on_sent(&mut self)
        requires
            old(self).wf(),
        ensures
            final(self).wf(),
            *final(self) == old(self).after_sent(),
    {
        if self.sent < self.send_count {
            self.sent = self.sent + 1;
        }
    }

    /// Moves on to the next batch, which gets the identifier `next`, the
    /// following sequence number and with it the following topic.
    pub fn advance(&mut self, next: BatchId)
        ensures
            *final(self) == Worker::at_batch(
                next_sequence(old(self).batch_set),
                next,
                old(self).send_count,
            ),
            final(self).wf(),
    {
        self.batch_set = if self.batch_set == usize::MAX {
            0
        } else {
            self.batch_set + 1
        };
        self.batch = next;
        self.sent = 0;
        self.poller = Poller::new(self.send_count);
    }

    /// Takes a reading of the current batch's counter. While items are still
    /// to be sent the reading is ignored. A reading that completes the batch
    /// moves the worker on to the next batch, under a new random identifier;
    /// any other lengthens the streak of misses.
    pub fn on_reading(&mut self, reading: Option<u64>) -> (verdict: PollVerdict)
        requires
            old(self).wf(),
        ensures
            final(self).wf(),
            old(self).is_sending() ==> verdict == PollVerdict::Pending,
            !old(self).is_sending() ==> verdict == verdict_for(
                old(self).send_count,
                old(self).poller.missed,
                reading,
            ),
            *final(self) == old(self).after_reading(reading, final(self).batch),
            !old(self).is_sending() && verdict == PollVerdict::Complete ==> is_random_v4(
                final(self).batch.bits,
            ),
    {
        if self.sent < self.send_count {
            return PollVerdict::Pending;
        }
        let verdict = self.poller.observe(reading);
        match verdict {
            PollVerdict::Complete => {
                let next = BatchId::fresh();
                self.advance(next);
            },
            _ => {},
        }
        verdict
    }
}

/// Acknowledgments move a worker through its batch one item at a time and
/// touch nothing else.
pub proof fn lemma_after_sends(worker: Worker, n: nat)
    requires
        worker.wf(),
    ensures
        worker.after_sends(n) == (Worker {
            sent: if worker.sent + n <= worker.send_count {
                (worker.sent + n) as u64
            } else {
                worker.send_count
            },
            ..worker
        }),
    decreases n,
{
    if n > 0 {
        lemma_after_sends(worker, (n - 1) as nat);
    }
}

/// The life of a batch: a worker that begins a batch of `send_count` items
/// keeps sending until that many items are acknowledged and only then
/// reads the counter; a reading that has reached `send_count` puts it at
/// the start of the following batch, which goes to the following topic.
pub proof fn lemma_batch_cycle(
    batch_set: usize,
    batch: BatchId,
    next: BatchId,
    send_count: u64,
    reading: Option<u64>,
    acknowledged: nat,
)
    requires
        is_complete(reading_value(reading), send_count),
    ensures
        Worker::at_batch(batch_set, batch, send_count).after_sends(acknowledged).is_sending()
            <==> acknowledged < send_count,
        Worker::at_batch(batch_set, batch, send_count).after_sends(send_count as nat).after_reading(
            reading,
            next,
        ) == Worker::at_batch(next_sequence(batch_set), next, send_count),
        topic_for(next_sequence(batch_set) as nat) == topic_name(((batch_set % 4) + 1) % 4),
{
    let begun = Worker::at_batch(batch_set, batch, send_count);
    lemma_after_sends(begun, acknowledged);
    lemma_after_sends(begun, send_count as nat);
    lemma_next_batch_next_topic(batch_set);
}

/// Consecutive batches of a worker go to consecutive slots of the rotation,
/// also where the sequence number starts over.
pub proof fn lemma_next_batch_next_topic(batch_set: usize)
    ensures
        topic_for(next_sequence(batch_set) as nat) == topic_name(((batch_set % 4) + 1) % 4),
{
    assert(usize::MAX % 4 == 3) by {
        assert(usize::MAX == 0xffff_ffff || usize::MAX == 0xffff_ffff_ffff_ffff);
    }
}

} // verus!
