//! How the two sides fit together: what the consumer has counted is what
//! the producer's poller reads, so a batch that was delivered is a batch
//! that completes.

use vstd::prelude::*;
use crate::consumer::{
    all_counted, lemma_batch_tally, lemma_duplicate_tolerance, lemma_tally_append, payloads, tally,
};
use crate::ident::hyphenated;
use crate::payload::{has_separator, lemma_identifier_round_trip};
use crate::poller::{verdict_for, PollVerdict};

verus! {

/// Once the consumer has gone through all payloads of a batch, after
/// whatever well-formed traffic came before them, a reading of the batch's
/// counter ends the polling, however long the streak of misses was.
pub proof fn lemma_delivered_batch_completes(
    batch: Seq<char>,
    items: Seq<Seq<char>>,
    earlier: Seq<Seq<char>>,
    streak: u64,
    reading: u64,
)
    requires
        !has_separator(batch),
        all_counted(earlier),
        items.len() <= u64::MAX,
        reading == tally(earlier + payloads(batch, items), batch),
    ensures
        reading >= items.len(),
        verdict_for(items.len() as u64, streak, Some(reading)) == PollVerdict::Complete,
{
    lemma_batch_tally(batch, items);
    lemma_tally_append(earlier, payloads(batch, items), batch);
}

/// Where some items of a batch are sent twice, the counter ends at the
/// number of items plus the number of repeats, never below the number of
/// items, and a reading of it ends the polling.
pub proof fn lemma_duplicates_still_complete(
    batch: Seq<char>,
    items: Seq<Seq<char>>,
    resent: Seq<Seq<char>>,
    streak: u64,
    reading: u64,
)
    requires
        !has_separator(batch),
        items.len() <= u64::MAX,
        reading == tally(payloads(batch, items) + payloads(batch, resent), batch),
    ensures
        reading == items.len() + resent.len(),
        reading >= items.len(),
        verdict_for(items.len() as u64, streak, Some(reading)) == PollVerdict::Complete,
{
    lemma_duplicate_tolerance(batch, items, resent);
}

/// Both laws hold of every batch identifier, since no identifier's text
/// holds a separator: the count under a batch's text after its payloads is
/// the number of its items.
pub proof fn lemma_identified_batch_is_counted(batch: u128, items: Seq<Seq<char>>)
    ensures
        tally(payloads(hyphenated(batch), items), hyphenated(batch)) == items.len(),
{
    lemma_identifier_round_trip(batch, Seq::empty());
    lemma_batch_tally(hyphenated(batch), items);
}

} // verus!
