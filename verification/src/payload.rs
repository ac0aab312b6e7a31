//! The wire form of a work item: the batch's text, a colon, the item's text.

use vstd::prelude::*;
use vstd::string::*;
use crate::ident::{hyphenated, lemma_text_alphabet};

verus! {

/// The character that ends the batch's part of a payload.
pub const SEPARATOR: char = ':';

/// Payload of an item: `batch`, the separator, `item`.
pub open spec fn tagged(batch: Seq<char>, item: Seq<char>) -> Seq<char> {
    batch + seq![':'] + item
}

/// Whether `at` is the place of the first separator in `payload`.
pub open spec fn is_first_separator(payload: Seq<char>, at: int) -> bool {
    &&& 0 <= at < payload.len()
    &&& payload[at] == ':'
    &&& forall|j: int| 0 <= j < at ==> payload[j] != ':'
}

/// Whether a payload holds a separator at all.
pub open spec fn has_separator(payload: Seq<char>) -> bool {
    exists|at: int| 0 <= at < payload.len() && payload[at] == ':'
}

/// The batch's part of a payload: what stands before the first separator.
/// A payload without a separator has none.
pub open spec fn batch_key_of(payload: Seq<char>) -> Option<Seq<char>> {
    if exists|at: int| is_first_separator(payload, at) {
        Some(payload.take(choose|at: int| is_first_separator(payload, at)))
    } else {
        None
    }
}

/// A payload has at most one first separator.
pub proof fn lemma_first_separator_unique(payload: Seq<char>, a: int, b: int)
    requires
        is_first_separator(payload, a),
        is_first_separator(payload, b),
    ensures
        a == b,
{
    if a < b {
        assert(payload[a] != ':');
    } else if b < a {
        assert(payload[b] != ':');
    }
}

/// Where the first separator is known, the batch's part is what precedes it.
pub proof fn lemma_batch_key_at(payload: Seq<char>, at: int)
    requires
        is_first_separator(payload, at),
    ensures
        batch_key_of(payload) == Some(payload.take(at)),
{
    let chosen = choose|k: int| is_first_separator(payload, k);
    lemma_first_separator_unique(payload, at, chosen);
}

/// A payload with a separator has a batch part.
pub proof fn lemma_separator_gives_key(payload: Seq<char>)
    requires
        has_separator(payload),
    ensures
        batch_key_of(payload) is Some,
{
    let at = choose|at: int| 0 <= at < payload.len() && payload[at] == ':';
    lemma_least_separator(payload, at);
}

/// Before any separator of a payload stands a first one.
proof fn lemma_least_separator(payload: Seq<char>, at: int)
    requires
        0 <= at < payload.len(),
        payload[at] == ':',
    ensures
        exists|first: int| is_first_separator(payload, first),
    decreases at,
{
    if exists|j: int| 0 <= j < at && payload[j] == ':' {
        let j = choose|j: int| 0 <= j < at && payload[j] == ':';
        lemma_least_separator(payload, j);
    } else {
        assert(is_first_separator(payload, at));
    }
}

/// Builds the payload of an item from the texts of its batch and of itself.
pub fn tag(batch: &str, item: &str) -> (payload: String)
    ensures
        payload@ == tagged(batch@, item@),
{
    proof {
        reveal_strlit(":");
        assert(":"@ =~= seq![':']);
    }
    String::from_str(batch).concat(":").concat(item)
}

/// Takes the batch's part out of a payload: everything before the first
/// separator, or nothing where the payload holds no separator.
pub fn batch_key(payload: &str) -> (key: Option<String>)
    ensures
        key is Some <==> has_separator(payload@),
        match key {
            Some(k) => batch_key_of(payload@) == Some(k@) && is_first_separator(
                payload@,
                k@.len() as int,
            ),
            None => batch_key_of(payload@) is None,
        },
{
    let n: usize = payload.unicode_len();
    let mut at: usize = 0;
    while at < n
        invariant
            at <= n,
            n == payload@.len(),
            forall|j: int| 0 <= j < at ==> payload@[j] != ':',
        decreases n - at,
    {
        if payload.get_char(at) == SEPARATOR {
            let head: &str = payload.substring_char(0, at);
            proof {
                assert(is_first_separator(payload@, at as int));
                lemma_batch_key_at(payload@, at as int);
                assert(payload@.subrange(0, at as int) == payload@.take(at as int));
            }
            return Some(String::from_str(head));
        }
        at = at + 1;
    }
    proof {
        assert forall|k: int| !is_first_separator(payload@, k) by {}
    }
    None
}

/// A payload gives back the batch text it was tagged with, whatever the
/// item's text, as long as the batch text itself holds no separator.
pub proof fn lemma_tag_round_trip(batch: Seq<char>, item: Seq<char>)
    requires
        !has_separator(batch),
    ensures
        batch_key_of(tagged(batch, item)) == Some(batch),
        has_separator(tagged(batch, item)),
{
    let payload = tagged(batch, item);
    let at = batch.len() as int;
    assert(payload[at] == ':');
    assert forall|j: int| 0 <= j < at implies payload[j] != ':' by {
        assert(payload[j] == batch[j]);
    }
    assert(is_first_separator(payload, at));
    lemma_batch_key_at(payload, at);
    assert(payload.take(at) =~= batch);
}

/// No identifier's text holds a separator, so a payload built from a batch
/// identifier always gives that identifier's text back.
pub proof fn lemma_identifier_round_trip(batch: u128, item: Seq<char>)
    ensures
        !has_separator(hyphenated(batch)),
        batch_key_of(tagged(hyphenated(batch), item)) == Some(hyphenated(batch)),
{
    assert forall|i: int| 0 <= i < hyphenated(batch).len() implies hyphenated(batch)[i]
        != ':' by {
        lemma_text_alphabet(batch, i);
    }
    lemma_tag_round_trip(hyphenated(batch), item);
}

} // verus!
