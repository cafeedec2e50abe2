//! The scratch file pool, as far as it is decided here: what each slot is to
//! hold for a batch.
//!
//! The pool has one slot for each position in a batch. For a batch of `n`
//! lines the slots `0` to `n - 1` are written anew, slot `i` with line `i`
//! and a line feed. The other slots are left alone and take no part in the
//! batch.

use vstd::prelude::*;
use vstd::string::*;

verus! {

/// What the slot of `line` holds: the line and a line feed.
pub open spec fn slot_text(line: Seq<char>) -> Seq<char> {
    line.push('\n')
}

/// What the slots of a batch hold, slot `i` for line `i`.
pub open spec fn slot_texts(batch: Seq<Seq<char>>) -> Seq<Seq<char>> {
    batch.map_values(|line: Seq<char>| slot_text(line))
}

/// What the slots of the pool hold after `payloads` were written: slot `i`
/// holds payload `i` and nothing else, and the slots for which there is no
/// payload hold what they held before.
pub open spec fn populated(slots: Seq<Seq<char>>, payloads: Seq<Seq<char>>) -> Seq<Seq<char>> {
    Seq::new(
        slots.len(),
        |i: int|
            if i < payloads.len() {
                payloads[i]
            } else {
                slots[i]
            },
    )
}

/// Once a batch is written, slot `i` holds line `i` of it and a line feed,
/// whatever the slot held before. The pool keeps its number of slots, and
/// the slots beyond the batch are left as they were.
pub proof fn lemma_slots_hold_the_batch(slots: Seq<Seq<char>>, batch: Seq<Seq<char>>)
    requires
        batch.len() <= slots.len(),
    ensures
        populated(slots, slot_texts(batch)).len() == slots.len(),
        forall|i: int|
            0 <= i < batch.len() ==> #[trigger] populated(slots, slot_texts(batch))[i]
                == batch[i].push('\n'),
        forall|i: int|
            batch.len() <= i < slots.len() ==> #[trigger] populated(slots, slot_texts(batch))[i]
                == slots[i],
{
}

/// What slot `i` is to hold for `batch`, for each line `i` of it.
pub fn slot_payloads(batch: &[String]) -> (payloads: Vec<String>)
    ensures
        payloads.deep_view() == slot_texts(batch.deep_view()),
{
    let mut payloads: Vec<String> = Vec::new();
    let mut i: usize = 0;
    while i < batch.len()
        invariant
            i <= batch.len(),
            payloads.deep_view() == slot_texts(batch.deep_view().take(i as int)),
        decreases batch.len() - i,
    {
        let payload = batch[i].clone().concat("\n");
        proof {
            reveal_strlit("\n");
            assert("\n"@ == seq!['\n']);
            assert(payload@ == slot_text(batch@[i as int]@));
            assert(payloads.deep_view().push(payload@) == slot_texts(
                batch.deep_view().take(i + 1),
            ));
        }
        payloads.push(payload);
        i = i + 1;
    }
    assert(batch.deep_view().take(batch.len() as int) == batch.deep_view());
    payloads
}

} // verus!
