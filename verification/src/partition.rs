//! The batch partitioner: which lines belong to which batch.
//!
//! The lines of the input are cut into consecutive groups of `batch_size`
//! lines. Only the last group may hold fewer.

use crate::error::Failure;
use crate::error::XcoprError;
use vstd::arithmetic::div_mod::lemma_fundamental_div_mod;
use vstd::arithmetic::div_mod::lemma_fundamental_div_mod_converse;
use vstd::arithmetic::div_mod::lemma_mod_pos_bound;
use vstd::prelude::*;

verus! {

/// The number of batches that `line_count` lines are cut into.
pub open spec fn batch_count(line_count: nat, batch_size: nat) -> nat {
    if batch_size == 0 {
        0
    } else {
        ((line_count + batch_size - 1) / (batch_size as int)) as nat
    }
}

/// The index of the first line of batch `index`.
pub open spec fn batch_start(batch_size: nat, index: nat) -> nat {
    index * batch_size
}

/// The index after the last line of batch `index`.
pub open spec fn batch_end(line_count: nat, batch_size: nat, index: nat) -> nat {
    if (index + 1) * batch_size <= line_count {
        (index + 1) * batch_size
    } else {
        line_count
    }
}

/// The lines of batch `index`.
pub open spec fn batch_of<T>(lines: Seq<T>, batch_size: nat, index: nat) -> Seq<T> {
    lines.subrange(
        batch_start(batch_size, index) as int,
        batch_end(lines.len(), batch_size, index) as int,
    )
}

/// All batches, in the order in which they are processed.
pub open spec fn batches<T>(lines: Seq<T>, batch_size: nat) -> Seq<Seq<T>> {
    Seq::new(
        batch_count(lines.len(), batch_size),
        |index: int| batch_of(lines, batch_size, index as nat),
    )
}

proof fn lemma_times_successor(a: int, b: int)
    by (nonlinear_arith)
    ensures
        (a + 1) * b == a * b + b,
        (a - 1) * b == a * b - b,
        a * b == b * a,
{
}

proof fn lemma_times_monotonic(a: int, b: int, c: int)
    by (nonlinear_arith)
    requires
        a <= b,
        0 <= c,
    ensures
        a * c <= b * c,
{
}

/// The number of batches is the quotient of the two numbers, rounded up: it
/// is the least count of groups of `batch_size` lines that holds every line.
pub proof fn lemma_batch_count_is_ceiling(line_count: nat, batch_size: nat)
    requires
        batch_size >= 1,
    ensures
        batch_count(line_count, batch_size) * batch_size >= line_count,
        line_count > 0 ==> (batch_count(line_count, batch_size) - 1) * batch_size < line_count,
        line_count == 0 ==> batch_count(line_count, batch_size) == 0,
{
    let size = batch_size as int;
    let padded = line_count + size - 1;
    let count = padded / size;
    lemma_fundamental_div_mod(padded, size);
    lemma_mod_pos_bound(padded, size);
    lemma_times_successor(count, size);
    if line_count == 0 {
        lemma_fundamental_div_mod_converse(padded, size, 0, size - 1);
    }
    if count < 0 {
        lemma_times_monotonic(count, -1, size);
    }
}

/// Every batch but the last holds exactly `batch_size` lines, and the last
/// holds at least one line and at most `batch_size`.
pub proof fn lemma_batch_lengths<T>(lines: Seq<T>, batch_size: nat, index: nat)
    requires
        batch_size >= 1,
        index < batch_count(lines.len(), batch_size),
    ensures
        batch_start(batch_size, index) < batch_end(lines.len(), batch_size, index) <= lines.len(),
        index + 1 < batch_count(lines.len(), batch_size) ==> batch_of(
            lines,
            batch_size,
            index,
        ).len() == batch_size,
        index + 1 == batch_count(lines.len(), batch_size) ==> 1 <= batch_of(
            lines,
            batch_size,
            index,
        ).len() <= batch_size && batch_end(lines.len(), batch_size, index) == lines.len(),
{
    let count = batch_count(lines.len(), batch_size) as int;
    let size = batch_size as int;
    lemma_batch_count_is_ceiling(lines.len(), batch_size);
    lemma_times_successor(index as int, size);
    lemma_times_successor(count, size);
    lemma_times_monotonic(index as int, count - 1, size);
    if index + 1 < count {
        lemma_times_monotonic(index as int + 1, count - 1, size);
    }
}

/// A non-empty input is cut into as many batches as the quotient of its
/// number of lines and the batch size, rounded up. Every batch but the last
/// holds exactly `batch_size` lines, and the last holds at least one.
pub proof fn lemma_batches_full_but_last<T>(lines: Seq<T>, batch_size: nat)
    requires
        batch_size >= 1,
        lines.len() > 0,
    ensures
        batches(lines, batch_size).len() >= 1,
        (batches(lines, batch_size).len() - 1) * batch_size < lines.len() <= batches(
            lines,
            batch_size,
        ).len() * batch_size,
        forall|index: int|
            0 <= index < batches(lines, batch_size).len() - 1 ==> (#[trigger] batches(
                lines,
                batch_size,
            )[index]).len() == batch_size,
        1 <= batches(lines, batch_size).last().len() <= batch_size,
{
    let all = batches(lines, batch_size);
    lemma_batch_count_is_ceiling(lines.len(), batch_size);
    let count = batch_count(lines.len(), batch_size);
    assert(all.len() == count);
    assert(count >= 1) by {
        if count == 0 {
            assert(count * batch_size == 0) by (nonlinear_arith)
                requires
                    count == 0,
            ;
        }
    }
    assert forall|index: int| 0 <= index < all.len() - 1 implies (#[trigger] all[index]).len()
        == batch_size by {
        lemma_batch_lengths(lines, batch_size, index as nat);
    }
    lemma_batch_lengths(lines, batch_size, (all.len() - 1) as nat);
}

/// No line is lost, repeated or moved: line `i` of the input is line
/// `i % batch_size` of batch `i / batch_size`.
pub proof fn lemma_line_in_batch<T>(lines: Seq<T>, batch_size: nat, i: int)
    requires
        batch_size >= 1,
        0 <= i < lines.len(),
    ensures
        0 <= i / (batch_size as int) < batch_count(lines.len(), batch_size),
        0 <= i % (batch_size as int) < batch_of(
            lines,
            batch_size,
            (i / (batch_size as int)) as nat,
        ).len(),
        batch_of(lines, batch_size, (i / (batch_size as int)) as nat)[i % (batch_size as int)]
            == lines[i],
{
    let size = batch_size as int;
    let index = i / size;
    let count = batch_count(lines.len(), batch_size) as int;
    lemma_fundamental_div_mod(i, size);
    lemma_mod_pos_bound(i, size);
    lemma_times_successor(index, size);
    lemma_batch_count_is_ceiling(lines.len(), batch_size);
    if index < 0 {
        lemma_times_monotonic(index, -1, size);
    }
    if index >= count {
        lemma_times_monotonic(count, index, size);
    }
}

/// A batch ends where the next one starts, or before: batches do not
/// overlap, and each starts `batch_size` lines after the one before it.
pub proof fn lemma_batches_in_order(line_count: nat, batch_size: nat, index: nat)
    ensures
        batch_start(batch_size, index + 1) == batch_start(batch_size, index) + batch_size,
        batch_end(line_count, batch_size, index) <= batch_start(batch_size, index + 1),
{
    lemma_times_successor(index as int, batch_size as int);
}

/// The number of batches for `line_count` lines.
pub(crate) fn count_of(line_count: usize, batch_size: usize) -> (count: usize)
    requires
        batch_size > 0,
    ensures
        count == batch_count(line_count as nat, batch_size as nat),
        count <= line_count,
{
    let full = line_count / batch_size;
    let rest = line_count % batch_size;
    proof {
        let size = batch_size as int;
        lemma_fundamental_div_mod(line_count as int, size);
        lemma_times_successor(full as int, size);
        lemma_times_monotonic(1, size, full as int);
        if rest == 0 {
            lemma_fundamental_div_mod_converse(line_count + size - 1, size, full as int, size - 1);
        } else {
            lemma_fundamental_div_mod_converse(
                line_count + size - 1,
                size,
                full + 1,
                rest as int - 1,
            );
        }
    }
    if rest == 0 {
        full
    } else {
        full + 1
    }
}

/// Where batch `index` starts and ends, or `None` when there is no such batch.
pub(crate) fn bounds_at(line_count: usize, batch_size: usize, index: usize) -> (bounds: Option<
    (usize, usize),
>)
    requires
        batch_size > 0,
    ensures
        bounds is Some <==> index < batch_count(line_count as nat, batch_size as nat),
        bounds matches Some((start, end)) ==> start == batch_start(
            batch_size as nat,
            index as nat,
        ) && end == batch_end(line_count as nat, batch_size as nat, index as nat) && start < end
            <= line_count,
        bounds is Some ==> index < line_count,
{
    let count = count_of(line_count, batch_size);
    if index >= count {
        return None;
    }
    proof {
        let size = batch_size as int;
        lemma_batch_count_is_ceiling(line_count as nat, batch_size as nat);
        lemma_times_monotonic(index as int, count - 1, size);
        lemma_times_successor(index as int, size);
        lemma_times_successor(count as int, size);
    }
    let start = index * batch_size;
    let end = if line_count - start > batch_size {
        start + batch_size
    } else {
        line_count
    };
    Some((start, end))
}

/// The number of batches that `line_count` lines are cut into.
///
/// A batch size of zero is refused.
pub fn count_batches(line_count: usize, batch_size: usize) -> (count: Result<usize, XcoprError>)
    ensures
        batch_size == 0 <==> count is Err,
        count matches Err(e) ==> e@ == Failure::InvalidBatchSize,
        count matches Ok(n) ==> n == batch_count(line_count as nat, batch_size as nat),
{
    if batch_size == 0 {
        Err(XcoprError::InvalidBatchSize)
    } else {
        Ok(count_of(line_count, batch_size))
    }
}

/// The bounds of batch `index`: the index of its first line and the index
/// after its last. `None` when the input has no batch of that index.
///
/// A batch size of zero is refused.
pub fn batch_bounds(line_count: usize, batch_size: usize, index: usize) -> (bounds: Result<
    Option<(usize, usize)>,
    XcoprError,
>)
    ensures
        batch_size == 0 <==> bounds is Err,
        bounds matches Err(e) ==> e@ == Failure::InvalidBatchSize,
        bounds matches Ok(found) ==> (found is Some <==> index < batch_count(
            line_count as nat,
            batch_size as nat,
        )),
        bounds matches Ok(Some((start, end))) ==> start == batch_start(
            batch_size as nat,
            index as nat,
        ) && end == batch_end(line_count as nat, batch_size as nat, index as nat),
{
    if batch_size == 0 {
        Err(XcoprError::InvalidBatchSize)
    } else {
        Ok(bounds_at(line_count, batch_size, index))
    }
}

} // verus!
