//! The output correlator: which line of a command's output belongs to which
//! line of the input.
//!
//! Line `k` of the output of a batch belongs to line `k` of the batch. Output
//! beyond the batch's number of lines is dropped. Lines of the batch beyond
//! the output's number of lines get no record.

use vstd::prelude::*;

verus! {

/// One line of output, with the line of the input that it belongs to.
#[derive(Debug, PartialEq, Eq)]
pub struct Record {
    /// The index of the input line, counted from 0 over the whole input.
    pub line: usize,
    /// The line of output.
    pub text: String,
}

/// A [`Record`] as a mathematical value.
#[verifier::ext_equal]
pub struct RecordView {
    pub line: nat,
    pub text: Seq<char>,
}

impl View for Record {
    type V = RecordView;

    open spec fn view(&self) -> RecordView {
        RecordView { line: self.line as nat, text: self.text@ }
    }
}

impl DeepView for Record {
    type V = RecordView;

    open spec fn deep_view(&self) -> RecordView {
        self@
    }
}

/// The number of records that a batch of `batch_len` lines gets from
/// `output_len` lines of output.
pub open spec fn paired_count(batch_len: nat, output_len: nat) -> nat {
    if output_len < batch_len {
        output_len
    } else {
        batch_len
    }
}

/// The records of a batch that starts at input line `first_line` and has
/// `batch_len` lines, for the lines of output `output`.
pub open spec fn paired(first_line: nat, batch_len: nat, output: Seq<Seq<char>>) -> Seq<
    RecordView,
> {
    Seq::new(
        paired_count(batch_len, output.len()),
        |k: int| RecordView { line: (first_line + k) as nat, text: output[k] },
    )
}

/// Pairs the lines of a command's output with the lines of its batch, by
/// position. The batch starts at input line `first_line` and has `batch_len`
/// lines.
pub fn correlate(first_line: usize, batch_len: usize, output: Vec<String>) -> (records: Vec<
    Record,
>)
    requires
        first_line + batch_len <= usize::MAX,
    ensures
        records.deep_view() == paired(first_line as nat, batch_len as nat, output.deep_view()),
{
    let ghost texts = output.deep_view();
    let mut records: Vec<Record> = Vec::new();
    let mut k: usize = 0;
    for text in it: output
        invariant
            it.seq().map_values(|t: String| t@) == texts,
            k == if it.index() < batch_len {
                it.index()
            } else {
                batch_len as int
            },
            first_line + batch_len <= usize::MAX,
            records.deep_view() == paired(first_line as nat, k as nat, texts),
            k <= texts.len(),
    {
        if k < batch_len {
            let record = Record { line: first_line + k, text };
            proof {
                assert(record@.text == texts[k as int]);
                assert(records.deep_view().push(record@) == paired(
                    first_line as nat,
                    (k + 1) as nat,
                    texts,
                ));
            }
            records.push(record);
            k = k + 1;
        }
    }
    assert(paired(first_line as nat, k as nat, texts) == paired(
        first_line as nat,
        batch_len as nat,
        texts,
    ));
    records
}

} // verus!
