//! Decoding a document: the lines of an Intel HEX text, in order.
use vstd::prelude::*;
use vstd::string::StringSliceAdditionalSpecFns;

use crate::record::{decode_line, result_view, Error, Record, RecordView};

verus! {

/// The first line of a document that failed, with its position (from zero) and error.
#[derive(Debug, Clone, Copy, PartialEq, Eq, Structural)]
pub struct LineError {
    pub index: usize,
    pub error: Error,
}

/// What line `i` of `lines` decodes to.
pub open spec fn line_result(lines: Seq<&str>, i: int) -> Result<RecordView, Error> {
    decode_line(lines[i].spec_bytes())
}

/// Decodes every line in order and stops at the first one that fails.
pub fn decode_lines(lines: &[&str]) -> (r: Result<Vec<Record>, LineError>)
    ensures
        r matches Ok(records) ==> {
            &&& records@.len() == lines@.len()
            &&& forall|i: int|
                0 <= i < lines@.len() ==> #[trigger] line_result(lines@, i) == Ok::<
                    RecordView,
                    Error,
                >(records@[i]@)
        },
        r matches Err(e) ==> {
            &&& e.index < lines@.len()
            &&& line_result(lines@, e.index as int) == Err::<RecordView, Error>(e.error)
            &&& forall|i: int| 0 <= i < e.index ==> #[trigger] line_result(lines@, i) is Ok
        },
{
    let mut records: Vec<Record> = Vec::new();
    let mut i: usize = 0;
    while i < lines.len()
        invariant
            i <= lines@.len(),
            records@.len() == i,
            forall|j: int|
                0 <= j < i ==> #[trigger] line_result(lines@, j) == Ok::<RecordView, Error>(
                    records@[j]@,
                ),
        decreases lines@.len() - i,
    {
        match Record::from_str(lines[i]) {
            Ok(rec) => {
                records.push(rec);
            },
            Err(error) => {
                proof {
                    assert forall|j: int| 0 <= j < i implies #[trigger] line_result(lines@, j) is Ok by {
                        assert(line_result(lines@, j) == Ok::<RecordView, Error>(records@[j]@));
                    }
                }
                return Err(LineError { index: i, error });
            },
        }
        i = i + 1;
    }
    Ok(records)
}

/// Decodes every line in order and keeps each line's result.
pub fn decode_each(lines: &[&str]) -> (r: Vec<Result<Record, Error>>)
    ensures
        r@.len() == lines@.len(),
        forall|i: int|
            0 <= i < lines@.len() ==> #[trigger] result_view(r@[i]) == line_result(lines@, i),
{
    let mut results: Vec<Result<Record, Error>> = Vec::new();
    let mut i: usize = 0;
    while i < lines.len()
        invariant
            i <= lines@.len(),
            results@.len() == i,
            forall|j: int|
                0 <= j < i ==> #[trigger] result_view(results@[j]) == line_result(lines@, j),
        decreases lines@.len() - i,
    {
        results.push(Record::from_str(lines[i]));
        i = i + 1;
    }
    results
}

} // verus!
