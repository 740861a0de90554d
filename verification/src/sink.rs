//! The two result streams: their columns, and when a stream gets its header.

use vstd::prelude::*;
use crate::probe::row_view;

verus! {

/// One of the two streams that a run appends to.
#[derive(Clone, Copy, Debug, PartialEq, Eq, Structural)]
pub enum Stream {
    Endpoints,
    Models,
}

/// The column names of a stream.
pub open spec fn header_fields(stream: Stream) -> Seq<Seq<char>> {
    match stream {
        Stream::Endpoints => seq!["IP:Port"@, "Tags URL"@, "Status Code"@, "Location"@],
        Stream::Models => seq![
            "IP:Port"@,
            "Model Name"@,
            "Model"@,
            "Modified At"@,
            "Size(GB,2dp)"@,
            "Digest"@,
            "Parent Model"@,
            "Format"@,
            "Family"@,
            "Parameter Size"@,
            "Quantization Level"@,
        ],
    }
}

/// The rows that one run adds to a destination: the header, if the
/// destination was empty when the run opened it, and then the records.
pub open spec fn run_rows(stream: Stream, empty_at_open: bool, records: Seq<Seq<Seq<char>>>) -> Seq<
    Seq<Seq<char>>,
> {
    if empty_at_open {
        seq![header_fields(stream)] + records
    } else {
        records
    }
}

/// A destination after one run.
pub open spec fn destination_after(
    stream: Stream,
    before: Seq<Seq<Seq<char>>>,
    records: Seq<Seq<Seq<char>>>,
) -> Seq<Seq<Seq<char>>> {
    before + run_rows(stream, before.len() == 0, records)
}

/// The column names of a stream as a row.
pub fn header_row(stream: Stream) -> (row: Vec<String>)
    ensures
        row_view(row) == header_fields(stream),
{
    let mut row: Vec<String> = Vec::new();
    match stream {
        Stream::Endpoints => {
            row.push("IP:Port".to_owned());
            row.push("Tags URL".to_owned());
            row.push("Status Code".to_owned());
            row.push("Location".to_owned());
        },
        Stream::Models => {
            row.push("IP:Port".to_owned());
            row.push("Model Name".to_owned());
            row.push("Model".to_owned());
            row.push("Modified At".to_owned());
            row.push("Size(GB,2dp)".to_owned());
            row.push("Digest".to_owned());
            row.push("Parent Model".to_owned());
            row.push("Format".to_owned());
            row.push("Family".to_owned());
            row.push("Parameter Size".to_owned());
            row.push("Quantization Level".to_owned());
        },
    }
    assert(row_view(row) =~= header_fields(stream));
    row
}

/// The row that opens a destination of `existing_len` bytes: the header for
/// an empty one, nothing for one that holds anything.
pub fn opening_row(stream: Stream, existing_len: u64) -> (r: Option<Vec<String>>)
    ensures
        r is Some <==> existing_len == 0,
        r matches Some(row) ==> row_view(row) == header_fields(stream),
{
    if existing_len == 0 {
        Some(header_row(stream))
    } else {
        None
    }
}

/// A run on a destination that holds anything adds its records and nothing
/// else. So of two runs on a destination that was empty at first, the first
/// writes the header and the second does not: the destination then holds the
/// header once, before the records of both.
pub proof fn lemma_header_once(
    stream: Stream,
    before: Seq<Seq<Seq<char>>>,
    first: Seq<Seq<Seq<char>>>,
    second: Seq<Seq<Seq<char>>>,
)
    ensures
        before.len() > 0 ==> destination_after(stream, before, first) == before + first,
        destination_after(stream, before, first).len() > 0 ==> destination_after(
            stream,
            destination_after(stream, before, first),
            second,
        ) == destination_after(stream, before, first) + second,
        destination_after(stream, destination_after(stream, Seq::empty(), first), second) == seq![
            header_fields(stream),
        ] + first + second,
{
    let once = destination_after(stream, Seq::empty(), first);
    assert(once == seq![header_fields(stream)] + first);
    assert(once.len() > 0);
}

} // verus!
