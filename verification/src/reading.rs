//! What reading a file shows: a text file as it is, a JSON file once it is
//! known to be JSON, a CSV file as a table.

use vstd::prelude::*;
use crate::convert::{json_error_text, strings_view, ConvertError, CsvFile, JsonFile, TxtFile};
use crate::text::{pad_right, padded, push_char};

verus! {

/// Whether the JSON library reads the text as a JSON document.
pub uninterp spec fn json_is_valid(text: Seq<char>) -> bool;

/// Checks that a text is JSON. Wraps `serde_json::from_str` into a
/// `serde_json::Value`: it fails exactly where the text is no JSON
/// document.
#[verifier::external_body]
fn check_json(text: &str) -> (r: Result<(), serde_json::Error>)
    ensures
        r is Ok <==> json_is_valid(text@),
{
    serde_json::from_str::<serde_json::Value>(text).map(|_| ())
}

/// The cells of a row, each padded with spaces to 15 characters.
pub open spec fn cells_text(cells: Seq<Seq<char>>) -> Seq<char>
    decreases cells.len(),
{
    if cells.len() == 0 {
        Seq::empty()
    } else {
        cells_text(cells.drop_last()) + padded(cells.last(), 15, ' ')
    }
}

/// The rows of a table, each on a line of its own.
pub open spec fn rows_text(rows: Seq<Seq<Seq<char>>>) -> Seq<char>
    decreases rows.len(),
{
    if rows.len() == 0 {
        Seq::empty()
    } else {
        rows_text(rows.drop_last()) + cells_text(rows.last()) + seq!['\n']
    }
}

/// The heading of a table: the headers as a row, and under them a rule of
/// 15 dashes for each header.
pub open spec fn heading_text(headers: Seq<Seq<char>>) -> Seq<char> {
    cells_text(headers) + seq!['\n'] + Seq::new(15 * headers.len(), |i: int| '-') + seq!['\n']
}

/// The records of a file as they were read: the fields of each record, or
/// `None` for a record that could not be read.
pub open spec fn records_view(records: Seq<Option<Vec<String>>>) -> Seq<Option<Seq<Seq<char>>>> {
    records.map_values(
        |r: Option<Vec<String>>|
            match r {
                Some(fields) => Some(strings_view(fields@)),
                None => None,
            },
    )
}

/// Where the records to show start: after `skip` records, or at the end
/// where there are no more.
pub open spec fn first_shown(file: CsvFile, total: int) -> int {
    if file.skip <= total {
        file.skip as int
    } else {
        total
    }
}

/// Where the records to show end: `limit` records after the first one
/// shown, or at the end where there are no more.
pub open spec fn end_shown(file: CsvFile, total: int) -> int {
    if file.skip + file.limit <= total {
        file.skip + file.limit
    } else {
        total
    }
}

/// The first record from `from` up to `to` that could not be read, or `to`
/// where all could.
pub open spec fn first_unreadable(records: Seq<Option<Seq<Seq<char>>>>, from: int, to: int) -> int
    decreases to - from,
{
    if from >= to {
        to
    } else if records[from] is None {
        from
    } else {
        first_unreadable(records, from + 1, to)
    }
}

/// Where showing stops: at the first record among those to show that
/// could not be read, or after the last one.
pub open spec fn stop_shown(file: CsvFile, records: Seq<Option<Seq<Seq<char>>>>) -> int {
    first_unreadable(
        records,
        first_shown(file, records.len() as int),
        end_shown(file, records.len() as int),
    )
}

/// The fields of the records in a range.
pub open spec fn fields_in(records: Seq<Option<Seq<Seq<char>>>>, from: int, to: int) -> Seq<
    Seq<Seq<char>>,
> {
    Seq::new((to - from) as nat, |i: int| records[from + i]->0)
}

/// What reading a CSV file shows: a title, the heading where there are
/// headers, and the records to show, row by row, up to the first one that
/// could not be read.
pub open spec fn table_text(
    file: CsvFile,
    headers: Option<Seq<Seq<char>>>,
    records: Seq<Option<Seq<Seq<char>>>>,
) -> Seq<char> {
    "CSV File Contents:\n"@ + match headers {
        Some(h) => heading_text(h),
        None => Seq::empty(),
    } + rows_text(
        fields_in(records, first_shown(file, records.len() as int), stop_shown(file, records)),
    )
}

/// A CSV file as shown, and the number, counted from 0, of the record at
/// which showing stopped because it could not be read.
#[derive(Debug)]
pub struct TableShown {
    pub text: String,
    pub failed_record: Option<usize>,
}

fn push_cells(out: &mut String, cells: &Vec<String>)
    ensures
        final(out)@ == old(out)@ + cells_text(strings_view(cells@)),
{
    let ghost all = strings_view(cells@);
    let mut i: usize = 0;
    proof {
        assert(old(out)@ + cells_text(all.take(0)) == old(out)@);
    }
    while i < cells.len()
        invariant
            i <= cells.len(),
            all == strings_view(cells@),
            out@ == old(out)@ + cells_text(all.take(i as int)),
        decreases cells.len() - i,
    {
        proof {
            assert(all.take(i + 1).drop_last() == all.take(i as int));
            assert(all.take(i + 1).last() == cells[i as int]@);
        }
        out.append(pad_right(cells[i].as_str(), 15, ' ').as_str());
        i = i + 1;
    }
    proof {
        assert(all.take(cells.len() as int) == all);
    }
}

fn push_rule(out: &mut String, columns: usize)
    ensures
        final(out)@ == old(out)@ + Seq::new(15 * columns as nat, |i: int| '-'),
{
    let mut column: usize = 0;
    proof {
        assert(old(out)@ + Seq::new(0, |i: int| '-') == old(out)@);
    }
    while column < columns
        invariant
            column <= columns,
            out@ == old(out)@ + Seq::new(15 * column as nat, |i: int| '-'),
        decreases columns - column,
    {
        let ghost before = out@;
        let mut k: usize = 0;
        proof {
            assert(before + Seq::new(0, |i: int| '-') == before);
        }
        while k < 15
            invariant
                k <= 15,
                out@ == before + Seq::new(k as nat, |i: int| '-'),
            decreases 15 - k,
        {
            push_char(out, '-');
            k = k + 1;
        }
        column = column + 1;
    }
}

impl TxtFile {
    /// What reading the file shows: a heading, then the contents.
    pub fn read_file(&self, contents: &str) -> (shown: String)
        ensures
            shown@ == "File read successfully!\nContents of the file:\n\n"@ + contents@ + seq![
                '\n',
            ],
    {
        let mut shown = String::new();
        shown.append("File read successfully!\nContents of the file:\n\n");
        shown.append(contents);
        push_char(&mut shown, '\n');
        shown
    }
}

impl JsonFile {
    /// What reading the file shows: a heading, then the contents as they
    /// are. Contents that are no JSON are refused.
    pub fn read_file(&self, contents: &str) -> (r: Result<String, ConvertError>)
        ensures
            r is Ok <==> json_is_valid(contents@),
            r matches Ok(shown) ==> shown@ == "JSON File read and validated successfully!\n"@
                + contents@ + seq!['\n'],
            r matches Err(e) ==> e is InvalidJson,
    {
        match check_json(contents) {
            Ok(_) => {
                let mut shown = String::new();
                shown.append("JSON File read and validated successfully!\n");
                shown.append(contents);
                push_char(&mut shown, '\n');
                Ok(shown)
            },
            Err(error) => Err(ConvertError::InvalidJson { detail: json_error_text(&error) }),
        }
    }
}

impl CsvFile {
    /// What reading the file shows: its headers, where it has any, and
    /// the records after `skip`, at most `limit` of them, as a table with
    /// columns of 15 characters. A record among those that could not be
    /// read ends the table, and is named.
    pub fn read_file(
        &self,
        headers: Option<&Vec<String>>,
        records: &Vec<Option<Vec<String>>>,
    ) -> (shown: TableShown)
        ensures
            shown.text@ == table_text(
                *self,
                match headers {
                    Some(h) => Some(strings_view(h@)),
                    None => None,
                },
                records_view(records@),
            ),
            shown.failed_record is Some <==> stop_shown(*self, records_view(records@)) < end_shown(
                *self,
                records.len() as int,
            ),
            shown.failed_record matches Some(k) ==> k == stop_shown(*self, records_view(records@)),
    {
        let mut text = String::new();
        text.append("CSV File Contents:\n");
        match headers {
            Some(h) => {
                push_cells(&mut text, h);
                push_char(&mut text, '\n');
                push_rule(&mut text, h.len());
                push_char(&mut text, '\n');
            },
            None => {
                proof {
                    assert(text@ + Seq::<char>::empty() == text@);
                }
            },
        }
        let ghost heading = text@;
        let ghost all = records_view(records@);
        let (from, to) = self.shown_records(records.len());
        proof {
            assert(from == first_shown(*self, records.len() as int));
            assert(to == end_shown(*self, records.len() as int));
            assert(fields_in(all, from as int, from as int) == Seq::<Seq<Seq<char>>>::empty());
            assert(heading + rows_text(Seq::<Seq<Seq<char>>>::empty()) == heading);
        }
        let mut k: usize = from;
        while k < to
            invariant
                from <= k <= to <= records.len(),
                all == records_view(records@),
                from == first_shown(*self, records.len() as int),
                to == end_shown(*self, records.len() as int),
                heading == "CSV File Contents:\n"@ + match headers {
                    Some(h) => heading_text(strings_view(h@)),
                    None => Seq::empty(),
                },
                first_unreadable(all, from as int, to as int) == first_unreadable(
                    all,
                    k as int,
                    to as int,
                ),
                text@ == heading + rows_text(fields_in(all, from as int, k as int)),
            decreases to - k,
        {
            proof {
                assert(all[k as int] is None <==> records[k as int] is None);
            }
            match &records[k] {
                Some(fields) => {
                    proof {
                        let next = fields_in(all, from as int, k + 1);
                        assert(next.drop_last() == fields_in(all, from as int, k as int));
                        assert(next.last() == strings_view(fields@));
                    }
                    push_cells(&mut text, fields);
                    push_char(&mut text, '\n');
                },
                None => {
                    return TableShown { text, failed_record: Some(k) };
                },
            }
            k = k + 1;
        }
        TableShown { text, failed_record: None }
    }
}

} // verus!
