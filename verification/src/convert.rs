//! Conversion between CSV and JSON: which files qualify, where the output
//! goes, and how rows and objects correspond.

use vstd::prelude::*;
use crate::command::{CsvToJsonArgs, JsonToCsvArgs, ReadTableCsvArgs};
use crate::fileops::PathStatus;
use crate::filter::entry_name;
use crate::text::{
    chars_from,
    chars_of,
    copy_str,
    last_index_of,
    lemma_last_index_of,
    push_char,
    rfind_char,
};

verus! {

/// Why a conversion was refused.
#[derive(Debug)]
pub enum ConvertError {
    /// The source path does not exist.
    NotFound { path: String },
    /// The source is not a regular file with the extension `csv`.
    NotCsv { path: String },
    /// The source is not a regular file with the extension `json`.
    NotJson { path: String },
    /// The JSON document is not an array.
    NotAnArray,
    /// A CSV record holds more fields than there are headers.
    RecordTooLong { record: usize },
    /// The text is not JSON.
    InvalidJson { detail: String },
    /// The objects could not be written as JSON.
    NotWritable { detail: String },
}

/// A text file to read.
#[derive(Clone, Debug)]
pub struct TxtFile {
    pub file_path: String,
}

/// A CSV file to read: `skip` records are passed over, then at most
/// `limit` are shown.
#[derive(Clone, Debug)]
pub struct CsvFile {
    pub file_path: String,
    pub has_headers: bool,
    pub skip: usize,
    pub limit: usize,
}

/// A JSON file to read.
#[derive(Clone, Debug)]
pub struct JsonFile {
    pub file_path: String,
}

/// The extension of a path: what follows the last dot of its name, where
/// that dot is not the name's first character.
pub open spec fn extension(path: Seq<char>) -> Option<Seq<char>> {
    let name = entry_name(path);
    let dot = last_index_of(name, '.');
    if dot <= 0 {
        None
    } else {
        Some(name.skip(dot + 1))
    }
}

/// `text` ends with `suffix`.
pub open spec fn ends_with(text: Seq<char>, suffix: Seq<char>) -> bool {
    suffix.len() <= text.len() && text.skip(text.len() - suffix.len()) == suffix
}

fn tail_equals(chars: &Vec<char>, from: usize, wanted: &Vec<char>) -> (r: bool)
    requires
        from <= chars.len(),
    ensures
        r == (chars@.skip(from as int) == wanted@),
{
    if chars.len() - from != wanted.len() {
        return false;
    }
    let mut i: usize = 0;
    while i < wanted.len()
        invariant
            i <= wanted.len(),
            chars.len() - from == wanted.len(),
            forall|j: int| 0 <= j < i ==> chars[from + j] == wanted[j],
        decreases wanted.len() - i,
    {
        if chars[from + i] != wanted[i] {
            proof {
                assert(chars@.skip(from as int)[i as int] == chars[from + i]);
            }
            return false;
        }
        i = i + 1;
    }
    proof {
        assert(chars@.skip(from as int) =~= wanted@);
    }
    true
}

/// Whether the path has exactly the wanted extension.
pub fn extension_is(path: &str, wanted: &str) -> (r: bool)
    ensures
        r == (extension(path@) == Some(wanted@)),
{
    let chars = chars_of(path);
    let target = chars_of(wanted);
    proof {
        lemma_last_index_of(chars@, '/');
    }
    let first = match rfind_char(&chars, '/') {
        Some(k) => {
            assert(k < chars.len());
            k + 1
        },
        None => 0,
    };
    let name = chars_from(&chars, first);
    proof {
        assert(name@ == entry_name(path@));
        lemma_last_index_of(name@, '.');
    }
    match rfind_char(&name, '.') {
        Some(dot) => {
            if dot == 0 {
                false
            } else {
                assert(dot < name.len());
                tail_equals(&name, dot + 1, &target)
            }
        },
        None => false,
    }
}

/// Whether the path names a CSV file, by its extension.
pub fn is_csv(path: &str) -> (r: bool)
    ensures
        r == (extension(path@) == Some(seq!['c', 's', 'v'])),
{
    proof {
        reveal_strlit("csv");
        assert("csv"@ =~= seq!['c', 's', 'v']);
    }
    extension_is(path, "csv")
}

/// Whether the path names a JSON file, by its extension.
pub fn is_json_file(path: &str) -> (r: bool)
    ensures
        r == (extension(path@) == Some(seq!['j', 's', 'o', 'n'])),
{
    proof {
        reveal_strlit("json");
        assert("json"@ =~= seq!['j', 's', 'o', 'n']);
    }
    extension_is(path, "json")
}

/// Checks the source of a CSV-to-JSON conversion and names the file to
/// read. A path that does not exist is refused as not found; one that is
/// no regular file with the extension `csv` is refused as no CSV file.
pub fn csv_to_json(args: &CsvToJsonArgs, source: PathStatus) -> (r: Result<CsvFile, ConvertError>)
    ensures
        match r {
            Ok(file) => {
                &&& source.exists && source.is_file
                &&& extension(args.csv_path@) == Some(seq!['c', 's', 'v'])
                &&& file.file_path@ == args.csv_path@
                &&& file.has_headers
                &&& file.skip == 0
                &&& file.limit == 0
            },
            Err(ConvertError::NotFound { path }) => !source.exists && path@ == args.csv_path@,
            Err(ConvertError::NotCsv { path }) => {
                &&& source.exists
                &&& !source.is_file || extension(args.csv_path@) != Some(seq!['c', 's', 'v'])
                &&& path@ == args.csv_path@
            },
            Err(_) => false,
        },
{
    if !source.exists {
        return Err(ConvertError::NotFound { path: copy_str(args.csv_path.as_str()) });
    }
    if !source.is_file || !is_csv(args.csv_path.as_str()) {
        return Err(ConvertError::NotCsv { path: copy_str(args.csv_path.as_str()) });
    }
    Ok(
        CsvFile {
            file_path: copy_str(args.csv_path.as_str()),
            has_headers: true,
            skip: 0,
            limit: 0,
        },
    )
}

/// Checks the source of a JSON-to-CSV conversion and names the file to
/// read. A path that does not exist is refused as not found; one that is
/// no regular file with the extension `json` is refused as no JSON file.
pub fn json_to_csv(args: &JsonToCsvArgs, source: PathStatus) -> (r: Result<
    JsonFile,
    ConvertError,
>)
    ensures
        match r {
            Ok(file) => {
                &&& source.exists && source.is_file
                &&& extension(args.json_path@) == Some(seq!['j', 's', 'o', 'n'])
                &&& file.file_path@ == args.json_path@
            },
            Err(ConvertError::NotFound { path }) => !source.exists && path@ == args.json_path@,
            Err(ConvertError::NotJson { path }) => {
                &&& source.exists
                &&& !source.is_file || extension(args.json_path@) != Some(seq!['j', 's', 'o', 'n'])
                &&& path@ == args.json_path@
            },
            Err(_) => false,
        },
{
    if !source.exists {
        return Err(ConvertError::NotFound { path: copy_str(args.json_path.as_str()) });
    }
    if !source.is_file || !is_json_file(args.json_path.as_str()) {
        return Err(ConvertError::NotJson { path: copy_str(args.json_path.as_str()) });
    }
    Ok(JsonFile { file_path: copy_str(args.json_path.as_str()) })
}

/// The file that a table command reads: records are passed over only
/// where the command says from which one to start, and 1000 records are
/// shown unless it sets a limit of its own.
pub fn read_csv_table(args: &ReadTableCsvArgs) -> (file: CsvFile)
    ensures
        file.file_path@ == args.path@,
        file.has_headers,
        file.skip == (if args.start {
            args.row_num
        } else {
            0
        }),
        file.limit == (if args.limit {
            args.limit_row
        } else {
            1000
        }),
{
    CsvFile {
        file_path: copy_str(args.path.as_str()),
        has_headers: true,
        skip: if args.start {
            args.row_num
        } else {
            0
        },
        limit: if args.limit {
            args.limit_row
        } else {
            1000
        },
    }
}

/// The path that converted JSON is written to: the given name where it
/// ends in `.json`, otherwise the name with `.json` added.
pub open spec fn json_path(output_file_name: Seq<char>) -> Seq<char> {
    if ends_with(output_file_name, seq!['.', 'j', 's', 'o', 'n']) {
        output_file_name
    } else {
        output_file_name + seq!['.', 'j', 's', 'o', 'n']
    }
}

/// Names the file that converted JSON is written to.
pub fn json_output_path(output_file_name: &str) -> (path: String)
    ensures
        path@ == json_path(output_file_name@),
{
    let chars = chars_of(output_file_name);
    let mut suffix: Vec<char> = Vec::new();
    suffix.push('.');
    suffix.push('j');
    suffix.push('s');
    suffix.push('o');
    suffix.push('n');
    proof {
        assert(suffix@ =~= seq!['.', 'j', 's', 'o', 'n']);
    }
    let mut path = copy_str(output_file_name);
    if !(chars.len() >= 5 && tail_equals(&chars, chars.len() - 5, &suffix)) {
        push_char(&mut path, '.');
        push_char(&mut path, 'j');
        push_char(&mut path, 's');
        push_char(&mut path, 'o');
        push_char(&mut path, 'n');
        proof {
            assert(path@ =~= output_file_name@ + seq!['.', 'j', 's', 'o', 'n']);
        }
    }
    path
}

/// The texts of a list of strings.
pub open spec fn strings_view(strings: Seq<String>) -> Seq<Seq<char>> {
    strings.map_values(|s: String| s@)
}

/// The texts of a list of rows.
pub open spec fn rows_view(rows: Seq<Vec<String>>) -> Seq<Seq<Seq<char>>> {
    rows.map_values(|r: Vec<String>| strings_view(r@))
}

/// The texts of a list of key and value pairs.
pub open spec fn pairs_view(pairs: Seq<(String, String)>) -> Seq<(Seq<char>, Seq<char>)> {
    pairs.map_values(|p: (String, String)| (p.0@, p.1@))
}

/// The texts of a list of objects.
pub open spec fn objects_view(objects: Seq<Vec<(String, String)>>) -> Seq<
    Seq<(Seq<char>, Seq<char>)>,
> {
    objects.map_values(|o: Vec<(String, String)>| pairs_view(o@))
}

/// A record as an object: each field under the header of its column.
pub open spec fn paired(headers: Seq<Seq<char>>, record: Seq<Seq<char>>) -> Seq<
    (Seq<char>, Seq<char>),
> {
    Seq::new(record.len(), |i: int| (headers[i], record[i]))
}

/// The records as objects.
pub open spec fn all_paired(headers: Seq<Seq<char>>, records: Seq<Seq<Seq<char>>>) -> Seq<
    Seq<(Seq<char>, Seq<char>)>,
> {
    Seq::new(records.len(), |k: int| paired(headers, records[k]))
}

/// The index of the first record that has more fields than there are
/// headers, or the number of records where there is none.
pub open spec fn first_too_long(headers: Seq<Seq<char>>, records: Seq<Seq<Seq<char>>>) -> int
    decreases records.len(),
{
    if records.len() == 0 {
        0
    } else {
        let before = first_too_long(headers, records.drop_last());
        if before < records.len() - 1 || records.last().len() <= headers.len() {
            if before < records.len() - 1 {
                before
            } else {
                records.len() as int
            }
        } else {
            records.len() - 1
        }
    }
}

#[verifier::external_type_specification]
#[verifier::external_body]
pub struct ExJsonError(serde_json::Error);

/// The pretty-printed JSON text of an array of objects whose values are
/// all strings, or `None` where the JSON library fails to write them.
pub uninterp spec fn json_pretty(objects: Seq<Seq<(Seq<char>, Seq<char>)>>) -> Option<Seq<char>>;

/// Writes objects as pretty-printed JSON. Wraps
/// `serde_json::to_string_pretty` on an array of objects, each built from
/// its keys and string values in order: the text depends on the objects
/// alone.
#[verifier::external_body]
fn render_json(objects: &Vec<Vec<(String, String)>>) -> (r: Result<String, serde_json::Error>)
    ensures
        r is Ok <==> json_pretty(objects_view(objects@)) is Some,
        r matches Ok(text) ==> json_pretty(objects_view(objects@)) == Some(text@),
{
    let array: Vec<serde_json::Value> = objects
        .iter()
        .map(|object| object.iter().map(|(k, v)| (k.clone(), serde_json::Value::String(v.clone()))))
        .map(|pairs| serde_json::Value::Object(pairs.collect()))
        .collect();
    serde_json::to_string_pretty(&array)
}

/// The JSON library's own words for a failure. Wraps the `Display` text of
/// `serde_json::Error`; nothing is claimed of it.
#[verifier::external_body]
pub(crate) fn json_error_text(error: &serde_json::Error) -> String {
    error.to_string()
}

/// JSON to write: the path of the file, the objects, each a list of keys
/// with their values, and the objects as JSON text.
#[derive(Debug)]
pub struct JsonDocument {
    pub path: String,
    pub objects: Vec<Vec<(String, String)>>,
    pub text: String,
}

fn pair_record(headers: &Vec<String>, record: &Vec<String>) -> (object: Vec<(String, String)>)
    requires
        record.len() <= headers.len(),
    ensures
        pairs_view(object@) == paired(strings_view(headers@), strings_view(record@)),
{
    let mut object: Vec<(String, String)> = Vec::new();
    let mut i: usize = 0;
    while i < record.len()
        invariant
            i <= record.len() <= headers.len(),
            pairs_view(object@) == paired(strings_view(headers@), strings_view(record@)).take(
                i as int,
            ),
        decreases record.len() - i,
    {
        let ghost before = object@;
        object.push((copy_str(headers[i].as_str()), copy_str(record[i].as_str())));
        proof {
            let all = paired(strings_view(headers@), strings_view(record@));
            assert(pairs_view(object@) == pairs_view(before).push(
                (headers[i as int]@, record[i as int]@),
            ));
            assert(all.take(i + 1) == all.take(i as int).push(all[i as int]));
        }
        i = i + 1;
    }
    proof {
        let all = paired(strings_view(headers@), strings_view(record@));
        assert(all.take(record.len() as int) == all);
    }
    object
}

impl CsvFile {
    /// The records that a table command shows, as a range of record
    /// numbers counted from 0: `skip` records are passed over, then at
    /// most `limit` follow.
    pub fn shown_records(&self, total: usize) -> (range: (usize, usize))
        ensures
            range.0 == (if self.skip <= total {
                self.skip
            } else {
                total
            }),
            range.1 == (if self.skip + self.limit <= total {
                (self.skip + self.limit) as usize
            } else {
                total
            }),
    {
        let from = if self.skip <= total {
            self.skip
        } else {
            total
        };
        let to = if self.limit <= total - from && self.skip <= total {
            from + self.limit
        } else {
            total
        };
        (from, to)
    }

    /// Turns the records of a CSV file into JSON objects, one for each
    /// record, with each field under the header of its column, writes
    /// them as JSON text, and names the file the text goes to. A file
    /// without headers converts to nothing. A record with more fields than
    /// there are headers is refused.
    pub fn parse_to_json(
        &self,
        headers: &Vec<String>,
        records: &Vec<Vec<String>>,
        output_file_name: &str,
    ) -> (r: Result<Option<JsonDocument>, ConvertError>)
        ensures
            match r {
                Ok(None) => !self.has_headers,
                Ok(Some(document)) => {
                    let objects = all_paired(strings_view(headers@), rows_view(records@));
                    &&& self.has_headers
                    &&& first_too_long(strings_view(headers@), rows_view(records@))
                        >= records.len()
                    &&& document.path@ == json_path(output_file_name@)
                    &&& objects_view(document.objects@) == objects
                    &&& json_pretty(objects) == Some(document.text@)
                },
                Err(ConvertError::RecordTooLong { record }) => {
                    &&& self.has_headers
                    &&& record < records.len()
                    &&& record == first_too_long(strings_view(headers@), rows_view(records@))
                },
                Err(ConvertError::NotWritable { .. }) => {
                    let objects = all_paired(strings_view(headers@), rows_view(records@));
                    &&& self.has_headers
                    &&& first_too_long(strings_view(headers@), rows_view(records@))
                        >= records.len()
                    &&& json_pretty(objects) is None
                },
                Err(_) => false,
            },
    {
        if !self.has_headers {
            return Ok(None);
        }
        let ghost heads = strings_view(headers@);
        let ghost rows = rows_view(records@);
        let mut objects: Vec<Vec<(String, String)>> = Vec::new();
        let mut k: usize = 0;
        while k < records.len()
            invariant
                k <= records.len(),
                self.has_headers,
                heads == strings_view(headers@),
                rows == rows_view(records@),
                first_too_long(heads, rows.take(k as int)) == k,
                objects_view(objects@) == all_paired(heads, rows).take(k as int),
            decreases records.len() - k,
        {
            proof {
                assert(rows.take(k + 1).drop_last() == rows.take(k as int));
                assert(rows.take(k + 1).last() == strings_view(records[k as int]@));
            }
            if records[k].len() > headers.len() {
                proof {
                    lemma_first_too_long_stays(heads, rows, k + 1);
                }
                return Err(ConvertError::RecordTooLong { record: k });
            }
            let ghost before = objects@;
            objects.push(pair_record(headers, &records[k]));
            proof {
                let all = all_paired(heads, rows);
                assert(objects_view(objects@) == objects_view(before).push(
                    pairs_view(objects@.last()@),
                ));
                assert(all.take(k + 1) == all.take(k as int).push(all[k as int]));
            }
            k = k + 1;
        }
        proof {
            assert(rows.take(records.len() as int) == rows);
            assert(all_paired(heads, rows).take(records.len() as int) == all_paired(heads, rows));
        }
        match render_json(&objects) {
            Ok(text) => Ok(
                Some(JsonDocument { path: json_output_path(output_file_name), objects, text }),
            ),
            Err(error) => Err(ConvertError::NotWritable { detail: json_error_text(&error) }),
        }
    }
}

/// One item of a JSON array: an object with its keys and values, each
/// value as JSON text, or anything else.
#[derive(Debug)]
pub enum JsonItem {
    Object(Vec<(String, String)>),
    Other,
}

/// A JSON document as far as the conversion looks at it: an array with its
/// items, or anything else.
#[derive(Debug)]
pub enum JsonInput {
    Array(Vec<JsonItem>),
    Other,
}

/// The keys of an object, in order.
pub open spec fn keys_of(pairs: Seq<(Seq<char>, Seq<char>)>) -> Seq<Seq<char>> {
    Seq::new(pairs.len(), |i: int| pairs[i].0)
}

/// The values of an object, in order.
pub open spec fn values_of(pairs: Seq<(Seq<char>, Seq<char>)>) -> Seq<Seq<char>> {
    Seq::new(pairs.len(), |i: int| pairs[i].1)
}

/// The CSV rows of the items of a JSON array: each object gives a row of
/// its values; items that are no objects give nothing. Where the first
/// item is an object, its keys come first as the header row.
pub open spec fn csv_rows(items: Seq<JsonItem>) -> Seq<Seq<Seq<char>>>
    decreases items.len(),
{
    if items.len() == 0 {
        Seq::empty()
    } else {
        let before = csv_rows(items.drop_last());
        match items.last() {
            JsonItem::Object(pairs) => if items.len() == 1 {
                before.push(keys_of(pairs_view(pairs@))).push(values_of(pairs_view(pairs@)))
            } else {
                before.push(values_of(pairs_view(pairs@)))
            },
            JsonItem::Other => before,
        }
    }
}

fn object_row(pairs: &Vec<(String, String)>, values: bool) -> (row: Vec<String>)
    ensures
        strings_view(row@) == (if values {
            values_of(pairs_view(pairs@))
        } else {
            keys_of(pairs_view(pairs@))
        }),
{
    let ghost wanted = if values {
        values_of(pairs_view(pairs@))
    } else {
        keys_of(pairs_view(pairs@))
    };
    let mut row: Vec<String> = Vec::new();
    let mut i: usize = 0;
    while i < pairs.len()
        invariant
            i <= pairs.len(),
            wanted == if values {
                values_of(pairs_view(pairs@))
            } else {
                keys_of(pairs_view(pairs@))
            },
            strings_view(row@) == wanted.take(i as int),
        decreases pairs.len() - i,
    {
        let ghost before = row@;
        let cell = if values {
            copy_str(pairs[i].1.as_str())
        } else {
            copy_str(pairs[i].0.as_str())
        };
        row.push(cell);
        proof {
            assert(strings_view(row@) == strings_view(before).push(cell@));
            assert(wanted.take(i + 1) == wanted.take(i as int).push(wanted[i as int]));
        }
        i = i + 1;
    }
    proof {
        assert(wanted.take(pairs.len() as int) == wanted);
    }
    row
}

impl JsonFile {
    /// Turns a JSON document into CSV rows. Only an array converts; each
    /// object in it gives a row of its values, and the keys of the first
    /// item, where that is an object, give the header row.
    pub fn parse_to_csv(&self, document: &JsonInput) -> (r: Result<Vec<Vec<String>>, ConvertError>)
        ensures
            match *document {
                JsonInput::Array(items) => r matches Ok(rows) && rows_view(rows@) == csv_rows(
                    items@,
                ),
                JsonInput::Other => r matches Err(ConvertError::NotAnArray),
            },
    {
        let items = match document {
            JsonInput::Array(items) => items,
            JsonInput::Other => {
                return Err(ConvertError::NotAnArray);
            },
        };
        let mut rows: Vec<Vec<String>> = Vec::new();
        let mut i: usize = 0;
        while i < items.len()
            invariant
                i <= items.len(),
                rows_view(rows@) == csv_rows(items@.take(i as int)),
            decreases items.len() - i,
        {
            proof {
                assert(items@.take(i + 1).drop_last() == items@.take(i as int));
                assert(items@.take(i + 1).last() == items@[i as int]);
            }
            match &items[i] {
                JsonItem::Object(pairs) => {
                    if i == 0 {
                        let ghost before = rows@;
                        rows.push(object_row(pairs, false));
                        proof {
                            assert(rows_view(rows@) == rows_view(before).push(
                                strings_view(rows@.last()@),
                            ));
                        }
                    }
                    let ghost before = rows@;
                    rows.push(object_row(pairs, true));
                    proof {
                        assert(rows_view(rows@) == rows_view(before).push(
                            strings_view(rows@.last()@),
                        ));
                    }
                },
                JsonItem::Other => {},
            }
            i = i + 1;
        }
        proof {
            assert(items@.take(items.len() as int) == items@);
        }
        Ok(rows)
    }
}

proof fn lemma_first_too_long_stays(
    headers: Seq<Seq<char>>,
    records: Seq<Seq<Seq<char>>>,
    upto: int,
)
    requires
        0 < upto <= records.len(),
        first_too_long(headers, records.take(upto)) < upto,
    ensures
        first_too_long(headers, records) == first_too_long(headers, records.take(upto)),
    decreases records.len() - upto,
{
    if upto < records.len() {
        assert(records.take(upto + 1).drop_last() == records.take(upto));
        lemma_first_too_long_stays(headers, records, upto + 1);
    } else {
        assert(records.take(upto) == records);
    }
}

} // verus!
