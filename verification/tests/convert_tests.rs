use file_utility::command::{CsvToJsonArgs, JsonToCsvArgs, ReadTableCsvArgs};
use file_utility::convert::{
    csv_to_json, extension_is, is_csv, is_json_file, json_output_path, json_to_csv,
    read_csv_table, ConvertError, CsvFile, JsonFile, JsonInput, JsonItem,
};
use file_utility::fileops::PathStatus;

const FILE: PathStatus = PathStatus { exists: true, is_file: true, is_dir: false };
const DIRECTORY: PathStatus = PathStatus { exists: true, is_file: false, is_dir: true };
const MISSING: PathStatus = PathStatus { exists: false, is_file: false, is_dir: false };

fn csv_args(path: &str) -> CsvToJsonArgs {
    CsvToJsonArgs { csv_path: path.to_string(), output_json_path: "out".to_string() }
}

fn json_args(path: &str) -> JsonToCsvArgs {
    JsonToCsvArgs { json_path: path.to_string(), output_csv_path: "out.csv".to_string() }
}

#[test]
fn extension_follows_the_last_dot_of_the_name() {
    assert!(is_csv("data.csv"));
    assert!(is_csv("dir.d/data.tar.csv"));
    assert!(!is_csv("data.CSV"));
    assert!(!is_csv("data.csv.bak"));
    assert!(!is_csv(".csv"));
    assert!(!is_csv("dir.csv/data"));
    assert!(!is_csv("csv"));
    assert!(!is_csv("data.csvx"));
    assert!(!is_csv("data.cs"));
    assert!(!is_csv(""));
    assert!(is_json_file("a/b.json"));
    assert!(!is_json_file("a/b.csv"));
    assert!(extension_is("a.", ""));
    assert!(!extension_is("a", ""));
    assert!(extension_is("x/.hidden.txt", "txt"));
}

#[test]
fn csv_source_is_checked() {
    let file = csv_to_json(&csv_args("in/data.csv"), FILE).unwrap();
    assert_eq!(file.file_path, "in/data.csv");
    assert!(file.has_headers);
    assert_eq!(file.skip, 0);
    assert_eq!(file.limit, 0);
    assert!(matches!(
        csv_to_json(&csv_args("in/data.csv"), MISSING),
        Err(ConvertError::NotFound { path }) if path == "in/data.csv"
    ));
    assert!(matches!(
        csv_to_json(&csv_args("in/data.csv"), DIRECTORY),
        Err(ConvertError::NotCsv { path }) if path == "in/data.csv"
    ));
    assert!(matches!(csv_to_json(&csv_args("in/data.txt"), FILE), Err(ConvertError::NotCsv { .. })));
    // A missing path is reported as missing, whatever its name.
    assert!(matches!(csv_to_json(&csv_args("in/data.txt"), MISSING), Err(ConvertError::NotFound { .. })));
}

#[test]
fn json_source_is_checked() {
    let file = json_to_csv(&json_args("in/data.json"), FILE).unwrap();
    assert_eq!(file.file_path, "in/data.json");
    assert!(matches!(
        json_to_csv(&json_args("in/data.json"), MISSING),
        Err(ConvertError::NotFound { path }) if path == "in/data.json"
    ));
    assert!(matches!(
        json_to_csv(&json_args("in/data.json"), DIRECTORY),
        Err(ConvertError::NotJson { path }) if path == "in/data.json"
    ));
    assert!(matches!(json_to_csv(&json_args("in/data.csv"), FILE), Err(ConvertError::NotJson { .. })));
}

fn strings(items: &[&str]) -> Vec<String> {
    items.iter().map(|s| s.to_string()).collect()
}

fn pairs(items: &[(&str, &str)]) -> Vec<(String, String)> {
    items.iter().map(|(k, v)| (k.to_string(), v.to_string())).collect()
}

fn csv_file(has_headers: bool, skip: usize, limit: usize) -> CsvFile {
    CsvFile { file_path: "data.csv".to_string(), has_headers, skip, limit }
}

#[test]
fn table_request_follows_the_flags() {
    let args = ReadTableCsvArgs {
        path: "t.csv".to_string(),
        start: false,
        row_num: 7,
        limit: false,
        limit_row: 3,
    };
    let file = read_csv_table(&args);
    assert_eq!(file.file_path, "t.csv");
    assert!(file.has_headers);
    assert_eq!((file.skip, file.limit), (0, 1000));
    let file = read_csv_table(&ReadTableCsvArgs { start: true, ..args.clone() });
    assert_eq!((file.skip, file.limit), (7, 1000));
    let file = read_csv_table(&ReadTableCsvArgs { limit: true, ..args.clone() });
    assert_eq!((file.skip, file.limit), (0, 3));
    let file = read_csv_table(&ReadTableCsvArgs { start: true, limit: true, ..args });
    assert_eq!((file.skip, file.limit), (7, 3));
}

#[test]
fn shown_records_skip_then_take() {
    assert_eq!(csv_file(true, 0, 1000).shown_records(10), (0, 10));
    assert_eq!(csv_file(true, 2, 3).shown_records(10), (2, 5));
    assert_eq!(csv_file(true, 8, 3).shown_records(10), (8, 10));
    assert_eq!(csv_file(true, 10, 3).shown_records(10), (10, 10));
    assert_eq!(csv_file(true, 12, 3).shown_records(10), (10, 10));
    assert_eq!(csv_file(true, 2, 0).shown_records(10), (2, 2));
    assert_eq!(csv_file(true, usize::MAX, usize::MAX).shown_records(10), (10, 10));
    assert_eq!(csv_file(true, 1, usize::MAX).shown_records(10), (1, 10));
    for (skip, limit, total) in [(0usize, 0usize, 0usize), (1, 2, 3), (3, 9, 5), (7, 1, 7)] {
        let expected: Vec<usize> = (0..total).skip(skip).take(limit).collect();
        let (from, to) = csv_file(true, skip, limit).shown_records(total);
        assert_eq!((from..to).collect::<Vec<usize>>(), expected);
    }
}

#[test]
fn json_output_gets_its_extension() {
    assert_eq!(json_output_path("out"), "out.json");
    assert_eq!(json_output_path("out.json"), "out.json");
    assert_eq!(json_output_path("dir/out.JSON"), "dir/out.JSON.json");
    assert_eq!(json_output_path(".json"), ".json");
    assert_eq!(json_output_path("json"), "json.json");
    assert_eq!(json_output_path(""), ".json");
}

#[test]
fn records_become_objects_under_their_headers() {
    let headers = strings(&["name", "age"]);
    let records = vec![strings(&["Ada", "36"]), strings(&["Alan", "41"]), strings(&["Short"])];
    let document = csv_file(true, 0, 0).parse_to_json(&headers, &records, "people").unwrap().unwrap();
    assert_eq!(document.path, "people.json");
    assert_eq!(
        document.text,
        "[\n  {\n    \"age\": \"36\",\n    \"name\": \"Ada\"\n  },\n  {\n    \"age\": \"41\",\n    \"name\": \"Alan\"\n  },\n  {\n    \"name\": \"Short\"\n  }\n]"
    );
    assert_eq!(
        document.objects,
        vec![
            pairs(&[("name", "Ada"), ("age", "36")]),
            pairs(&[("name", "Alan"), ("age", "41")]),
            pairs(&[("name", "Short")]),
        ]
    );
    let empty = csv_file(true, 0, 0).parse_to_json(&headers, &vec![], "e.json").unwrap().unwrap();
    assert_eq!(empty.path, "e.json");
    assert!(empty.objects.is_empty());
    assert_eq!(empty.text, "[]");
}

#[test]
fn csv_without_headers_converts_to_nothing() {
    let r = csv_file(false, 0, 0).parse_to_json(&strings(&["a"]), &vec![strings(&["1"])], "out");
    assert!(matches!(r, Ok(None)));
}

#[test]
fn record_longer_than_headers_is_refused() {
    let headers = strings(&["a", "b"]);
    let records = vec![strings(&["1", "2"]), strings(&["1", "2", "3"]), strings(&["1", "2", "3", "4"])];
    assert!(matches!(
        csv_file(true, 0, 0).parse_to_json(&headers, &records, "out"),
        Err(ConvertError::RecordTooLong { record: 1 })
    ));
}

#[test]
fn json_array_becomes_rows() {
    let file = JsonFile { file_path: "in.json".to_string() };
    let document = JsonInput::Array(vec![
        JsonItem::Object(pairs(&[("age", "36"), ("name", "\"Ada\"")])),
        JsonItem::Other,
        JsonItem::Object(pairs(&[("age", "41"), ("name", "\"Alan\"")])),
    ]);
    assert_eq!(
        file.parse_to_csv(&document).unwrap(),
        vec![strings(&["age", "name"]), strings(&["36", "\"Ada\""]), strings(&["41", "\"Alan\""])]
    );
    assert_eq!(file.parse_to_csv(&JsonInput::Array(vec![])).unwrap(), Vec::<Vec<String>>::new());
}

#[test]
fn header_row_comes_only_from_a_first_object() {
    let file = JsonFile { file_path: "in.json".to_string() };
    let document = JsonInput::Array(vec![JsonItem::Other, JsonItem::Object(pairs(&[("k", "1")]))]);
    assert_eq!(file.parse_to_csv(&document).unwrap(), vec![strings(&["1"])]);
}

#[test]
fn json_that_is_no_array_is_refused() {
    let file = JsonFile { file_path: "in.json".to_string() };
    assert!(matches!(file.parse_to_csv(&JsonInput::Other), Err(ConvertError::NotAnArray)));
}
