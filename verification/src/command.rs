//! The commands of the tool and their arguments, as plain values.

use vstd::prelude::*;

verus! {

/// One invocation of the tool.
#[derive(Clone, Debug)]
pub struct Cli {
    pub command: Commands,
}

/// The commands the tool offers.
#[derive(Clone, Debug)]
pub enum Commands {
    /// List files and directories with sizes.
    Tree(ListArgs),
    /// Search files for lines that match a pattern.
    Search(SearchArgs),
    /// Replace a string in files.
    Replace(ReplaceArgs),
    /// Count the lines that match a pattern.
    Count(CountArgs),
    /// Rename a file.
    Rename(RenameArgs),
    /// List the current directory.
    List,
    /// Remove a file or a directory.
    Remove(RemoveArgs),
    /// Move a file or a directory.
    Move(MoveArgs),
    /// Show a CSV file as a table.
    ReadTableCSV(ReadTableCsvArgs),
    /// Copy a file or a directory.
    Copy(CopyArgs),
    /// Unpack a `.zip` archive.
    DecompressZip(DecompressArgs),
    /// Unpack a `.gz` file.
    DecompressGz(DecompressArgs),
    /// Pack files into a `.zip` archive.
    CompressZip(CompressArgs),
    /// Pack files into a `.tar.gz` archive.
    CompressGz(CompressArgsGz),
    /// Convert CSV to JSON.
    CsvToJson(CsvToJsonArgs),
    /// Convert JSON to CSV.
    JsonToCsv(JsonToCsvArgs),
    /// Print a file.
    ReadFile(CatFileArgs),
}

#[derive(Clone, Debug)]
pub struct ListArgs {
    pub path: String,
    pub depth: Option<usize>,
    pub human_readable: bool,
    pub color: bool,
}

#[derive(Clone, Debug)]
pub struct SearchArgs {
    /// Directory and file-name wildcard in one text, split at the last `/`.
    pub path: String,
    pub pattern: String,
    pub case_insensitive: bool,
    pub hidden: bool,
    pub color: bool,
}

#[derive(Clone, Debug)]
pub struct ReplaceArgs {
    pub path: String,
    pub old_string: String,
    pub new_string: String,
    pub dry_run: bool,
    pub backup: bool,
}

#[derive(Clone, Debug)]
pub struct CountArgs {
    pub path: String,
    pub pattern: String,
    /// The pattern is a regex; otherwise it is a literal substring.
    pub regex: bool,
}

#[derive(Clone, Debug)]
pub struct RenameArgs {
    pub old_file_name: String,
    pub new_file_name: String,
}

#[derive(Clone, Debug)]
pub struct RemoveArgs {
    pub path: String,
    pub option: String,
}

#[derive(Clone, Debug)]
pub struct ReadTableCsvArgs {
    pub path: String,
    pub start: bool,
    pub row_num: usize,
    pub limit: bool,
    pub limit_row: usize,
}

#[derive(Clone, Debug)]
pub struct CopyArgs {
    pub path_buf: String,
    pub copy_des: String,
    pub recursive: bool,
}

#[derive(Clone, Debug)]
pub struct MoveArgs {
    pub old_des: String,
    pub new_des: String,
    pub recursive: bool,
}

#[derive(Clone, Debug)]
pub struct DecompressArgs {
    pub path: String,
}

#[derive(Clone, Debug)]
pub struct CompressArgs {
    pub files: Vec<String>,
    pub output_compress: String,
}

#[derive(Clone, Debug)]
pub struct CompressArgsGz {
    pub output_compress: String,
    pub files: Vec<String>,
}

#[derive(Clone, Debug)]
pub struct CsvToJsonArgs {
    pub csv_path: String,
    pub output_json_path: String,
}

#[derive(Clone, Debug)]
pub struct JsonToCsvArgs {
    pub json_path: String,
    pub output_csv_path: String,
}

#[derive(Clone, Debug)]
pub struct CatFileArgs {
    pub path: String,
}

} // verus!
