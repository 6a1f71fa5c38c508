//! The directory listing: how one entry is shown as a row of a table.

use vstd::prelude::*;
use crate::text::{pad_right, padded, push_char};
use crate::tree::{decimal, push_decimal};

verus! {

/// The mode column: directories are marked `d`, everything else `a`.
pub open spec fn mode_text(is_dir: bool) -> Seq<char> {
    if is_dir {
        seq!['d', '-', '-', '-', '-', '-']
    } else {
        seq!['-', 'a', '-', '-', '-', '-']
    }
}

/// The length column: the size of a regular file, and nothing for
/// anything else.
pub open spec fn length_text(is_file: bool, len: u64) -> Seq<char> {
    if is_file {
        decimal(len as nat)
    } else {
        Seq::empty()
    }
}

/// A row of the table: mode, time and length in columns of 10, 20 and 8
/// characters, each followed by a space, then the name.
pub open spec fn row_text(
    mode: Seq<char>,
    modified: Seq<char>,
    length: Seq<char>,
    name: Seq<char>,
    fill: char,
) -> Seq<char> {
    padded(mode, 10, fill) + seq![' '] + padded(modified, 20, fill) + seq![' '] + padded(
        length,
        8,
        fill,
    ) + seq![' '] + name
}

fn table_row(mode: &str, modified: &str, length: &str, name: &str, fill: char) -> (r: String)
    ensures
        r@ == row_text(mode@, modified@, length@, name@, fill),
{
    let mut out = pad_right(mode, 10, fill);
    push_char(&mut out, ' ');
    out.append(pad_right(modified, 20, fill).as_str());
    push_char(&mut out, ' ');
    out.append(pad_right(length, 8, fill).as_str());
    push_char(&mut out, ' ');
    out.append(name);
    out
}

/// The heading of the table.
pub fn listing_header() -> (r: String)
    ensures
        r@ == row_text("Mode"@, "LastWriteTime"@, "Length"@, "Name"@, ' '),
{
    table_row("Mode", "LastWriteTime", "Length", "Name", ' ')
}

/// The rule under the heading: each column filled with dashes, and one
/// dash for the name.
pub fn listing_rule() -> (r: String)
    ensures
        r@ == row_text(Seq::empty(), Seq::empty(), Seq::empty(), seq!['-'], '-'),
{
    proof {
        reveal_strlit("");
        reveal_strlit("-");
        assert(""@ =~= Seq::<char>::empty());
        assert("-"@ =~= seq!['-']);
    }
    table_row("", "", "", "-", '-')
}

/// The row of one entry of the listing. `modified` is the time of the
/// last change as it is to be shown.
pub fn print_entry(is_dir: bool, is_file: bool, len: u64, modified: &str, name: &str) -> (r: String)
    ensures
        r@ == row_text(mode_text(is_dir), modified@, length_text(is_file, len), name@, ' '),
{
    let mut mode = String::new();
    if is_dir {
        push_char(&mut mode, 'd');
        push_char(&mut mode, '-');
    } else {
        push_char(&mut mode, '-');
        push_char(&mut mode, 'a');
    }
    push_char(&mut mode, '-');
    push_char(&mut mode, '-');
    push_char(&mut mode, '-');
    push_char(&mut mode, '-');
    let mut length = String::new();
    if is_file {
        push_decimal(&mut length, len as u128);
    }
    proof {
        assert(mode@ =~= mode_text(is_dir));
        assert(length@ =~= length_text(is_file, len));
    }
    table_row(mode.as_str(), modified, length.as_str(), name, ' ')
}

} // verus!
