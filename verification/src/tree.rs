//! The tree listing: how an entry is labelled, and how a size is shown.

use vstd::prelude::*;
use crate::command::ListArgs;
use crate::filter::{is_shown, shown, tree_policy, FilterPolicy, WalkEntry};
use crate::text::push_char;

verus! {

/// The character of a decimal digit.
pub open spec fn digit_char(d: nat) -> char {
    if d == 0 {
        '0'
    } else if d == 1 {
        '1'
    } else if d == 2 {
        '2'
    } else if d == 3 {
        '3'
    } else if d == 4 {
        '4'
    } else if d == 5 {
        '5'
    } else if d == 6 {
        '6'
    } else if d == 7 {
        '7'
    } else if d == 8 {
        '8'
    } else {
        '9'
    }
}

/// A number in decimal, without leading zeros.
pub open spec fn decimal(n: nat) -> Seq<char>
    decreases n,
{
    if n < 10 {
        seq![digit_char(n)]
    } else {
        decimal(n / 10).push(digit_char(n % 10))
    }
}

/// `n / d` rounded to the nearest whole number; a tie goes to the even
/// one.
pub open spec fn rounded_half_even(n: nat, d: nat) -> nat {
    let q = n / d;
    let r = n % d;
    if 2 * r > d || (2 * r == d && q % 2 == 1) {
        q + 1
    } else {
        q
    }
}

/// The distance between neighbouring double-precision numbers around
/// `size`: 1 below 2^53, and twice as much for each further bit.
pub open spec fn double_spacing(size: nat) -> nat
    decreases size,
{
    if size < 0x20_0000_0000_0000 {
        1
    } else {
        2 * double_spacing(size / 2)
    }
}

/// The double-precision number nearest to `size`, which is what a size is
/// shown from.
pub open spec fn nearest_double(size: nat) -> nat {
    rounded_half_even(size, double_spacing(size)) * double_spacing(size)
}

/// The unit a size is shown in: 0 for bytes, then KB, MB, GB, and 4 for TB
/// and everything above.
pub open spec fn unit_index(size: nat) -> nat {
    if size < 1024 {
        0
    } else if size < 1024 * 1024 {
        1
    } else if size < 1024 * 1024 * 1024 {
        2
    } else if size < 1024 * 1024 * 1024 * 1024 {
        3
    } else {
        4
    }
}

/// How many bytes make one of the unit.
pub open spec fn unit_bytes(unit: nat) -> nat {
    if unit == 0 {
        1
    } else if unit == 1 {
        1024
    } else if unit == 2 {
        1024 * 1024
    } else if unit == 3 {
        1024 * 1024 * 1024
    } else {
        1024 * 1024 * 1024 * 1024
    }
}

/// The name of the unit.
pub open spec fn unit_name(unit: nat) -> Seq<char> {
    if unit == 0 {
        seq!['B']
    } else if unit == 1 {
        seq!['K', 'B']
    } else if unit == 2 {
        seq!['M', 'B']
    } else if unit == 3 {
        seq!['G', 'B']
    } else {
        seq!['T', 'B']
    }
}

/// A size in hundredths of its unit, rounded to the nearest; a tie goes to
/// the even one.
pub open spec fn hundredths(size: nat) -> nat {
    rounded_half_even(size * 100, unit_bytes(unit_index(size)))
}

/// A size as shown: in plain form the number of bytes and ` B`; in
/// human-readable form the size in its unit with two decimals, then the
/// unit's name.
pub open spec fn size_text(size: u64, human_readable: bool) -> Seq<char> {
    if human_readable {
        let shown = nearest_double(size as nat);
        let h = hundredths(shown);
        decimal(h / 100) + seq!['.', digit_char((h % 100) / 10), digit_char(h % 10), ' ']
            + unit_name(unit_index(shown))
    } else {
        decimal(size as nat) + seq![' ', 'B']
    }
}

fn digit(d: u8) -> (c: char)
    requires
        d < 10,
    ensures
        c == digit_char(d as nat),
{
    if d == 0 {
        '0'
    } else if d == 1 {
        '1'
    } else if d == 2 {
        '2'
    } else if d == 3 {
        '3'
    } else if d == 4 {
        '4'
    } else if d == 5 {
        '5'
    } else if d == 6 {
        '6'
    } else if d == 7 {
        '7'
    } else if d == 8 {
        '8'
    } else {
        '9'
    }
}

/// Appends a number in decimal.
pub fn push_decimal(out: &mut String, n: u128)
    ensures
        final(out)@ == old(out)@ + decimal(n as nat),
    decreases n,
{
    if n >= 10 {
        push_decimal(out, n / 10);
    }
    push_char(out, digit((n % 10) as u8));
    proof {
        if n >= 10 {
            assert(old(out)@ + decimal((n / 10) as nat).push(digit_char((n % 10) as nat)) == (old(
                out,
            )@ + decimal((n / 10) as nat)).push(digit_char((n % 10) as nat)));
        } else {
            assert(old(out)@ + seq![digit_char(n as nat)] == old(out)@.push(digit_char(n as nat)));
        }
    }
}

fn round_half_even(n: u128, d: u128) -> (q: u128)
    requires
        d > 0,
        n / d < u128::MAX,
    ensures
        q == rounded_half_even(n as nat, d as nat),
{
    let q = n / d;
    let r = n % d;
    // r < d, so r > d - r is 2 * r > d without the doubling.
    if r > d - r || (r == d - r && q % 2 == 1) {
        q + 1
    } else {
        q
    }
}

fn spacing(size: u64) -> (unit: u64)
    ensures
        unit == double_spacing(size as nat),
        1 <= unit <= 2048,
{
    let mut unit: u64 = 1;
    let mut rest: u64 = size;
    while rest >= 0x20_0000_0000_0000
        invariant
            unit * double_spacing(rest as nat) == double_spacing(size as nat),
            unit * rest <= size,
            unit == 1 || unit == 2 || unit == 4 || unit == 8 || unit == 16 || unit == 32 || unit
                == 64 || unit == 128 || unit == 256 || unit == 512 || unit == 1024 || unit == 2048,
        decreases rest,
    {
        proof {
            let half = (rest / 2) as nat;
            assert(double_spacing(rest as nat) == 2 * double_spacing(half));
            assert((unit * 2) * double_spacing(half) == unit * (2 * double_spacing(half)))
                by (nonlinear_arith);
            assert((unit * 2) * (rest / 2) <= unit * rest) by (nonlinear_arith)
                requires
                    unit >= 1,
            ;
            assert(unit * 0x20_0000_0000_0000 <= unit * rest) by (nonlinear_arith)
                requires
                    rest >= 0x20_0000_0000_0000,
                    unit >= 1,
            ;
        }
        unit = unit * 2;
        rest = rest / 2;
    }
    proof {
        assert(double_spacing(rest as nat) == 1);
    }
    unit
}

/// Shows a size: as a number of bytes, or, human-readable, in the largest
/// unit up to TB that leaves at least 1, with two decimals.
pub fn format_size(size: u64, human_readable: bool) -> (r: String)
    ensures
        r@ == size_text(size, human_readable),
{
    let mut out = String::new();
    if human_readable {
        let step = spacing(size) as u128;
        let steps = round_half_even(size as u128, step);
        proof {
            assert(steps * step <= size + step) by (nonlinear_arith)
                requires
                    steps <= size as u128 / step + 1,
                    step > 0,
            ;
        }
        let shown: u128 = steps * step;
        let (per_unit, index): (u128, u8) = if shown < 1024 {
            (1, 0)
        } else if shown < 1024 * 1024 {
            (1024, 1)
        } else if shown < 1024 * 1024 * 1024 {
            (1024 * 1024, 2)
        } else if shown < 1024 * 1024 * 1024 * 1024 {
            (1024 * 1024 * 1024, 3)
        } else {
            (1024 * 1024 * 1024 * 1024, 4)
        };
        let h = round_half_even(shown * 100, per_unit);
        push_decimal(&mut out, h / 100);
        push_char(&mut out, '.');
        push_char(&mut out, digit(((h % 100) / 10) as u8));
        push_char(&mut out, digit((h % 10) as u8));
        push_char(&mut out, ' ');
        if index == 0 {
            push_char(&mut out, 'B');
        } else {
            push_char(
                &mut out,
                if index == 1 {
                    'K'
                } else if index == 2 {
                    'M'
                } else if index == 3 {
                    'G'
                } else {
                    'T'
                },
            );
            push_char(&mut out, 'B');
        }
    } else {
        push_decimal(&mut out, size as u128);
        push_char(&mut out, ' ');
        push_char(&mut out, 'B');
    }
    out
}

/// The colour an entry is listed in.
#[derive(Clone, Copy, Debug, PartialEq, Eq, Structural)]
pub enum EntryColor {
    Blue,
    Green,
}

/// Directories are listed in blue, everything else in green.
pub fn entry_color(is_dir: bool) -> (color: EntryColor)
    ensures
        color == (if is_dir {
            EntryColor::Blue
        } else {
            EntryColor::Green
        }),
{
    if is_dir {
        EntryColor::Blue
    } else {
        EntryColor::Green
    }
}

/// What stands in brackets after an entry: `DIR` for a directory, the size
/// for anything else.
pub open spec fn size_label(is_dir: bool, size: u64, human_readable: bool) -> Seq<char> {
    if is_dir {
        seq!['D', 'I', 'R']
    } else {
        size_text(size, human_readable)
    }
}

/// One line of the listing: two spaces for each level of depth, the branch
/// mark, the path, and the size label in brackets.
pub open spec fn tree_line_text(
    display_path: Seq<char>,
    depth: usize,
    is_dir: bool,
    size: u64,
    human_readable: bool,
) -> Seq<char> {
    Seq::new(2 * depth as nat, |i: int| ' ') + seq!['\u{251c}', '\u{2500}', ' '] + display_path
        + seq![' ', '('] + size_label(is_dir, size, human_readable) + seq![')']
}

/// Writes one line of the tree listing.
pub fn tree_line(
    display_path: &str,
    depth: usize,
    is_dir: bool,
    size: u64,
    human_readable: bool,
) -> (r: String)
    ensures
        r@ == tree_line_text(display_path@, depth, is_dir, size, human_readable),
{
    let mut out = String::new();
    let mut level: usize = 0;
    while level < depth
        invariant
            level <= depth,
            out@ == Seq::new(2 * level as nat, |i: int| ' '),
        decreases depth - level,
    {
        push_char(&mut out, ' ');
        push_char(&mut out, ' ');
        level = level + 1;
    }
    push_char(&mut out, '\u{251c}');
    push_char(&mut out, '\u{2500}');
    push_char(&mut out, ' ');
    out.append(display_path);
    push_char(&mut out, ' ');
    push_char(&mut out, '(');
    if is_dir {
        push_char(&mut out, 'D');
        push_char(&mut out, 'I');
        push_char(&mut out, 'R');
    } else {
        let size_shown = format_size(size, human_readable);
        out.append(size_shown.as_str());
    }
    push_char(&mut out, ')');
    out
}

/// An entry of a walk with its path as the listing shows it: relative to
/// the root of the walk.
#[derive(Debug)]
pub struct TreeItem {
    pub entry: WalkEntry,
    pub display_path: String,
}

/// One line of the listing and the colour it is printed in.
#[derive(Debug)]
pub struct TreeLine {
    pub text: String,
    pub color: EntryColor,
}

/// The listing as pairs of text and colour.
pub open spec fn line_views(lines: Seq<TreeLine>) -> Seq<(Seq<char>, EntryColor)> {
    lines.map_values(|l: TreeLine| (l.text@, l.color))
}

/// The policy that the arguments of a tree listing state: hidden files
/// left out, ignore files respected, depth limited as asked.
pub open spec fn listing_policy(args: ListArgs) -> FilterPolicy {
    FilterPolicy { include_hidden: false, max_depth: args.depth, respect_ignore_files: true }
}

/// The line that the listing has for an item, if it shows the item: its
/// text, blue for a directory and green for anything else.
pub open spec fn line_of(args: ListArgs, item: TreeItem) -> Option<(Seq<char>, EntryColor)> {
    if shown(item.entry, listing_policy(args)) {
        Some(
            (
                tree_line_text(
                    item.display_path@,
                    item.entry.depth,
                    item.entry.is_dir,
                    item.entry.size,
                    args.human_readable,
                ),
                if item.entry.is_dir {
                    EntryColor::Blue
                } else {
                    EntryColor::Green
                },
            ),
        )
    } else {
        None
    }
}

/// The listing of the items of a walk, in the order of the walk.
pub open spec fn listing_of(args: ListArgs, items: Seq<TreeItem>) -> Seq<(Seq<char>, EntryColor)>
    decreases items.len(),
{
    if items.len() == 0 {
        Seq::empty()
    } else {
        let before = listing_of(args, items.drop_last());
        match line_of(args, items.last()) {
            Some(line) => before.push(line),
            None => before,
        }
    }
}

/// Writes the line of the listing for one item of a walk, if the listing
/// shows the item.
pub fn list_item(args: &ListArgs, item: &TreeItem) -> (r: Option<TreeLine>)
    ensures
        r is Some <==> line_of(*args, *item) is Some,
        r matches Some(line) ==> Some((line.text@, line.color)) == line_of(*args, *item),
{
    if !is_shown(&item.entry, &tree_policy(args)) {
        return None;
    }
    Some(
        TreeLine {
            text: tree_line(
                item.display_path.as_str(),
                item.entry.depth,
                item.entry.is_dir,
                item.entry.size,
                args.human_readable,
            ),
            color: entry_color(item.entry.is_dir),
        },
    )
}

/// Lists the items of a walk as a tree: one line for each item shown,
/// indented by its depth, with the size of each file.
pub fn run_tree(args: &ListArgs, items: &Vec<TreeItem>) -> (lines: Vec<TreeLine>)
    ensures
        line_views(lines@) == listing_of(*args, items@),
{
    let mut lines: Vec<TreeLine> = Vec::new();
    let mut i: usize = 0;
    while i < items.len()
        invariant
            i <= items.len(),
            line_views(lines@) == listing_of(*args, items@.take(i as int)),
        decreases items.len() - i,
    {
        let ghost before = lines@;
        proof {
            let next = items@.take(i + 1);
            assert(next.drop_last() == items@.take(i as int));
            assert(next.last() == items@[i as int]);
        }
        match list_item(args, &items[i]) {
            Some(line) => {
                lines.push(line);
                proof {
                    assert(line_views(lines@) == line_views(before).push(
                        (lines@.last().text@, lines@.last().color),
                    ));
                }
            },
            None => {},
        }
        i = i + 1;
    }
    proof {
        assert(items@.take(items.len() as int) == items@);
    }
    lines
}

} // verus!
