//! The listing of candidates in columns.

use vstd::prelude::*;
use vstd::string::*;

verus! {

/// The blank columns between the longest name and the next column.
pub const PADDING: usize = 5;

/// The length of the longest of `names`, in characters.
pub open spec fn longest(names: Seq<Seq<char>>) -> nat
    decreases names.len(),
{
    if names.len() == 0 {
        0
    } else {
        let before = longest(names.drop_last());
        if names.last().len() > before {
            names.last().len()
        } else {
            before
        }
    }
}

/// The width of a column: the longest name and the padding.
pub open spec fn column_width(names: Seq<Seq<char>>) -> nat {
    longest(names) + PADDING as nat
}

/// How many columns of `width` fit into a terminal of `terminal_width`
/// columns: as many as it has room for, and one at least.
pub open spec fn columns_of_width(width: nat, terminal_width: nat) -> nat {
    let fit = terminal_width / width;
    if fit < 1 {
        1
    } else {
        fit
    }
}

/// How many columns the listing of `names` has in a terminal of
/// `terminal_width` columns.
pub open spec fn columns(names: Seq<Seq<char>>, terminal_width: nat) -> nat {
    columns_of_width(column_width(names), terminal_width)
}

/// `n` spaces.
pub open spec fn spaces(n: nat) -> Seq<char> {
    Seq::new(n, |i: int| ' ')
}

/// A name, filled up with spaces to `width`.
pub open spec fn cell(name: Seq<char>, width: nat) -> Seq<char> {
    name + spaces((width - name.len()) as nat)
}

/// What ends a row of a listing in `columns` columns. In one column it is
/// a carriage return and then a line feed; in two or more columns the line
/// feed comes first.
pub open spec fn row_end(columns: nat) -> Seq<char> {
    if columns >= 2 {
        seq!['\n', '\r']
    } else {
        seq!['\r', '\n']
    }
}

/// The `i`-th of `count` names is the last of its row: the row is full, or
/// no name follows.
pub open spec fn ends_row(i: int, count: int, columns: int) -> bool {
    (i + 1) % columns == 0 || i + 1 == count
}

/// The rows of the first `n` of `names`.
pub open spec fn rows_upto(names: Seq<Seq<char>>, terminal_width: nat, n: int) -> Seq<char>
    decreases n,
{
    if n <= 0 {
        Seq::empty()
    } else {
        let per_row = columns(names, terminal_width);
        let end = if ends_row(n - 1, names.len() as int, per_row as int) {
            row_end(per_row)
        } else {
            Seq::empty()
        };
        rows_upto(names, terminal_width, n - 1) + cell(names[n - 1], column_width(names)) + end
    }
}

/// What takes the cursor from the line that is being edited to the start of
/// the line below it.
pub open spec fn line_below() -> Seq<char> {
    seq!['\r', '\n']
}

/// The listing of `names` for a terminal of `terminal_width` columns. It
/// begins below the line that is being edited. Then come the names in their
/// order, row by row, each filled up to the width of a column, with a row end
/// behind every full row and behind the last name.
pub open spec fn listing(names: Seq<Seq<char>>, terminal_width: nat) -> Seq<char> {
    line_below() + rows_upto(names, terminal_width, names.len() as int)
}

/// A listing that holds a name ends with the end of a row: the carriage
/// return and the line feed in the order that its number of columns asks for.
pub proof fn lemma_listing_ends_its_last_row(names: Seq<Seq<char>>, terminal_width: nat)
    requires
        names.len() > 0,
    ensures
        ({
            let text = listing(names, terminal_width);
            let end = row_end(columns(names, terminal_width));
            &&& text.len() >= 4
            &&& text.skip(text.len() - 2) == end
        }),
{
    let n = names.len() as int;
    let end = row_end(columns(names, terminal_width));
    let head = line_below() + rows_upto(names, terminal_width, n - 1) + cell(
        names[n - 1],
        column_width(names),
    );
    assert(listing(names, terminal_width) == head + end);
    assert(end.len() == 2);
    assert((head + end).skip(head.len() as int) == end);
}

/// Without a name the listing is the step below the line and nothing else.
pub proof fn lemma_empty_listing(terminal_width: nat)
    ensures
        listing(Seq::empty(), terminal_width) == line_below(),
{
    assert(line_below() + Seq::<char>::empty() == line_below());
}

/// The columns fit the terminal: there is one at least, and together they
/// are no wider than the terminal unless there is but one.
pub proof fn lemma_columns_fit(names: Seq<Seq<char>>, terminal_width: nat)
    ensures
        columns(names, terminal_width) >= 1,
        columns(names, terminal_width) == 1 || columns(names, terminal_width) * column_width(
            names,
        ) <= terminal_width,
{
    let width = column_width(names);
    assert((terminal_width / width) * width <= terminal_width) by (nonlinear_arith)
        requires
            width > 0,
    ;
}

/// No name is longer than the longest.
pub proof fn lemma_longest_bounds(names: Seq<Seq<char>>, i: int)
    requires
        0 <= i < names.len(),
    ensures
        names[i].len() <= longest(names),
    decreases names.len(),
{
    if i < names.len() - 1 {
        lemma_longest_bounds(names.drop_last(), i);
    }
}

/// The length of the longest of `names`, in characters.
pub fn longest_name(names: &Vec<String>) -> (r: usize)
    ensures
        r == longest(names.deep_view()),
{
    let ghost all = names.deep_view();
    let mut m: usize = 0;
    let mut i: usize = 0;
    assert(all.take(0) == Seq::<Seq<char>>::empty());
    while i < names.len()
        invariant
            i <= names.len(),
            all == names.deep_view(),
            m == longest(all.take(i as int)),
        decreases names.len() - i,
    {
        proof {
            assert(all.take(i + 1).drop_last() == all.take(i as int));
            assert(all.take(i + 1).last() == names@[i as int]@);
        }
        let n = names[i].as_str().unicode_len();
        if n > m {
            m = n;
        }
        i += 1;
    }
    assert(all.take(i as int) == all);
    m
}

/// How many columns a listing has whose longest name has `longest`
/// characters, in a terminal of `terminal_width` columns.
pub fn column_count(longest: usize, terminal_width: u16) -> (r: usize)
    ensures
        r == columns_of_width(longest as nat + PADDING as nat, terminal_width as nat),
        r >= 1,
{
    let width = terminal_width as usize;
    if longest >= width {
        assert(width as nat / (longest + 5) as nat == 0) by (nonlinear_arith)
            requires
                longest >= width,
        ;
        1
    } else {
        let fit = width / (longest + PADDING);
        if fit < 1 {
            1
        } else {
            fit
        }
    }
}

/// Appends `n` spaces to `s`.
pub fn pad(s: &mut String, n: usize)
    ensures
        final(s)@ == old(s)@ + spaces(n as nat),
{
    let mut i: usize = 0;
    assert(s@ + spaces(0) == s@);
    while i < n
        invariant
            i <= n,
            s@ == old(s)@ + spaces(i as nat),
        decreases n - i,
    {
        s.push(' ');
        assert(spaces(i as nat).push(' ') == spaces((i + 1) as nat));
        i += 1;
    }
}

/// The listing of `names` for a terminal of `terminal_width` columns.
pub fn format_listing(names: &Vec<String>, terminal_width: u16) -> (r: String)
    ensures
        r@ == listing(names.deep_view(), terminal_width as nat),
{
    let ghost all = names.deep_view();
    let ghost wide = terminal_width as nat;
    let longest = longest_name(names);
    let per_row = column_count(longest, terminal_width);
    let count = names.len();
    let mut out = String::new();
    out.push('\r');
    out.push('\n');
    assert(out@ == line_below() + rows_upto(all, wide, 0));
    let mut i: usize = 0;
    while i < count
        invariant
            i <= count,
            count == names.len(),
            all == names.deep_view(),
            longest == self::longest(all),
            per_row == columns(all, wide),
            per_row >= 1,
            out@ == line_below() + rows_upto(all, wide, i as int),
        decreases count - i,
    {
        let ghost before = out@;
        let name = names[i].as_str();
        let len = name.unicode_len();
        proof {
            assert(all[i as int] == names@[i as int]@);
            lemma_longest_bounds(all, i as int);
        }
        out.append(name);
        pad(&mut out, longest - len);
        pad(&mut out, PADDING);
        proof {
            let gap = (longest - len) as nat;
            assert(spaces(gap) + spaces(PADDING as nat) == spaces(
                (column_width(all) - all[i as int].len()) as nat,
            ));
            assert(out@ == before + cell(all[i as int], column_width(all)));
        }
        if (i + 1) % per_row == 0 || i + 1 == count {
            if per_row >= 2 {
                out.push('\n');
                out.push('\r');
            } else {
                out.push('\r');
                out.push('\n');
            }
            assert(out@ == before + cell(all[i as int], column_width(all)) + row_end(
                per_row as nat,
            ));
        } else {
            assert(out@ == before + cell(all[i as int], column_width(all)) + Seq::<char>::empty());
        }
        i += 1;
    }
    out
}

} // verus!
