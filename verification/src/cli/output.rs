//! How the command line shows its results.

use vstd::prelude::*;
use vstd::string::StringExecFns;
use vstd::utf8::encode_utf8;

verus! {

/// In which form a result is shown.
#[derive(Debug, Clone, Copy, PartialEq, Eq, Structural)]
pub enum OutputFormat {
    Table,
    Json,
}

impl OutputFormat {
    /// The form that the `--json` flag asks for.
    pub fn from_flag(json: bool) -> (r: Self)
        ensures
            r == if json {
                OutputFormat::Json
            } else {
                OutputFormat::Table
            },
    {
        if json {
            Self::Json
        } else {
            Self::Table
        }
    }
}

// ── Cells ────────────────────────────────────────────────────────────────────

/// `n` times the same character.
pub open spec fn repeated(c: char, n: nat) -> Seq<char> {
    Seq::new(n, |i: int| c)
}

/// A text with blanks behind it until it has `width` characters. A longer text
/// stays as it is.
pub open spec fn padded(s: Seq<char>, width: nat) -> Seq<char> {
    if s.len() >= width {
        s
    } else {
        s + repeated(' ', (width - s.len()) as nat)
    }
}

/// The room that a text takes: its length in bytes.
pub open spec fn room(s: Seq<char>) -> nat {
    encode_utf8(s).len()
}

/// The greater of two numbers.
pub open spec fn greater(a: nat, b: nat) -> nat {
    if a >= b {
        a
    } else {
        b
    }
}

fn room_of(s: &str) -> (r: usize)
    ensures
        r == room(s@),
{
    s.as_bytes().len()
}

fn repeat_char(c: char, n: usize) -> (r: String)
    ensures
        r@ == repeated(c, n as nat),
{
    let mut out = String::new();
    for i in 0..n
        invariant
            out@ == repeated(c, i as nat),
    {
        out.push(c);
        assert(repeated(c, (i + 1) as nat) =~= repeated(c, i as nat).push(c));
    }
    assert(out@ =~= repeated(c, n as nat));
    out
}

fn pad(s: &str, width: usize) -> (r: String)
    ensures
        r@ == padded(s@, width as nat),
{
    let n: usize = crate::text::char_vec(s).len();
    if n >= width {
        s.to_owned()
    } else {
        s.to_owned().concat(repeat_char(' ', width - n).as_str())
    }
}

// ── Pairs ────────────────────────────────────────────────────────────────────

/// The room that the widest of the first `n` keys takes.
pub open spec fn key_width(pairs: Seq<(Seq<char>, Seq<char>)>, n: nat) -> nat
    decreases n,
{
    if n == 0 {
        0
    } else {
        greater(key_width(pairs, (n - 1) as nat), room(pairs[n - 1].0))
    }
}

/// Pairs of text by their views.
pub open spec fn pair_views(pairs: Seq<(&'static str, String)>) -> Seq<(Seq<char>, Seq<char>)> {
    pairs.map_values(|p: (&'static str, String)| (p.0@, p.1@))
}

/// The line for one pair: the key in a column of the given width, then the
/// value.
pub open spec fn pair_line(pair: (Seq<char>, Seq<char>), width: nat) -> Seq<char> {
    padded(pair.0, width) + "  "@ + pair.1
}

/// One line for every pair. The keys stand in a column as wide as the widest
/// of them.
pub fn format_kv(pairs: &Vec<(&'static str, String)>) -> (r: Vec<String>)
    ensures
        r@.len() == pairs@.len(),
        forall|i: int|
            0 <= i < r@.len() ==> (#[trigger] r@[i])@ == pair_line(
                pair_views(pairs@)[i],
                key_width(pair_views(pairs@), pairs@.len()),
            ),
{
    let ghost all = pair_views(pairs@);
    let mut width: usize = 0;
    for i in 0..pairs.len()
        invariant
            all == pair_views(pairs@),
            width == key_width(all, i as nat),
    {
        let n = room_of(pairs[i].0);
        if n > width {
            width = n;
        }
        assert(all[i as int].0 == pairs@[i as int].0@);
    }
    let mut lines: Vec<String> = Vec::new();
    for i in 0..pairs.len()
        invariant
            all == pair_views(pairs@),
            width == key_width(all, pairs@.len()),
            lines@.len() == i,
            forall|j: int|
                0 <= j < i ==> (#[trigger] lines@[j])@ == pair_line(
                    all[j],
                    key_width(all, pairs@.len()),
                ),
    {
        lines.push(pad(pairs[i].0, width).concat("  ").concat(pairs[i].1.as_str()));
    }
    lines
}

// ── Tables ───────────────────────────────────────────────────────────────────

/// The room that a row takes in a column. A row that ends before takes none.
pub open spec fn cell_room(row: Seq<String>, column: int) -> nat {
    if column < row.len() {
        room(row[column]@)
    } else {
        0
    }
}

/// The room that a header and the first `n` rows take in a column.
pub open spec fn column_width(header: Seq<char>, rows: Seq<Vec<String>>, column: int, n: nat) -> nat
    decreases n,
{
    if n == 0 {
        room(header)
    } else {
        greater(
            column_width(header, rows, column, (n - 1) as nat),
            cell_room(rows[n - 1]@, column),
        )
    }
}

/// The widths of all columns.
pub open spec fn column_widths(headers: Seq<&str>, rows: Seq<Vec<String>>) -> Seq<nat> {
    Seq::new(headers.len(), |i: int| column_width(headers[i]@, rows, i, rows.len()))
}

/// Texts with two blanks between each two of them.
pub open spec fn spaced(cells: Seq<Seq<char>>) -> Seq<char>
    decreases cells.len(),
{
    if cells.len() == 0 {
        Seq::empty()
    } else if cells.len() == 1 {
        cells[0]
    } else {
        spaced(cells.drop_last()) + "  "@ + cells.last()
    }
}

/// Cells, each padded to the width of its column.
pub open spec fn padded_cells(cells: Seq<Seq<char>>, widths: Seq<nat>) -> Seq<Seq<char>> {
    Seq::new(cells.len(), |i: int| padded(cells[i], widths[i]))
}

/// The line of a row.
pub open spec fn row_line(cells: Seq<Seq<char>>, widths: Seq<nat>) -> Seq<char> {
    spaced(padded_cells(cells, widths))
}

/// The line between the headers and the rows.
pub open spec fn rule_line(widths: Seq<nat>) -> Seq<char> {
    spaced(widths.map_values(|w: nat| repeated('-', w)))
}

fn join_cells(cells: &Vec<String>) -> (r: String)
    ensures
        r@ == spaced(cells@.map_values(|s: String| s@)),
{
    let ghost all = cells@.map_values(|s: String| s@);
    let mut out = String::new();
    assert(out@ =~= spaced(all.take(0)));
    for i in 0..cells.len()
        invariant
            all == cells@.map_values(|s: String| s@),
            out@ == spaced(all.take(i as int)),
    {
        assert(all.take(i + 1).drop_last() =~= all.take(i as int));
        if i > 0 {
            out = out.concat("  ").concat(cells[i].as_str());
        } else {
            assert(all.take(1)[0] == cells@[0]@);
            out = cells[i].clone();
        }
    }
    assert(all.take(all.len() as int) =~= all);
    out
}

/// The widths of all columns, by number.
pub open spec fn width_views(widths: Seq<usize>) -> Seq<nat> {
    widths.map_values(|w: usize| w as nat)
}

fn line_of(cells: &Vec<String>, widths: &Vec<usize>) -> (r: String)
    requires
        cells@.len() <= widths@.len(),
    ensures
        r@ == row_line(cells@.map_values(|s: String| s@), width_views(widths@)),
{
    let ghost all = cells@.map_values(|s: String| s@);
    let mut padded_row: Vec<String> = Vec::new();
    for i in 0..cells.len()
        invariant
            cells@.len() <= widths@.len(),
            all == cells@.map_values(|s: String| s@),
            padded_row@.len() == i,
            forall|j: int|
                0 <= j < i ==> (#[trigger] padded_row@[j])@ == padded(
                    all[j],
                    width_views(widths@)[j],
                ),
    {
        padded_row.push(pad(cells[i].as_str(), widths[i]));
    }
    assert(padded_row@.map_values(|s: String| s@) =~= padded_cells(all, width_views(widths@)));
    join_cells(&padded_row)
}

fn widths_of(headers: &[&str], rows: &Vec<Vec<String>>) -> (r: Vec<usize>)
    ensures
        width_views(r@) == column_widths(headers@, rows@),
{
    let mut widths: Vec<usize> = Vec::new();
    for i in 0..headers.len()
        invariant
            widths@.len() == i,
            forall|j: int|
                0 <= j < i ==> (#[trigger] widths@[j]) == column_width(
                    headers@[j]@,
                    rows@,
                    j,
                    rows@.len(),
                ),
    {
        let mut width: usize = room_of(headers[i]);
        for k in 0..rows.len()
            invariant
                width == column_width(headers@[i as int]@, rows@, i as int, k as nat),
        {
            if i < rows[k].len() {
                let n = room_of(rows[k][i].as_str());
                if n > width {
                    width = n;
                }
            }
        }
        widths.push(width);
    }
    assert(width_views(widths@) =~= column_widths(headers@, rows@));
    widths
}

/// The lines of a table: the headers, a rule, and every row. Every column is as
/// wide as the widest of its cells.
pub fn format_table(headers: &[&str], rows: &Vec<Vec<String>>) -> (r: Vec<String>)
    requires
        forall|k: int| 0 <= k < rows@.len() ==> (#[trigger] rows@[k])@.len() <= headers@.len(),
    ensures
        r@.len() == rows@.len() + 2,
        r@[0]@ == row_line(
            headers@.map_values(|s: &str| s@),
            column_widths(headers@, rows@),
        ),
        r@[1]@ == rule_line(column_widths(headers@, rows@)),
        forall|k: int|
            0 <= k < rows@.len() ==> (#[trigger] r@[k + 2])@ == row_line(
                rows@[k]@.map_values(|s: String| s@),
                column_widths(headers@, rows@),
            ),
{
    let widths = widths_of(headers, rows);
    let ghost ws = column_widths(headers@, rows@);
    assert(widths@.len() == width_views(widths@).len());
    let mut header_cells: Vec<String> = Vec::new();
    for i in 0..headers.len()
        invariant
            header_cells@.len() == i,
            forall|j: int| 0 <= j < i ==> (#[trigger] header_cells@[j])@ == headers@[j]@,
    {
        header_cells.push(headers[i].to_owned());
    }
    assert(header_cells@.map_values(|s: String| s@) =~= headers@.map_values(|s: &str| s@));
    let mut rules: Vec<String> = Vec::new();
    for i in 0..widths.len()
        invariant
            rules@.len() == i,
            forall|j: int|
                0 <= j < i ==> (#[trigger] rules@[j])@ == repeated('-', width_views(widths@)[j]),
    {
        rules.push(repeat_char('-', widths[i]));
    }
    assert(rules@.map_values(|s: String| s@) =~= ws.map_values(|w: nat| repeated('-', w)));
    let mut lines: Vec<String> = Vec::new();
    lines.push(line_of(&header_cells, &widths));
    lines.push(join_cells(&rules));
    for k in 0..rows.len()
        invariant
            forall|i: int| 0 <= i < rows@.len() ==> (#[trigger] rows@[i])@.len() <= headers@.len(),
            headers@.len() == widths@.len(),
            width_views(widths@) == ws,
            lines@.len() == k + 2,
            lines@[0]@ == row_line(headers@.map_values(|s: &str| s@), ws),
            lines@[1]@ == rule_line(ws),
            forall|i: int|
                0 <= i < k ==> (#[trigger] lines@[i + 2])@ == row_line(
                    rows@[i]@.map_values(|s: String| s@),
                    ws,
                ),
    {
        lines.push(line_of(&rows[k], &widths));
    }
    lines
}

// ── Laws ─────────────────────────────────────────────────────────────────────

/// A column is wide enough for its header and for every cell in it.
pub proof fn lemma_column_fits(headers: Seq<&str>, rows: Seq<Vec<String>>, column: int, row: int)
    requires
        0 <= column < headers.len(),
        0 <= row < rows.len(),
    ensures
        room(headers[column]@) <= column_widths(headers, rows)[column],
        cell_room(rows[row]@, column) <= column_widths(headers, rows)[column],
{
    lemma_column_grows(headers[column]@, rows, column, row, rows.len());
}

proof fn lemma_column_grows(
    header: Seq<char>,
    rows: Seq<Vec<String>>,
    column: int,
    row: int,
    n: nat,
)
    requires
        row < n,
    ensures
        room(header) <= column_width(header, rows, column, n),
        0 <= row ==> cell_room(rows[row]@, column) <= column_width(header, rows, column, n),
    decreases n,
{
    if n > 0 {
        lemma_column_grows(header, rows, column, if row < n - 1 {
            row
        } else {
            -1
        }, (n - 1) as nat);
    }
}

/// A cell is shown in full and filled with spaces up to its width. Cells stand
/// two spaces apart; the rule below the headers is made of dashes.
pub proof fn lemma_cells(a: Seq<char>, b: Seq<char>, v: nat, w: nat, i: int)
    ensures
        padded(a, v).len() == if a.len() < v {
            v
        } else {
            a.len()
        },
        a.is_prefix_of(padded(a, v)),
        a.len() <= i < padded(a, v).len() ==> padded(a, v)[i] == ' ',
        row_line(seq![a], seq![v]) == padded(a, v),
        row_line(seq![a, b], seq![v, w]) == padded(a, v) + "  "@ + padded(b, w),
        rule_line(seq![v, w]).len() == v + 2 + w,
        0 <= i < v ==> rule_line(seq![v, w])[i] == '-',
        v + 2 <= i < v + 2 + w ==> rule_line(seq![v, w])[i] == '-',
        pair_line((a, b), v) == padded(a, v) + "  "@ + b,
{
    reveal_strlit("  ");
    reveal_with_fuel(spaced, 3);
    let one = padded_cells(seq![a], seq![v]);
    assert(one =~= seq![padded(a, v)]);
    let two = padded_cells(seq![a, b], seq![v, w]);
    assert(two =~= seq![padded(a, v), padded(b, w)]);
    assert(two.drop_last() =~= seq![padded(a, v)]);
    let widths = seq![v, w];
    let rule = widths.map_values(|w: nat| repeated('-', w));
    assert(rule =~= seq![repeated('-', v), repeated('-', w)]);
    assert(rule.drop_last() =~= seq![repeated('-', v)]);
}

/// The keys of a list of pairs all fit into the width that they are shown in,
/// which is that of the longest.
pub proof fn lemma_key_width(pairs: Seq<(Seq<char>, Seq<char>)>, n: nat, i: int)
    requires
        0 <= i < n <= pairs.len(),
    ensures
        encode_utf8(pairs[i].0).len() <= key_width(pairs, n),
        exists|k: int| 0 <= k < n && key_width(pairs, n) == encode_utf8((#[trigger] pairs[k]).0).len(),
    decreases n,
{
    if n == 1 {
        assert(key_width(pairs, 0) == 0);
        assert(key_width(pairs, 1) == encode_utf8(pairs[0].0).len());
    } else {
        let m = (n - 1) as nat;
        if i < m {
            lemma_key_width(pairs, m, i);
        } else {
            lemma_key_width(pairs, m, 0);
        }
        let k = choose|k: int|
            0 <= k < m && key_width(pairs, m) == encode_utf8((#[trigger] pairs[k]).0).len();
        assert(key_width(pairs, n) == encode_utf8(pairs[k].0).len() || key_width(pairs, n)
            == encode_utf8(pairs[n - 1].0).len());
    }
}

/// Every cell that a row has, and every header, fits into its column.
pub proof fn lemma_cells_fit(headers: Seq<&str>, rows: Seq<Vec<String>>, column: int, row: int)
    requires
        0 <= column < headers.len(),
        0 <= row < rows.len(),
    ensures
        column < rows[row]@.len() ==> encode_utf8(rows[row]@[column]@).len() <= column_widths(
            headers,
            rows,
        )[column],
        encode_utf8(headers[column]@).len() <= column_widths(headers, rows)[column],
{
    lemma_column_fits(headers, rows, column, row);
}

} // verus!
