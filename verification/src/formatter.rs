//! Rendering of a grid of display strings in the supported output formats.
//! The comma-separated and space-padded formats are specified exactly; the
//! bordered table delegates its drawing to the table renderer.
use vstd::prelude::*;
use vstd::string::StrSliceExecFns;
use crate::table::{
    table_rows, table_header, table_new, table_load_utf8_style, table_set_header, table_add_row,
    table_to_string,
};
use crate::text::{trim_end_spec, trim_end_chars, push_char};

verus! {

/// Supported output formats.
pub enum OutputFormat {
    /// Pretty-printed table with borders.
    Table,
    /// Comma-separated values.
    CSV,
    /// Space-padded columns without borders.
    Plain,
}

/// Renders grids of rows in the chosen format; `no_header` drops the header
/// row from the bordered table.
pub struct Formatter {
    pub format: OutputFormat,
    pub no_header: bool,
}

/// One CSV cell: quoted and with inner quotes doubled when it contains a
/// comma, a quote or a newline; verbatim otherwise.
pub open spec fn spec_csv_cell(c: Seq<char>) -> Seq<char> {
    if c.contains(',') || c.contains('"') || c.contains('\n') {
        seq!['"'] + spec_csv_escape(c) + seq!['"']
    } else {
        c
    }
}

pub open spec fn spec_csv_escape(c: Seq<char>) -> Seq<char>
    decreases c.len(),
{
    if c.len() == 0 {
        Seq::empty()
    } else {
        spec_csv_escape(c.drop_last()) + (if c.last() == '"' {
            seq!['"', '"']
        } else {
            seq![c.last()]
        })
    }
}

pub open spec fn spec_csv_row(row: Seq<Seq<char>>) -> Seq<char>
    decreases row.len(),
{
    if row.len() == 0 {
        Seq::empty()
    } else if row.len() == 1 {
        spec_csv_cell(row[0])
    } else {
        spec_csv_row(row.drop_last()) + seq![','] + spec_csv_cell(row.last())
    }
}

/// The whole CSV text: rows joined with newlines.
pub open spec fn spec_csv(rows: Seq<Seq<Seq<char>>>) -> Seq<char>
    decreases rows.len(),
{
    if rows.len() == 0 {
        Seq::empty()
    } else if rows.len() == 1 {
        spec_csv_row(rows[0])
    } else {
        spec_csv(rows.drop_last()) + seq!['\n'] + spec_csv_row(rows.last())
    }
}

/// The width of column `j`: the longest cell the column holds anywhere.
pub open spec fn spec_col_width(g: Seq<Seq<Seq<char>>>, j: int) -> nat
    decreases g.len(),
{
    if g.len() == 0 {
        0
    } else {
        let rest = spec_col_width(g.drop_last(), j);
        if 0 <= j < g.last().len() && g.last()[j].len() > rest {
            g.last()[j].len()
        } else {
            rest
        }
    }
}

pub open spec fn spec_spaces(n: nat) -> Seq<char>
    decreases n,
{
    if n == 0 {
        Seq::empty()
    } else {
        spec_spaces((n - 1) as nat).push(' ')
    }
}

/// A cell padded with spaces up to the column width.
pub open spec fn spec_pad(c: Seq<char>, w: nat) -> Seq<char> {
    if c.len() >= w {
        c
    } else {
        c + spec_spaces((w - c.len()) as nat)
    }
}

/// The first `m` cells of a row, each padded to its column's width, joined
/// with two spaces.
pub open spec fn spec_plain_cells(row: Seq<Seq<char>>, g: Seq<Seq<Seq<char>>>, m: int) -> Seq<
    char,
>
    decreases m,
{
    if m <= 0 {
        Seq::empty()
    } else if m == 1 {
        spec_pad(row[0], spec_col_width(g, 0))
    } else {
        spec_plain_cells(row, g, m - 1) + seq![' ', ' '] + spec_pad(
            row[m - 1],
            spec_col_width(g, m - 1),
        )
    }
}

/// One padded line, trailing whitespace removed.
pub open spec fn spec_plain_line(row: Seq<Seq<char>>, g: Seq<Seq<Seq<char>>>) -> Seq<char> {
    trim_end_spec(spec_plain_cells(row, g, row.len() as int))
}

pub open spec fn spec_plain_rows(g: Seq<Seq<Seq<char>>>, k: int) -> Seq<char>
    decreases k,
{
    if k <= 0 {
        Seq::empty()
    } else if k == 1 {
        spec_plain_line(g[0], g)
    } else {
        spec_plain_rows(g, k - 1) + seq!['\n'] + spec_plain_line(g[k - 1], g)
    }
}

/// The whole space-padded text: every line padded against the column widths
/// of the whole grid, lines joined with newlines.
pub open spec fn spec_plain(g: Seq<Seq<Seq<char>>>) -> Seq<char> {
    spec_plain_rows(g, g.len() as int)
}

/// No row is wider than the first: the space-padded format sizes its columns
/// by the first row.
pub open spec fn plain_wf(g: Seq<Seq<Seq<char>>>) -> bool {
    forall|i: int| 0 <= i < g.len() ==> (#[trigger] g[i]).len() <= g[0].len()
}

fn csv_cell(cell: &str) -> (r: String)
    ensures
        r@ == spec_csv_cell(cell@),
{
    let n = cell.unicode_len();
    let mut needs: bool = false;
    let mut i: usize = 0;
    while i < n
        invariant
            n == cell@.len(),
            i <= n,
            needs == (cell@.subrange(0, i as int).contains(',') || cell@.subrange(
                0,
                i as int,
            ).contains('"') || cell@.subrange(0, i as int).contains('\n')),
        decreases n - i,
    {
        let c = cell.get_char(i);
        proof {
            let pre = cell@.subrange(0, i as int);
            let pre2 = cell@.subrange(0, i + 1);
            assert(pre2 =~= pre.push(cell@[i as int]));
            assert forall|x: char| pre2.contains(x) == (pre.contains(x) || cell@[i as int]
                == x) by {
                if pre.contains(x) {
                    let w = choose|w: int| 0 <= w < pre.len() && pre[w] == x;
                    assert(pre2[w] == x);
                }
                if cell@[i as int] == x {
                    assert(pre2[pre.len() as int] == x);
                }
                if pre2.contains(x) {
                    let w = choose|w: int| 0 <= w < pre2.len() && pre2[w] == x;
                    if w < pre.len() {
                        assert(pre[w] == x);
                    }
                }
            }
        }
        if c == ',' || c == '"' || c == '\n' {
            needs = true;
        }
        i += 1;
    }
    proof {
        assert(cell@.subrange(0, n as int) =~= cell@);
    }
    if !needs {
        return cell.to_owned();
    }
    proof {
        reveal_strlit("\"");
        reveal_strlit("\"\"");
    }
    let mut out = String::from_str("\"");
    let mut k: usize = 0;
    proof {
        assert("\""@ =~= seq!['"']);
        assert(spec_csv_escape(cell@.subrange(0, 0)) =~= Seq::<char>::empty());
    }
    while k < n
        invariant
            n == cell@.len(),
            k <= n,
            out@ == seq!['"'] + spec_csv_escape(cell@.subrange(0, k as int)),
            "\"\""@ =~= seq!['"', '"'],
        decreases n - k,
    {
        let c = cell.get_char(k);
        if c == '"' {
            out.append("\"\"");
        } else {
            push_char(&mut out, c);
        }
        proof {
            let pre = cell@.subrange(0, k + 1);
            assert(pre.drop_last() =~= cell@.subrange(0, k as int));
            assert(pre.last() == cell@[k as int]);
        }
        k += 1;
    }
    out.append("\"");
    proof {
        assert(cell@.subrange(0, n as int) =~= cell@);
        assert(out@ =~= seq!['"'] + spec_csv_escape(cell@) + seq!['"']);
    }
    out
}

impl Formatter {
    /// Creates a formatter with the given format and header preference.
    pub fn new(format: OutputFormat, no_header: bool) -> (r: Formatter)
        ensures
            r.format == format,
            r.no_header == no_header,
    {
        Formatter { format, no_header }
    }

    /// Renders a grid of rows in the chosen format. The comma-separated and
    /// space-padded texts are pinned down exactly; the bordered table's
    /// drawing is delegated, with an empty grid drawing as the empty string.
    pub fn render(&self, rows: &Vec<Vec<String>>) -> (r: String)
        requires
            self.format matches OutputFormat::Plain ==> plain_wf(rows.deep_view()),
        ensures
            self.format matches OutputFormat::CSV ==> r@ == spec_csv(rows.deep_view()),
            self.format matches OutputFormat::Plain ==> r@ == spec_plain(rows.deep_view()),
            self.format matches OutputFormat::Table && rows@.len() == 0 ==> r@ == Seq::<
                char,
            >::empty(),
    {
        match self.format {
            OutputFormat::Table => self.render_table(rows),
            OutputFormat::CSV => self.render_csv(rows),
            OutputFormat::Plain => self.render_plain(rows),
        }
    }

    fn render_table(&self, rows: &Vec<Vec<String>>) -> (r: String)
        ensures
            rows@.len() == 0 ==> r@ == Seq::<char>::empty(),
    {
        if rows.len() == 0 {
            return String::new();
        }
        let mut t = table_new();
        table_load_utf8_style(&mut t);
        let mut start: usize = 0;
        if !self.no_header {
            table_set_header(&mut t, &rows[0]);
            start = 1;
        }
        let g = Ghost(rows.deep_view());
        let mut i: usize = start;
        proof {
            assert(table_rows(t) =~= g@.subrange(start as int, start as int));
        }
        while i < rows.len()
            invariant
                start <= i <= rows@.len(),
                g@ == rows.deep_view(),
                g@.len() == rows@.len(),
                table_rows(t) == g@.subrange(start as int, i as int),
            decreases rows@.len() - i,
        {
            table_add_row(&mut t, &rows[i]);
            proof {
                assert(g@[i as int] == rows@[i as int].deep_view());
                assert(g@.subrange(start as int, i as int).push(g@[i as int]) =~= g@.subrange(
                    start as int,
                    i + 1,
                ));
            }
            i += 1;
        }
        table_to_string(&t)
    }

    /// Renders comma-separated values; the header preference plays no part.
    pub fn render_csv(&self, rows: &Vec<Vec<String>>) -> (r: String)
        ensures
            r@ == spec_csv(rows.deep_view()),
    {
        let g = Ghost(rows.deep_view());
        let mut out = String::new();
        let n = rows.len();
        let mut i: usize = 0;
        proof {
            reveal_strlit("\n");
            assert("\n"@ =~= seq!['\n']);
        }
        while i < n
            invariant
                n == rows@.len(),
                i <= n,
                g@ == rows.deep_view(),
                g@.len() == n,
                out@ == spec_csv(g@.subrange(0, i as int)),
                "\n"@ =~= seq!['\n'],
            decreases n - i,
        {
            if i > 0 {
                out.append("\n");
            }
            let row = &rows[i];
            let m = row.len();
            let mut j: usize = 0;
            let mut line = String::new();
            proof {
                reveal_strlit(",");
                assert(","@ =~= seq![',']);
                assert(g@[i as int] == rows@[i as int].deep_view());
            }
            while j < m
                invariant
                    m == row@.len(),
                    j <= m,
                    g@[i as int] == row.deep_view(),
                    row.deep_view().len() == m,
                    0 <= i < g@.len(),
                    line@ == spec_csv_row(row.deep_view().subrange(0, j as int)),
                    ","@ =~= seq![','],
                decreases m - j,
            {
                if j > 0 {
                    line.append(",");
                }
                let cell = csv_cell(row[j].as_str());
                line.append(cell.as_str());
                proof {
                    let rv = row.deep_view();
                    let pre = rv.subrange(0, j + 1);
                    assert(pre.drop_last() =~= rv.subrange(0, j as int));
                    assert(pre.last() == rv[j as int]);
                    assert(rv[j as int] == row@[j as int].deep_view());
                }
                j += 1;
            }
            out.append(line.as_str());
            proof {
                let pre = g@.subrange(0, i + 1);
                assert(pre.drop_last() =~= g@.subrange(0, i as int));
                assert(pre.last() == g@[i as int]);
                assert(row.deep_view().subrange(0, m as int) =~= row.deep_view());
            }
            i += 1;
        }
        proof {
            assert(g@.subrange(0, n as int) =~= g@);
        }
        out
    }

    /// Renders space-padded columns sized by the widest cell of each column,
    /// trailing whitespace trimmed from each line; the header preference
    /// plays no part.
    pub fn render_plain(&self, rows: &Vec<Vec<String>>) -> (r: String)
        requires
            plain_wf(rows.deep_view()),
        ensures
            r@ == spec_plain(rows.deep_view()),
    {
        let g = Ghost(rows.deep_view());
        if rows.len() == 0 {
            return String::new();
        }
        let n = rows.len();
        let num_cols = rows[0].len();
        proof {
            assert(g@[0] == rows@[0].deep_view());
        }

        // column widths over the whole grid
        let mut widths: Vec<usize> = Vec::new();
        let mut z: usize = 0;
        while z < num_cols
            invariant
                z <= num_cols,
                widths@.len() == z,
                forall|j: int| 0 <= j < z ==> widths@[j] == 0,
            decreases num_cols - z,
        {
            widths.push(0);
            z += 1;
        }
        proof {
            assert forall|j: int| 0 <= j < num_cols implies spec_col_width(
                g@.subrange(0, 0),
                j,
            ) == 0 by {
                assert(g@.subrange(0, 0).len() == 0);
            }
        }
        let mut i: usize = 0;
        while i < n
            invariant
                n == rows@.len(),
                i <= n,
                g@ == rows.deep_view(),
                g@.len() == n,
                plain_wf(g@),
                num_cols == g@[0].len(),
                widths@.len() == num_cols,
                forall|j: int|
                    0 <= j < num_cols ==> widths@[j] == spec_col_width(
                        g@.subrange(0, i as int),
                        j,
                    ),
            decreases n - i,
        {
            let row = &rows[i];
            let m = row.len();
            proof {
                assert(g@[i as int] == rows@[i as int].deep_view());
                assert(g@[i as int].len() <= g@[0].len());
            }
            let mut j: usize = 0;
            while j < m
                invariant
                    m == row@.len(),
                    j <= m,
                    g@[i as int] == row.deep_view(),
                    0 <= i < g@.len(),
                    m <= num_cols,
                    widths@.len() == num_cols,
                    forall|b: int|
                        0 <= b < j ==> widths@[b] == spec_col_width(g@.subrange(0, i + 1), b),
                    forall|b: int|
                        j <= b < num_cols ==> widths@[b] == spec_col_width(
                            g@.subrange(0, i as int),
                            b,
                        ),
                decreases m - j,
            {
                let w = row[j].as_str().unicode_len();
                proof {
                    let pre = g@.subrange(0, i + 1);
                    assert(pre.drop_last() =~= g@.subrange(0, i as int));
                    assert(pre.last() == g@[i as int]);
                    assert(g@[i as int][j as int] == row@[j as int].deep_view());
                }
                if w > widths[j] {
                    widths.set(j, w);
                }
                j += 1;
            }
            proof {
                let pre = g@.subrange(0, i + 1);
                assert(pre.drop_last() =~= g@.subrange(0, i as int));
                assert(pre.last() == g@[i as int]);
                assert forall|b: int| m <= b < num_cols implies spec_col_width(pre, b)
                    == spec_col_width(g@.subrange(0, i as int), b) by {
                    assert(!(0 <= b < pre.last().len()));
                }
            }
            i += 1;
        }
        proof {
            assert(g@.subrange(0, n as int) =~= g@);
        }

        // lines
        let mut out = String::new();
        let mut i: usize = 0;
        proof {
            reveal_strlit("\n");
            assert("\n"@ =~= seq!['\n']);
        }
        while i < n
            invariant
                n == rows@.len(),
                i <= n,
                g@ == rows.deep_view(),
                g@.len() == n,
                plain_wf(g@),
                num_cols == g@[0].len(),
                widths@.len() == num_cols,
                forall|j: int| 0 <= j < num_cols ==> widths@[j] == spec_col_width(g@, j),
                out@ == spec_plain_rows(g@, i as int),
                "\n"@ =~= seq!['\n'],
            decreases n - i,
        {
            if i > 0 {
                out.append("\n");
            }
            let row = &rows[i];
            let m = row.len();
            proof {
                assert(g@[i as int] == rows@[i as int].deep_view());
                assert(g@[i as int].len() <= num_cols);
            }
            let mut line = String::new();
            let mut j: usize = 0;
            proof {
                reveal_strlit("  ");
                assert("  "@ =~= seq![' ', ' ']);
            }
            while j < m
                invariant
                    m == row@.len(),
                    j <= m,
                    g@[i as int] == row.deep_view(),
                    0 <= i < g@.len(),
                    m <= num_cols,
                    widths@.len() == num_cols,
                    forall|b: int| 0 <= b < num_cols ==> widths@[b] == spec_col_width(g@, b),
                    line@ == spec_plain_cells(row.deep_view(), g@, j as int),
                    "  "@ =~= seq![' ', ' '],
                decreases m - j,
            {
                if j > 0 {
                    line.append("  ");
                }
                let cell = row[j].as_str();
                line.append(cell);
                let w = widths[j];
                let mut have = cell.unicode_len();
                proof {
                    assert(row.deep_view()[j as int] == row@[j as int].deep_view());
                    assert(spec_spaces(0) =~= Seq::<char>::empty());
                    assert(row@[j as int]@ + spec_spaces(0) =~= row@[j as int]@);
                }
                while have < w
                    invariant
                        w == widths@[j as int],
                        have <= w || have == cell@.len(),
                        cell@.len() <= have,
                        line@ == spec_plain_cells(row.deep_view(), g@, j as int) + (if j > 0 {
                            seq![' ', ' ']
                        } else {
                            Seq::<char>::empty()
                        }) + cell@ + spec_spaces((have - cell@.len()) as nat),
                    decreases w - have,
                {
                    push_char(&mut line, ' ');
                    have += 1;
                }
                proof {
                    let rv = row.deep_view();
                    assert(rv[j as int] == cell@);
                    if cell@.len() >= w {
                        assert(spec_pad(cell@, w as nat) == cell@);
                    } else {
                        assert(spec_pad(cell@, w as nat) == cell@ + spec_spaces(
                            (w - cell@.len()) as nat,
                        ));
                    }
                    assert(line@ =~= spec_plain_cells(rv, g@, j + 1));
                }
                j += 1;
            }
            let trimmed = trim_end_chars(line.as_str());
            out.append(trimmed.as_str());
            proof {
                assert(row.deep_view().len() == m);
                assert(trimmed@ == spec_plain_line(row.deep_view(), g@));
                assert(g@[i as int] == row.deep_view());
            }
            i += 1;
        }
        out
    }
}

} // verus!
